use reciprocity_bot::bots::{Bot, BotMap};
use reciprocity_bot::config::{Config, GuildConfig, LavalinkConfig};
use reciprocity_bot::discord::{Message, VoiceState};
use reciprocity_bot::guild::message_manager::{EmoteAction, MainMessage, MessageError};
use reciprocity_bot::guild::player_manager::{PlayerMapError, PlayerRequest};
use reciprocity_bot::guild::{
    ActionNext, CheckNext, CheckReply, ClearNext, ClearReply, DeleteNext, DeletedNext, MessageFlow,
    MessageNext, MessageReply, ReciprocityGuild, ReciprocityGuildError, Upkeep, VoiceNext,
};
use reciprocity_bot::ids::{ChannelId, ClientId, GuildId, MessageId, UserId};
use reciprocity_bot::lavalink_handler::{LavalinkEvent, TrackStart};
use reciprocity_bot::player::Playback;
use reciprocity_bot::track::Track;

fn config() -> Config {
    Config {
        bots: vec![],
        guilds: vec![("home".to_string(), GuildConfig { guild_id: 3, channel_id: 30 })],
        lavalink: LavalinkConfig { address: "a".to_string(), password: "p".to_string() },
        net: None,
    }
}

fn guild(upkeep: Upkeep) -> ReciprocityGuild {
    match ReciprocityGuild::new(GuildId(3), &bots(), &config(), upkeep) {
        Ok(guild) => guild,
        Err(_) => panic!("no guild"),
    }
}

fn bots() -> BotMap {
    let mut bots = BotMap::new();
    assert!(bots.add_bot(Ok(Bot::new(UserId(1), 0))).is_ok());
    bots
}

fn message(channel: u64, author: u64, content: &str) -> Message {
    Message {
        id: MessageId(500),
        channel_id: ChannelId(channel),
        author: UserId(author),
        author_name: "ann".to_string(),
        content: content.to_string(),
    }
}

fn state(user: u64, channel: Option<u64>) -> VoiceState {
    VoiceState {
        user_id: UserId(user),
        channel_id: channel.map(ChannelId),
        session_id: "s".to_string(),
    }
}

fn track(name: &str) -> Track {
    Track { track: name.to_string(), info: None }
}

fn begin(content: &str) -> MessageFlow {
    match guild(Upkeep::Pooled).new_message(&bots(), message(30, 7, content)) {
        Some((flow, MessageNext::LookUpVoice(UserId(7)), _)) => flow,
        _ => panic!("ignored"),
    }
}

fn searching(content: &str) -> MessageFlow {
    let bots = bots();
    let (flow, next) = begin(content).step(&bots, MessageReply::Voice(Some(state(7, Some(70)))));
    assert!(matches!(next, MessageNext::CheckBot(ChannelId(70))));
    let (flow, next) = flow.step(&bots, MessageReply::BotThere(false));
    assert!(matches!(next, MessageNext::Join(ChannelId(70))));
    let (flow, next) = flow.step(&bots, MessageReply::Joined(Ok(())));
    assert!(matches!(next, MessageNext::LookUpVoice(UserId(7))));
    let (flow, next) = flow.step(&bots, MessageReply::Voice(Some(state(7, Some(70)))));
    assert!(matches!(next, MessageNext::Search(ChannelId(70))));
    flow
}

#[test]
fn a_guild_has_to_be_configured() {
    assert!(matches!(
        ReciprocityGuild::new(GuildId(4), &bots(), &config(), Upkeep::Pooled),
        Err(ReciprocityGuildError::GuildNotInConfig(GuildId(4)))
    ));
    let g = guild(Upkeep::Pooled);
    assert_eq!(g.get_id(), GuildId(3));
    assert_eq!(g.context.channel(), ChannelId(30));
    assert_eq!(g.context.id(), GuildId(3));
    assert!(g.get_player_manager().get_all_player_states().is_empty());
}

#[test]
fn reports_without_a_player_are_passed_over() {
    let mut g = guild(Upkeep::Pooled);
    let start = TrackStart { guild_id: GuildId(3), track: "t".to_string() };
    assert!(g.lavalink(LavalinkEvent::Start(start), ClientId(1), 0).is_none());
}

#[test]
fn messages_elsewhere_and_of_bots_are_ignored() {
    let g = guild(Upkeep::Pooled);
    assert!(g.new_message(&bots(), message(31, 7, "x")).is_none());
    assert!(g.new_message(&bots(), message(30, 1, "x")).is_none());
}

#[test]
fn a_users_message_is_deleted() {
    let pooled = guild(Upkeep::Pooled).new_message(&bots(), message(30, 7, "x")).unwrap();
    assert_eq!(pooled.2, DeleteNext::PoolLater(ChannelId(30), MessageId(500), 500));
    let direct = guild(Upkeep::Direct).new_message(&bots(), message(30, 7, "x")).unwrap();
    assert_eq!(direct.2, DeleteNext::Direct(ChannelId(30), MessageId(500)));
}

#[test]
fn a_url_queues_all_it_leads_to() {
    let flow = searching("https://example.com/list");
    let found = MessageReply::Found(Ok((UserId(1), vec![track("a"), track("b")])));
    let (flow, next) = flow.step(&bots(), found);
    match next {
        MessageNext::QueueAll(ChannelId(70), tracks) => assert_eq!(tracks.len(), 2),
        _ => panic!("not queued"),
    }
    assert!(matches!(flow.step(&bots(), MessageReply::Queued).1, MessageNext::Done));
}

#[test]
fn words_are_searched_and_chosen_from() {
    let flow = searching("some song");
    let found = MessageReply::Found(Ok((UserId(1), vec![track("a"), track("b")])));
    let (flow, next) = flow.step(&bots(), found);
    assert!(matches!(next, MessageNext::FindShard(UserId(1))));
    let (flow, next) = flow.step(&bots(), MessageReply::Shard(true));
    match next {
        MessageNext::Choose(tracks) => assert_eq!(tracks.len(), 2),
        _ => panic!("no choice"),
    }
    let (_, next) = flow.step(&bots(), MessageReply::Chosen(Ok(track("b"))));
    assert!(matches!(next, MessageNext::QueueOne(ChannelId(70), t) if t.track == "b"));
}

#[test]
fn the_answer_to_the_url_question_decides() {
    let found = |flow: MessageFlow, url| {
        let reply = MessageReply::Found(Ok((UserId(1), vec![track("a")])));
        flow.step_with(&bots(), reply, url).1
    };
    assert!(matches!(found(searching("x"), true), MessageNext::QueueAll(_, _)));
    assert!(matches!(found(searching("x"), false), MessageNext::FindShard(_)));
}

#[test]
fn handling_a_message_can_end_early() {
    let done = |next| matches!(next, MessageNext::Done);
    let b = bots();
    assert!(done(begin("x").step(&b, MessageReply::Voice(None)).1));
    assert!(done(begin("x").step(&b, MessageReply::Voice(Some(state(7, None)))).1));
    let joining = || {
        let (flow, _) = begin("x").step(&b, MessageReply::Voice(Some(state(7, Some(70)))));
        flow.step(&b, MessageReply::BotThere(false)).0
    };
    assert!(done(
        joining().step(&b, MessageReply::Joined(Err(PlayerMapError::NoFreeBot()))).1
    ));
    let exists = PlayerMapError::PlayerAlreadyExists(UserId(1));
    assert!(matches!(
        joining().step(&b, MessageReply::Joined(Err(exists))).1,
        MessageNext::LookUpVoice(UserId(7))
    ));
    let (flow, next) = joining().step(&b, MessageReply::Joined(Ok(()))).0.step(
        &b,
        MessageReply::Voice(Some(state(7, Some(71)))),
    );
    assert!(matches!(next, MessageNext::Leave(ChannelId(70))));
    assert!(done(flow.step(&b, MessageReply::Left).1));
    let found = |result| searching("x").step(&b, MessageReply::Found(result)).1;
    assert!(done(found(Err(PlayerMapError::NoFreeBot()))));
    assert!(done(found(Ok((UserId(1), vec![])))));
    assert!(done(found(Ok((UserId(9), vec![track("a")])))));
    let (flow, _) = searching("x").step(
        &b,
        MessageReply::Found(Ok((UserId(1), vec![track("a")]))),
    );
    assert!(done(flow.step(&b, MessageReply::Shard(false)).1));
    let (flow, _) = searching("x").step(
        &b,
        MessageReply::Found(Ok((UserId(1), vec![track("a")]))),
    );
    let (flow, _) = flow.step(&b, MessageReply::Shard(true));
    assert!(done(flow.step(&b, MessageReply::Chosen(Err(MessageError::Timeout()))).1));
}

#[test]
fn deleted_messages_matter_by_what_they_were() {
    let mut g = guild(Upkeep::Pooled);
    g.context.set_main_message(MessageId(300), ChannelId(30));
    assert!(!g.context.begin_search(UserId(7), 9));
    assert!(g.context.record_search(UserId(7), 9, MessageId(301)));
    assert_eq!(g.deleted_message(ChannelId(31), MessageId(301)), DeletedNext::Ignore);
    assert!(g.context.is_relevant(9));
    assert_eq!(g.deleted_message(ChannelId(30), MessageId(300)), DeletedNext::CheckMain);
    assert_eq!(g.deleted_message(ChannelId(30), MessageId(302)), DeletedNext::Ignore);
    assert!(g.context.is_relevant(9));
    assert_eq!(g.deleted_message(ChannelId(30), MessageId(301)), DeletedNext::Ignore);
    assert!(!g.context.is_relevant(9));
}

#[test]
fn emotes_are_checked_on_the_main_message_only() {
    let mut g = guild(Upkeep::Pooled);
    assert!(!g.bulk_reaction_delete(ChannelId(30), MessageId(300)));
    g.context.set_main_message(MessageId(300), ChannelId(30));
    assert!(g.bulk_reaction_delete(ChannelId(30), MessageId(300)));
    assert!(!g.bulk_reaction_delete(ChannelId(31), MessageId(300)));
    assert!(!g.bulk_reaction_delete(ChannelId(30), MessageId(301)));
}

#[test]
fn resuming_cleans_up_where_messages_are_pooled() {
    assert!(guild(Upkeep::Pooled).resume());
    assert!(!guild(Upkeep::Direct).resume());
    assert!(guild(Upkeep::Pooled).cache_ready());
}

#[test]
fn moving_a_bot_makes_its_player_leave() {
    let mut g = guild(Upkeep::Pooled);
    let old = Some(state(1, Some(70)));
    assert!(matches!(
        g.voice_update(&bots(), &old, &state(1, Some(71))),
        VoiceNext::Leave(ChannelId(70))
    ));
    assert!(matches!(g.voice_update(&bots(), &old, &state(1, None)), VoiceNext::Ignore));
    assert!(matches!(g.voice_update(&bots(), &None, &state(1, Some(71))), VoiceNext::Ignore));
    assert!(matches!(
        g.voice_update(&bots(), &Some(state(7, None)), &state(7, Some(71))),
        VoiceNext::Ignore
    ));
}

#[test]
fn a_user_who_leaves_loses_the_search() {
    for upkeep in vec![Upkeep::Pooled, Upkeep::Direct] {
        let mut g = guild(upkeep);
        assert!(!g.context.begin_search(UserId(7), 9));
        assert!(g.context.record_search(UserId(7), 9, MessageId(301)));
        let next = g.voice_update(&bots(), &Some(state(7, Some(70))), &state(7, None));
        assert!(!g.context.is_relevant(9));
        match (upkeep, next) {
            (Upkeep::Pooled, VoiceNext::CheckChannel(ch, Some(DeleteNext::Pool(text)))) => {
                assert_eq!(ch, ChannelId(70));
                assert_eq!(text, ChannelId(30));
                assert_eq!(g.context.drain_pool(), vec![MessageId(301)]);
            }
            (Upkeep::Direct, VoiceNext::CheckChannel(ch, Some(DeleteNext::Direct(_, m)))) => {
                assert_eq!(ch, ChannelId(70));
                assert_eq!(m, MessageId(301));
                assert!(g.context.drain_pool().is_empty());
            }
            _ => panic!("not checked"),
        }
        assert!(matches!(
            g.voice_update(&bots(), &Some(state(7, Some(70))), &state(7, None)),
            VoiceNext::CheckChannel(ChannelId(70), None)
        ));
    }
}

#[test]
fn players_leave_empty_channels() {
    let ch = ChannelId(70);
    assert!(matches!(
        ReciprocityGuild::channel_checked(ch, Some(false)),
        VoiceNext::Leave(ChannelId(70))
    ));
    assert!(matches!(ReciprocityGuild::channel_checked(ch, Some(true)), VoiceNext::Ignore));
    assert!(matches!(ReciprocityGuild::channel_checked(ch, None), VoiceNext::Ignore));
}

#[test]
fn actions_become_requests() {
    let here = Some(state(7, Some(70)));
    let act = |event| ReciprocityGuild::main_message_event(event, &here);
    let ch = ChannelId(70);
    assert!(matches!(
        act(EmoteAction::PlayPause()),
        ActionNext::Request(PlayerRequest::PauseResume(c)) if c == ch
    ));
    assert!(matches!(act(EmoteAction::Next()), ActionNext::Request(PlayerRequest::Skip(_))));
    assert!(matches!(act(EmoteAction::Prev()), ActionNext::Request(PlayerRequest::BackSkip(_))));
    assert!(matches!(act(EmoteAction::Join()), ActionNext::Join(c) if c == ch));
    assert!(matches!(act(EmoteAction::Leave()), ActionNext::Leave(c) if c == ch));
    assert!(matches!(
        act(EmoteAction::Delete()),
        ActionNext::Request(PlayerRequest::ClearQueue(_))
    ));
    assert!(matches!(
        act(EmoteAction::LoopOne()),
        ActionNext::Request(PlayerRequest::Playback(Playback::OneLoop, _))
    ));
    assert!(matches!(
        act(EmoteAction::LoopAll()),
        ActionNext::Request(PlayerRequest::Playback(Playback::AllLoop, _))
    ));
    assert!(matches!(act(EmoteAction::Number(1)), ActionNext::Ignore));
    assert!(matches!(act(EmoteAction::Nothing()), ActionNext::Ignore));
    assert!(matches!(
        ReciprocityGuild::main_message_event(EmoteAction::Next(), &None),
        ActionNext::Ignore
    ));
}

fn made(id: u64) -> MainMessage {
    MainMessage {
        message: MessageId(id),
        channel: ChannelId(30),
        content: "text".to_string(),
    }
}

#[test]
fn a_lost_main_message_is_replaced() {
    let mut g = guild(Upkeep::Pooled);
    assert!(matches!(g.check_main_message(CheckReply::Begin), CheckNext::Create));
    assert!(matches!(
        g.check_main_message(CheckReply::Created(Err(MessageError::NoBot(GuildId(3))))),
        CheckNext::Retry(5)
    ));
    assert!(matches!(
        g.check_main_message(CheckReply::Created(Ok(made(300)))),
        CheckNext::Done(Some(_))
    ));
    assert_eq!(g.context.main_message(), Some((MessageId(300), ChannelId(30))));
    assert!(matches!(
        g.check_main_message(CheckReply::Begin),
        CheckNext::FindOut(MessageId(300), ChannelId(30))
    ));
    assert!(matches!(g.check_main_message(CheckReply::Exists(true)), CheckNext::Done(None)));
    assert!(matches!(
        g.check_main_message(CheckReply::Exists(false)),
        CheckNext::Replace(DeleteNext::Pool(ChannelId(30)))
    ));
    assert_eq!(g.context.drain_pool(), vec![MessageId(300)]);
    let mut d = guild(Upkeep::Direct);
    assert!(matches!(
        d.check_main_message(CheckReply::Created(Ok(made(301)))),
        CheckNext::Done(Some(_))
    ));
    assert!(matches!(
        d.check_main_message(CheckReply::Exists(false)),
        CheckNext::Replace(DeleteNext::Direct(ChannelId(30), MessageId(301)))
    ));
    assert!(d.context.drain_pool().is_empty());
}

fn ids(list: &[u64]) -> Vec<MessageId> {
    list.iter().map(|id| MessageId(*id)).collect()
}

#[test]
fn clearing_spares_what_is_needed() {
    let mut g = guild(Upkeep::Pooled);
    g.context.set_main_message(MessageId(2), ChannelId(30));
    assert!(!g.context.begin_search(UserId(7), 9));
    assert!(g.context.record_search(UserId(7), 9, MessageId(4)));
    assert!(matches!(g.clear_messages(ClearReply::Bot(false)), ClearNext::Done));
    assert!(matches!(g.clear_messages(ClearReply::Bot(true)), ClearNext::Fetch(100)));
    match g.clear_messages(ClearReply::Page(0, Ok(ids(&[1, 2, 3, 4])))) {
        ClearNext::DeletePool(Some(DeleteNext::Pool(channel)), None) => {
            assert_eq!(channel, ChannelId(30));
        }
        _ => panic!("nothing deleted"),
    }
    assert_eq!(g.context.drain_pool(), ids(&[1, 3]));
    assert!(matches!(g.clear_messages(ClearReply::Page(1, Ok(ids(&[2, 4])))), ClearNext::Done));
    assert!(matches!(g.clear_messages(ClearReply::Page(1, Ok(ids(&[])))), ClearNext::Done));
    assert!(matches!(
        g.clear_messages(ClearReply::Page(1, Err("x".to_string()))),
        ClearNext::Done
    ));
}

#[test]
fn clearing_reaches_the_oldest_message() {
    let mut g = guild(Upkeep::Pooled);
    // Newest first.
    let channel: Vec<MessageId> = (1..=230).rev().map(MessageId).collect();
    g.context.set_main_message(MessageId(200), ChannelId(30));
    let mut left = channel.clone();
    let mut pooled = Vec::new();
    let mut pages = 0;
    loop {
        let page: Vec<MessageId> = left.iter().take(100).copied().collect();
        let next = g.clear_messages(ClearReply::Page(0, Ok(page)));
        pooled.append(&mut g.context.drain_pool());
        pages += 1;
        match next {
            ClearNext::DeletePool(_, Some((oldest, limit))) => {
                assert_eq!(limit, 100);
                left = channel.iter().filter(|m| m.0 < oldest.0).copied().collect();
            }
            _ => break,
        }
    }
    assert_eq!(pages, 3);
    let expected: Vec<MessageId> =
        channel.iter().filter(|m| m.0 != 200).copied().collect();
    assert_eq!(pooled, expected);
}

#[test]
fn a_full_page_of_needed_messages_does_not_end_the_clearing() {
    let mut g = guild(Upkeep::Pooled);
    for user in 1..=100u64 {
        assert!(!g.context.begin_search(UserId(user), user as u128));
        assert!(g.context.record_search(UserId(user), user as u128, MessageId(user)));
    }
    let page: Vec<MessageId> = (1..=100).rev().map(MessageId).collect();
    assert!(matches!(
        g.clear_messages(ClearReply::Page(0, Ok(page))),
        ClearNext::DeletePool(None, Some((MessageId(1), 100)))
    ));
    assert!(g.context.drain_pool().is_empty());
}

#[test]
fn only_direct_guilds_begin_when_they_are_set_up() {
    assert_eq!(guild(Upkeep::Direct).set_up(), Some(5));
    assert_eq!(guild(Upkeep::Pooled).set_up(), None);
}

#[test]
fn direct_clearing_takes_five_rounds() {
    let mut g = guild(Upkeep::Direct);
    assert!(matches!(g.clear_messages(ClearReply::Bot(true)), ClearNext::Fetch(200)));
    for round in 0..5 {
        match g.clear_messages(ClearReply::Page(round, Ok(ids(&[1])))) {
            ClearNext::DeleteAll(gone, more) => {
                assert_eq!(gone, ids(&[1]));
                if round < 4 {
                    assert_eq!(more, Some((round + 1, 200)));
                } else {
                    assert_eq!(more, None);
                }
            }
            _ => panic!("nothing deleted"),
        }
    }
}

#[test]
fn contexts_keep_searches_apart() {
    let mut g = guild(Upkeep::Pooled);
    let c = &mut g.context;
    assert!(!c.begin_search(UserId(7), 9));
    assert!(!c.begin_search(UserId(8), 10));
    assert!(c.has_search(UserId(7), 9));
    assert!(!c.has_search(UserId(7), 10));
    assert!(!c.has_other_search(UserId(7), 9));
    assert!(c.has_other_search(UserId(7), 10));
    assert!(!c.has_other_search(UserId(6), 10));
    assert!(!c.drop_search(UserId(7)));
    assert!(!c.has_search(UserId(7), 9));
    assert!(c.record_search(UserId(8), 10, MessageId(1)));
    c.end_search(UserId(8), 11, MessageId(2));
    assert!(c.has_search(UserId(8), 10));
    c.pool_message(MessageId(3));
    c.pool_messages(ids(&[4, 5]));
    assert_eq!(c.take_search(UserId(8)), Some(MessageId(1)));
    assert_eq!(c.take_search(UserId(8)), None);
    assert_eq!(c.drain_pool(), ids(&[2, 3, 4, 5]));
    assert!(c.drain_pool().is_empty());
}
