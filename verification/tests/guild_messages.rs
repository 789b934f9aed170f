use reciprocity_bot::bots::{Bot, BotMap};
use reciprocity_bot::context::Context;
use reciprocity_bot::discord::{Reaction, ReactionAction, ReactionType};
use reciprocity_bot::guild::message_manager::{
    EmoteAction, EmoteNext, EmoteReply, MainMessage, MessageError, NewNext, NewReply, ReactionNext,
    SearchMessage, Shown,
};
use reciprocity_bot::ids::{ChannelId, GuildId, MessageId, UserId};
use reciprocity_bot::player::{PlayState, Playback, PlayerState};
use reciprocity_bot::track::{Info, Track, TrackQueue};
use std::time::Duration;

fn track(title: &str) -> Track {
    Track {
        track: "data".to_string(),
        info: Some(Info {
            is_seekable: true,
            is_stream: false,
            identifier: "id".to_string(),
            author: "author".to_string(),
            length: 3_725_999,
            position: 0,
            title: title.to_string(),
            uri: "uri".to_string(),
        }),
    }
}

fn unknown() -> Track {
    Track { track: "data".to_string(), info: None }
}

fn reaction(emote: EmoteAction, user: Option<u64>) -> Reaction {
    Reaction {
        channel_id: ChannelId(30),
        message_id: MessageId(300),
        user_id: user.map(UserId),
        emoji: emote.reaction(),
    }
}

#[test]
fn emotes_read_back() {
    let mut all = vec![
        EmoteAction::PlayPause(),
        EmoteAction::Next(),
        EmoteAction::Prev(),
        EmoteAction::Join(),
        EmoteAction::Leave(),
        EmoteAction::Delete(),
        EmoteAction::LoopOne(),
        EmoteAction::LoopAll(),
        EmoteAction::Nothing(),
    ];
    for n in 0..=10 {
        all.push(EmoteAction::Number(n));
    }
    for emote in all {
        assert_eq!(EmoteAction::try_from(emote.unicode()), Ok(emote));
        assert_eq!(EmoteAction::try_from_reaction(&reaction(emote, None)), Ok(emote));
        assert!(emote.reaction().unicode_eq(emote.unicode()));
    }
}

#[test]
fn what_is_no_emote_reads_as_none() {
    assert_eq!(EmoteAction::Number(11).unicode(), "");
    assert_eq!(EmoteAction::Number(10).unicode(), "🔟");
    assert_eq!(EmoteAction::PlayPause().unicode(), "⏯");
    assert_eq!(EmoteAction::try_from(""), Err(()));
    assert_eq!(EmoteAction::try_from("x"), Err(()));
    let custom = Reaction {
        channel_id: ChannelId(30),
        message_id: MessageId(300),
        user_id: None,
        emoji: ReactionType::Custom(false, 1, Some("x".to_string())),
    };
    assert_eq!(EmoteAction::try_from_reaction(&custom), Err(()));
    assert!(!custom.emoji.unicode_eq("x"));
}

#[test]
fn search_messages_list_ten_tracks() {
    let mut tracks: Vec<Track> = vec![track("first"), unknown()];
    tracks.push(track("0123456789012345678901234567890123456789 and more"));
    for _ in 0..12 {
        tracks.push(track("x"));
    }
    let text = SearchMessage::content(&tracks, "what", "ann");
    assert_eq!(
        text,
        "```cs\n[what] @ann\r\n1: first\r\n2: Missing Name\r\n\
         3: 0123456789012345678901234567890123456789\r\n4: x\r\n5: x\r\n6: x\r\n7: x\r\n8: x\r\n\
         9: x\r\n10: x\r\n\n```"
    );
    assert_eq!(SearchMessage::content(&vec![], "what", "ann"), "```cs\n[what] @ann\r\n\n```");
}

fn context() -> Context {
    Context::new(GuildId(3), ChannelId(30))
}

#[test]
fn a_search_runs_from_question_to_choice() {
    let mut c = context();
    let tracks = vec![track("first"), track("second")];
    let (search, delete, send) =
        SearchMessage::begin(&mut c, 9, tracks, UserId(7), "ann", "what");
    assert!(!delete);
    assert_eq!(send.channel, ChannelId(30));
    assert_eq!(send.uuid, 9);
    assert!(c.is_relevant(9));
    let choice = match search.sent(&mut c, Some(MessageId(300))) {
        Ok(choice) => choice,
        Err(_) => panic!("deleted"),
    };
    assert_eq!(choice.message(), MessageId(300));
    assert_eq!(choice.requester(), UserId(7));
    assert!(c.needs(MessageId(300)));
    assert_eq!(
        choice.emotes(),
        vec![EmoteAction::Number(1), EmoteAction::Number(2), EmoteAction::Delete()]
    );
    assert!(choice.accepts(&EmoteAction::Number(2).reaction()));
    assert!(!choice.accepts(&EmoteAction::Number(3).reaction()));
    let task = choice.next_emote(&c, 1).unwrap();
    assert_eq!(task.message, MessageId(300));
    assert!(task.reaction.unicode_eq(EmoteAction::Number(2).unicode()));
    assert!(choice.next_emote(&c, 3).is_none());
    let chosen = choice.choose_track(&mut c, Some(reaction(EmoteAction::Number(2), Some(7))));
    assert_eq!(chosen.unwrap().info.unwrap().title, "second");
    assert!(!c.needs(MessageId(300)));
    assert_eq!(c.drain_pool(), vec![MessageId(300)]);
}

#[test]
fn a_search_without_a_choice_times_out() {
    for reply in vec![None, Some(reaction(EmoteAction::Delete(), Some(7)))] {
        let mut c = context();
        let (search, _, _) =
            SearchMessage::begin(&mut c, 9, vec![track("first")], UserId(7), "ann", "what");
        let choice = match search.sent(&mut c, Some(MessageId(300))) {
            Ok(choice) => choice,
            Err(_) => panic!("deleted"),
        };
        assert!(matches!(choice.choose_track(&mut c, reply), Err(MessageError::Timeout())));
        assert!(!c.is_relevant(9));
    }
}

#[test]
fn a_replaced_search_is_deleted() {
    let mut c = context();
    let (first, _, _) =
        SearchMessage::begin(&mut c, 9, vec![track("a")], UserId(7), "ann", "what");
    let (second, delete, _) =
        SearchMessage::begin(&mut c, 10, vec![track("b")], UserId(7), "ann", "else");
    assert!(!delete);
    assert!(matches!(first.sent(&mut c, Some(MessageId(300))), Err(MessageError::Deleted())));
    assert_eq!(c.drain_pool(), vec![MessageId(300)]);
    let choice = match second.sent(&mut c, Some(MessageId(301))) {
        Ok(choice) => choice,
        Err(_) => panic!("deleted"),
    };
    let (third, delete, _) =
        SearchMessage::begin(&mut c, 11, vec![track("c")], UserId(7), "ann", "more");
    assert!(delete);
    assert_eq!(c.drain_pool(), vec![MessageId(301)]);
    assert!(choice.next_emote(&c, 0).is_none());
    assert!(matches!(third.sent(&mut c, None), Err(MessageError::Deleted())));
}

#[test]
fn searches_get_numbers_of_their_own() {
    let mut c = context();
    let (_, _, a) = SearchMessage::search(&mut c, vec![track("a")], UserId(7), "ann", "what");
    let (_, _, b) = SearchMessage::search(&mut c, vec![track("a")], UserId(8), "bob", "what");
    assert_ne!(a.uuid, b.uuid);
    assert_ne!(a.uuid, 0);
    assert!(c.is_relevant(a.uuid) && c.is_relevant(b.uuid));
}

fn shown(current: Option<Track>, playlist: Vec<Track>, play_state: PlayState) -> Shown {
    Shown {
        name: Some("Bot".to_string()),
        state: PlayerState {
            bot: UserId(1),
            current: current.map(|t| (Duration::from_secs(59), t)),
            playlist: TrackQueue::from_tracks(&playlist),
            history: TrackQueue::from_tracks(&vec![]),
            play_state,
            playback: Playback::Normal,
        },
        elapsed: Duration::from_secs(2),
        play_label: "|> ".to_string(),
        mode_label: "all".to_string(),
    }
}

#[test]
fn the_main_message_shows_each_player() {
    assert_eq!(MainMessage::content(&vec![]), "```cs\r\n[No active Player]```");
    let idle = shown(None, vec![], PlayState::Play);
    assert_eq!(
        MainMessage::content(&vec![idle]),
        "```cs\r\n[Bot] No Song in Playlist\r\n\r\n```"
    );
    let running = shown(
        Some(track("song")),
        vec![track("next"), unknown(), track("third")],
        PlayState::Play,
    );
    assert_eq!(
        MainMessage::content(&vec![running]),
        "```cs\r\n[Bot] |> all\r\nsong [01:01/01:02:05]\r\n[1] next\r\n[2] No Track Name\r\n\r\n```"
    );
    let paused = shown(Some(unknown()), vec![], PlayState::Pause);
    assert_eq!(
        MainMessage::content(&vec![paused]),
        "```cs\r\n[Bot] |> all\r\nNo Track Name [00:59/--:--]\r\n\r\n```"
    );
    let mut nameless = shown(None, vec![], PlayState::Play);
    nameless.name = None;
    assert_eq!(MainMessage::content(&vec![nameless]), "```cs\r\n[No active Player]```");
}

#[test]
fn durations_show_hours_only_where_there_are_any() {
    assert_eq!(MainMessage::duration_fmt(&Duration::from_secs(0)), "00:00");
    assert_eq!(MainMessage::duration_fmt(&Duration::from_secs(3_599)), "59:59");
    assert_eq!(MainMessage::duration_fmt(&Duration::from_secs(3_600)), "01:00:00");
    assert_eq!(MainMessage::duration_fmt(&Duration::from_secs(360_061)), "100:01:01");
}

fn main_message() -> MainMessage {
    MainMessage {
        message: MessageId(300),
        channel: ChannelId(30),
        content: "old".to_string(),
    }
}

#[test]
fn a_main_message_needs_bot_shard_and_discord() {
    let guild = GuildId(3);
    assert!(matches!(
        MainMessage::new(guild, NewReply::Bot(None)),
        NewNext::Done(Err(MessageError::NoBot(GuildId(3))))
    ));
    assert!(matches!(
        MainMessage::new(guild, NewReply::Bot(Some(UserId(1)))),
        NewNext::FindShard(UserId(1))
    ));
    assert!(matches!(
        MainMessage::new(guild, NewReply::Shard(UserId(1), false)),
        NewNext::Done(Err(MessageError::NoShard(UserId(1))))
    ));
    assert!(matches!(
        MainMessage::new(guild, NewReply::Shard(UserId(1), true)),
        NewNext::SendMessage(UserId(1))
    ));
    assert!(matches!(
        MainMessage::new(guild, NewReply::Sent(Err("no".to_string()))),
        NewNext::Done(Err(MessageError::SerenityError(_)))
    ));
    match MainMessage::new(guild, NewReply::Sent(Ok(main_message()))) {
        NewNext::Done(Ok(made)) => {
            assert_eq!(made.message_id(), MessageId(300));
            assert_eq!(made.channel_id(), ChannelId(30));
        }
        _ => panic!("not made"),
    }
}

#[test]
fn reactions_are_handled_by_whose_they_are() {
    let mut bots = BotMap::new();
    assert!(bots.add_bot(Ok(Bot::new(UserId(1), 0))).is_ok());
    let added = |r| ReactionAction::Added(r);
    let removed = |r| ReactionAction::Removed(r);
    let next = EmoteAction::Next();
    assert!(matches!(
        MainMessage::run(&bots, &added(reaction(next, Some(1)))),
        ReactionNext::Ignore
    ));
    match MainMessage::run(&bots, &added(reaction(next, Some(7)))) {
        ReactionNext::Handle(Some((emote, user)), delete) => {
            assert_eq!(emote, next);
            assert_eq!(user, UserId(7));
            assert_eq!(delete.user, UserId(7));
            assert_eq!(delete.message, MessageId(300));
            assert!(delete.reaction.unicode_eq(next.unicode()));
        }
        _ => panic!("not handled"),
    }
    assert!(matches!(
        MainMessage::run(&bots, &added(reaction(EmoteAction::Number(11), Some(7)))),
        ReactionNext::Handle(None, _)
    ));
    assert!(matches!(
        MainMessage::run(&bots, &added(reaction(next, None))),
        ReactionNext::EmoteCheck
    ));
    assert!(matches!(
        MainMessage::run(&bots, &removed(reaction(next, Some(1)))),
        ReactionNext::Rebuild
    ));
    assert!(matches!(
        MainMessage::run(&bots, &removed(reaction(next, Some(7)))),
        ReactionNext::EmoteCheck
    ));
    assert!(matches!(
        MainMessage::run(&bots, &removed(reaction(next, None))),
        ReactionNext::EmoteCheck
    ));
}

#[test]
fn the_main_message_is_edited_when_it_changes() {
    let mut m = main_message();
    assert!(m.update("old").is_none());
    assert_eq!(m.update("new").unwrap(), "new");
    assert!(m.edited("new".to_string(), Ok(()), None));
    assert_eq!(m.content, "new");
    assert!(m.edited("newer".to_string(), Err("x".to_string()), Some(MessageId(300))));
    assert!(m.edited("newer".to_string(), Err("x".to_string()), None));
    assert!(!m.edited("newer".to_string(), Err("x".to_string()), Some(MessageId(301))));
    assert_eq!(m.content, "new");
}

#[test]
fn missing_emotes_are_put_up_again() {
    let m = main_message();
    let emotes = MainMessage::emotes();
    assert_eq!(emotes.len(), 7);
    let all: Vec<ReactionType> = emotes.iter().map(|e| e.reaction()).collect();
    assert!(!MainMessage::is_missing_emote(&all));
    assert!(matches!(m.emote_check(EmoteReply::Fetched(Ok(all.clone()))), EmoteNext::Done));
    let some: Vec<ReactionType> = all[1..].to_vec();
    assert!(matches!(m.emote_check(EmoteReply::Fetched(Ok(some))), EmoteNext::ClearAll));
    assert!(matches!(
        m.emote_check(EmoteReply::Fetched(Err("gone".to_string()))),
        EmoteNext::Done
    ));
    match m.emote_check(EmoteReply::Cleared(Ok(()))) {
        EmoteNext::Add(0, task) => assert!(task.reaction.unicode_eq("⏮")),
        _ => panic!("nothing added"),
    }
    assert!(matches!(m.emote_check(EmoteReply::Cleared(Err("x".to_string()))), EmoteNext::Done));
    assert!(matches!(m.emote_check(EmoteReply::Added(2, Ok(()))), EmoteNext::Add(3, _)));
    assert!(matches!(m.emote_check(EmoteReply::Added(6, Ok(()))), EmoteNext::Done));
    assert!(matches!(
        m.emote_check(EmoteReply::Added(2, Err("x".to_string()))),
        EmoteNext::Done
    ));
}

#[test]
fn rebuilding_begins_with_clearing() {
    let m = main_message();
    assert!(matches!(m.rebuild_emotes(None), EmoteNext::ClearAll));
    assert!(matches!(m.rebuild_emotes(Some(EmoteReply::Cleared(Ok(())))), EmoteNext::Add(0, _)));
    assert!(matches!(
        m.rebuild_emotes(Some(EmoteReply::Cleared(Err("x".to_string())))),
        EmoteNext::Done
    ));
    assert!(matches!(
        m.rebuild_emotes(Some(EmoteReply::Added(6, Ok(())))),
        EmoteNext::Done
    ));
}
