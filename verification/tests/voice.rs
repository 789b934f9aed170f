use reciprocity_bot::config::{Config, GuildConfig, LavalinkConfig};
use reciprocity_bot::ids::{ChannelId, ClientId, GuildId, UserId};
use reciprocity_bot::lavalink_handler::{LavalinkEvent, PlayerUpdate, TrackFinish, TrackStart};
use reciprocity_bot::lavalink_supervisor::LavalinkSupervisor;
use reciprocity_bot::player::{
    LavalinkCommand, LavalinkError, PlayState, Playback, Player, PlayerError, PlayerState, Tracks,
};
use reciprocity_bot::player_manager::{
    EventNext, PlayerManager, PlayerMapError, PlayerRequest, RequestNext,
};
use reciprocity_bot::track::{Track, TrackQueue};
use reciprocity_bot::voice_handler::{
    build_lavalink_client, BotNext, BotVoice, GuildEnd, GuildNext, GuildReply, GuildVoice, SortNext,
    SortReply, Target, VoiceHandler, VoiceHandlerError, VoiceTask,
};
use std::time::Duration;

fn track(name: &str) -> Track {
    Track { track: name.to_string(), info: None }
}

fn player_in(channel: u64, playlist: &[&str]) -> Player {
    let list: Vec<Track> = playlist.iter().map(|n| track(n)).collect();
    let state = PlayerState {
        bot: UserId(1),
        current: Some((Duration::from_secs(0), track("now"))),
        playlist: TrackQueue::from_tracks(&list),
        history: TrackQueue::from_tracks(&vec![track("before")]),
        play_state: PlayState::Play,
        playback: Playback::Normal,
    };
    Player::with_state(ChannelId(channel), GuildId(3), ClientId(40), state)
}

fn config() -> Config {
    let guild = |id| GuildConfig { guild_id: id, channel_id: 0 };
    Config {
        bots: vec![],
        guilds: vec![("a".to_string(), guild(3)), ("b".to_string(), guild(4))],
        lavalink: LavalinkConfig { address: "a".to_string(), password: "p".to_string() },
        net: None,
    }
}

#[test]
fn voice_tasks_know_guild_and_target() {
    let (g, b) = (GuildId(3), UserId(1));
    let connect = VoiceTask::Connect(g, ChannelId(5));
    assert_eq!(connect.identifier(), Target::Channel(ChannelId(5)));
    assert_eq!(connect.guild(), g);
    for task in vec![
        VoiceTask::Disconnect(g, b),
        VoiceTask::Next(g, b),
        VoiceTask::Previous(g, b),
        VoiceTask::PausePlay(g, b),
        VoiceTask::Clear(g, b),
        VoiceTask::RepeatOne(g, b),
        VoiceTask::RepeatAll(g, b),
        VoiceTask::Search(g, b, "q".to_string()),
    ] {
        assert_eq!(task.identifier(), Target::Bot(b));
        assert_eq!(task.guild(), g);
    }
}

#[test]
fn voice_tasks_are_sorted_to_bots() {
    let mut h = VoiceHandler::new(&vec![UserId(1), UserId(2)], &config());
    let sort = |h: &VoiceHandler, task| h.sort_task_async(SortReply::Received(Some(task)));
    assert!(matches!(
        sort(&h, VoiceTask::Connect(GuildId(4), ChannelId(5))),
        SortNext::Receive
    ));
    h.set_free(3, true);
    assert!(matches!(
        sort(&h, VoiceTask::Connect(GuildId(4), ChannelId(5))),
        SortNext::Post(3, VoiceTask::Connect(GuildId(4), ChannelId(5)))
    ));
    h.set_free(1, true);
    assert!(matches!(
        sort(&h, VoiceTask::Connect(GuildId(4), ChannelId(5))),
        SortNext::Post(1, _)
    ));
    assert!(matches!(
        sort(&h, VoiceTask::Connect(GuildId(3), ChannelId(5))),
        SortNext::Receive
    ));
    assert!(matches!(sort(&h, VoiceTask::Next(GuildId(3), UserId(2))), SortNext::Post(2, _)));
    assert!(matches!(
        sort(&h, VoiceTask::Next(GuildId(3), UserId(9))),
        SortNext::End(VoiceHandlerError::BotDoesNotExist(UserId(9)))
    ));
    assert!(matches!(
        h.sort_task_async(SortReply::Received(None)),
        SortNext::End(VoiceHandlerError::ReceiveError())
    ));
    assert!(matches!(
        h.sort_task_async(SortReply::Posted(UserId(1), true)),
        SortNext::Receive
    ));
    assert!(matches!(
        h.sort_task_async(SortReply::Posted(UserId(1), false)),
        SortNext::End(VoiceHandlerError::SendError(UserId(1)))
    ));
}

#[test]
fn a_guild_that_is_named_twice_has_one_postbox() {
    let mut twice = config();
    let again = GuildConfig { guild_id: 3, channel_id: 9 };
    twice.guilds.push(("c".to_string(), again));
    let h = VoiceHandler::new(&vec![UserId(1), UserId(2)], &twice);
    let boxes: Vec<(UserId, GuildId, bool)> =
        h.postboxes().iter().map(|b| (b.bot, b.guild, b.free)).collect();
    assert_eq!(
        boxes,
        vec![
            (UserId(1), GuildId(3), false),
            (UserId(1), GuildId(4), false),
            (UserId(2), GuildId(3), false),
            (UserId(2), GuildId(4), false),
        ]
    );
}

#[test]
fn a_dead_client_is_rebuilt_once() {
    let mut v = BotVoice::new(ClientId(40));
    assert_eq!(
        v.bot_run_async(GuildEnd::DeadLavalink(GuildId(3), ClientId(40))),
        BotNext::Rebuild(GuildId(3))
    );
    assert_eq!(
        v.rebuilt(GuildId(3), ClientId(41)),
        BotNext::Restart(GuildId(3), ClientId(41))
    );
    assert_eq!(
        v.bot_run_async(GuildEnd::DeadLavalink(GuildId(4), ClientId(40))),
        BotNext::Restart(GuildId(4), ClientId(41))
    );
    assert_eq!(
        v.bot_run_async(GuildEnd::Broken(VoiceHandlerError::ReceiveError())),
        BotNext::End(VoiceHandlerError::ReceiveError())
    );
    assert!(BotVoice::can_join(false, true));
    assert!(!BotVoice::can_join(false, false));
    assert_eq!(build_lavalink_client(Some(ClientId(1))), Ok(ClientId(1)));
    assert_eq!(build_lavalink_client(None), Err(5));
}

#[test]
fn a_bot_joins_and_leaves_a_guild() {
    let mut v = GuildVoice::new(ClientId(40), true);
    let task = |t| GuildReply::Task(Some(t));
    let (g, b) = (GuildId(3), UserId(1));
    assert!(matches!(
        v.bot_guild_run_async(task(VoiceTask::Connect(g, ChannelId(5)))),
        GuildNext::Connect(GuildId(3), ChannelId(5))
    ));
    assert!(matches!(
        v.bot_guild_run_async(GuildReply::Connected(g, Ok(player_in(5, &[])))),
        GuildNext::Await
    ));
    assert!(!v.is_free());
    assert!(matches!(
        v.bot_guild_run_async(task(VoiceTask::Connect(g, ChannelId(6)))),
        GuildNext::Await
    ));
    assert!(matches!(
        v.bot_guild_run_async(task(VoiceTask::Disconnect(g, b))),
        GuildNext::Disconnect(GuildId(3), p) if p.get_channel() == ChannelId(5)
    ));
    assert!(matches!(
        v.bot_guild_run_async(GuildReply::Disconnected(g, Err(PlayerError::NotInAVoiceChannel()))),
        GuildNext::Await
    ));
    assert!(v.is_free());
    let mut idle = GuildVoice::new(ClientId(40), false);
    assert!(matches!(
        idle.bot_guild_run_async(task(VoiceTask::Disconnect(g, b))),
        GuildNext::Await
    ));
    assert!(idle.is_free());
}

#[test]
fn lavalink_failures_end_the_voice() {
    let mut v = GuildVoice::new(ClientId(40), true);
    let g = GuildId(3);
    let dead = || PlayerError::Lavalink(LavalinkError::Websocket("w".to_string()));
    assert!(matches!(
        v.bot_guild_run_async(GuildReply::Connected(g, Err(dead()))),
        GuildNext::End(GuildEnd::DeadLavalink(GuildId(3), ClientId(40)))
    ));
    assert!(matches!(
        v.bot_guild_run_async(GuildReply::Connected(g, Err(PlayerError::NotInAVoiceChannel()))),
        GuildNext::Await
    ));
    assert!(matches!(
        v.bot_guild_run_async(GuildReply::Disconnected(g, Err(dead()))),
        GuildNext::End(GuildEnd::DeadLavalink(_, _))
    ));
    assert!(matches!(
        v.bot_guild_run_async(GuildReply::Toggled(g, Err(LavalinkError::ConnectionClosed))),
        GuildNext::End(GuildEnd::DeadLavalink(_, _))
    ));
    assert!(matches!(
        v.bot_guild_run_async(GuildReply::Task(None)),
        GuildNext::End(GuildEnd::Broken(VoiceHandlerError::ReceiveError()))
    ));
    assert!(matches!(
        v.bot_guild_run_async(GuildReply::Event(None)),
        GuildNext::End(GuildEnd::Broken(VoiceHandlerError::ReceiveError()))
    ));
}

#[test]
fn tasks_reach_the_player_of_a_voice() {
    let (g, b) = (GuildId(3), UserId(1));
    let mut v = GuildVoice::new(ClientId(40), true);
    for task in vec![
        VoiceTask::Next(g, b),
        VoiceTask::PausePlay(g, b),
        VoiceTask::Search(g, b, "q".to_string()),
    ] {
        assert!(matches!(v.bot_guild_run_async(GuildReply::Task(Some(task))), GuildNext::Await));
    }
    let connected = GuildReply::Connected(g, Ok(player_in(5, &["next"])));
    assert!(matches!(v.bot_guild_run_async(connected), GuildNext::Await));
    let mut task = |t| v.bot_guild_run_async(GuildReply::Task(Some(t)));
    assert!(matches!(task(VoiceTask::Next(g, b)), GuildNext::Ask(LavalinkCommand::Stop)));
    assert!(matches!(
        task(VoiceTask::PausePlay(g, b)),
        GuildNext::Toggle(GuildId(3), LavalinkCommand::Pause)
    ));
    assert!(matches!(
        task(VoiceTask::Search(g, b, "q".to_string())),
        GuildNext::Search(q) if q == "q"
    ));
    assert!(matches!(task(VoiceTask::RepeatOne(g, b)), GuildNext::Await));
    assert!(matches!(task(VoiceTask::RepeatAll(g, b)), GuildNext::Await));
    assert!(matches!(task(VoiceTask::Previous(g, b)), GuildNext::Ask(LavalinkCommand::Stop)));
    assert!(matches!(v.bot_guild_run_async(GuildReply::Toggled(g, Ok(()))), GuildNext::Await));
    assert!(matches!(
        v.bot_guild_run_async(GuildReply::Task(Some(VoiceTask::PausePlay(g, b)))),
        GuildNext::Toggle(_, LavalinkCommand::Resume)
    ));
    assert!(matches!(v.bot_guild_run_async(GuildReply::Asked), GuildNext::Await));
    let finish = |at| {
        let end = TrackFinish { guild_id: g, track: "t".to_string(), reason: "r".to_string() };
        GuildReply::Event(Some((LavalinkEvent::Finish(end), at)))
    };
    assert!(matches!(
        v.bot_guild_run_async(finish(0)),
        GuildNext::Ask(LavalinkCommand::Play(t)) if t.track == "before"
    ));
    assert!(matches!(
        v.bot_guild_run_async(GuildReply::Task(Some(VoiceTask::Clear(g, b)))),
        GuildNext::Await
    ));
    assert!(matches!(
        v.bot_guild_run_async(finish(0)),
        GuildNext::Ask(LavalinkCommand::Stop)
    ));
    let start = TrackStart { guild_id: g, track: "t".to_string() };
    let start = GuildReply::Event(Some((LavalinkEvent::Start(start), 0)));
    assert!(matches!(v.bot_guild_run_async(start), GuildNext::Await));
}

fn manager() -> PlayerManager {
    let mut m = PlayerManager::new(GuildId(3), &vec![UserId(1), UserId(2)]);
    assert!(m.joined(1, Ok(player_in(5, &["next"]))).is_ok());
    m
}

#[test]
fn players_are_found_by_looking() {
    let m = manager();
    assert!(m.has_player(ChannelId(5)));
    assert!(!m.has_player(ChannelId(6)));
    assert_eq!(m.get_player_channel(ChannelId(5)), Some(1));
    assert_eq!(m.get_player_lavalink(ClientId(40)), Some(1));
    assert_eq!(m.get_player_lavalink(ClientId(41)), None);
    assert!(matches!(m.search(ChannelId(5)), Ok((1, ClientId(40)))));
    assert!(matches!(
        m.search(ChannelId(6)),
        Err(PlayerMapError::NoPlayerFound(ChannelId(6)))
    ));
}

#[test]
fn requests_reach_the_player_in_the_channel() {
    let mut m = manager();
    let ch = ChannelId(5);
    assert!(matches!(m.request(PlayerRequest::Join(ch)), RequestNext::Join(ChannelId(5))));
    assert!(matches!(m.request(PlayerRequest::Skip(ChannelId(6))), RequestNext::Done));
    assert!(matches!(
        m.request(PlayerRequest::Skip(ch)),
        RequestNext::Ask(1, LavalinkCommand::Stop, false)
    ));
    assert!(matches!(
        m.request(PlayerRequest::PauseResume(ch)),
        RequestNext::Ask(1, LavalinkCommand::Pause, true)
    ));
    assert!(m.answer(1, true, Ok(())).is_ok());
    assert!(matches!(
        m.request(PlayerRequest::PauseResume(ch)),
        RequestNext::Ask(1, LavalinkCommand::Resume, true)
    ));
    assert!(matches!(
        m.answer(1, true, Err(LavalinkError::ConnectionClosed)),
        Err(PlayerMapError::PlayerError(PlayerError::Lavalink(_)))
    ));
    assert!(m.answer(1, false, Err(LavalinkError::ConnectionClosed)).is_ok());
    assert!(matches!(
        m.request(PlayerRequest::BackSkip(ch)),
        RequestNext::Ask(1, LavalinkCommand::Stop, false)
    ));
    assert!(matches!(
        m.request(PlayerRequest::Playback(Playback::OneLoop, ch)),
        RequestNext::Done
    ));
    assert!(matches!(m.request(PlayerRequest::ClearQueue(ch)), RequestNext::Done));
    assert!(matches!(
        m.request(PlayerRequest::Leave(ch)),
        RequestNext::Disconnect(p) if p.get_channel() == ch
    ));
    assert!(!m.has_player(ch));
    assert!(PlayerManager::left(Ok(())).is_ok());
    assert!(matches!(
        PlayerManager::left(Err(PlayerError::NotInAVoiceChannel())),
        Err(PlayerMapError::PlayerError(PlayerError::NotInAVoiceChannel()))
    ));
    assert_eq!(PlayerRequest::Leave(ch).get_channel(), ch);
}

#[test]
fn a_free_bot_with_a_client_joins() {
    let m = manager();
    let mut order: Vec<u64> = m.join_order().iter().map(|b| b.0).collect();
    order.sort();
    assert_eq!(order, vec![1, 2]);
    let supervisor = LavalinkSupervisor::new(vec![
        (UserId(1), Some(ClientId(50))),
        (UserId(2), Some(ClientId(51))),
    ]);
    let order = vec![UserId(2), UserId(1)];
    assert!(matches!(
        m.join_free_bot(&order, &vec![true, true], &supervisor),
        Ok((UserId(1), ClientId(50)))
    ));
    assert!(matches!(
        m.join_free_bot(&order, &vec![true, false], &supervisor),
        Err(PlayerMapError::NoFreeBot())
    ));
    let bare = LavalinkSupervisor::new(vec![]);
    assert!(matches!(
        m.join_free_bot(&order, &vec![true, true], &bare),
        Err(PlayerMapError::NoFreeBot())
    ));
    let mut m = m;
    assert!(matches!(
        m.joined(0, Err(PlayerError::NotInAVoiceChannel())),
        Err(PlayerMapError::PlayerError(_))
    ));
}

#[test]
fn lavalink_errors_cost_the_player() {
    let mut m = manager();
    let other = PlayerError::NotInAVoiceChannel();
    assert!(matches!(m.handle_error(&other, 1), EventNext::Done));
    let dead = PlayerError::Lavalink(LavalinkError::Request("x".to_string()));
    assert!(matches!(m.handle_error(&dead, 1), EventNext::Disconnect(_)));
    assert!(matches!(m.handle_error(&dead, 1), EventNext::Renew(UserId(2))));
    assert!(matches!(PlayerManager::disconnected(UserId(2), true), EventNext::Done));
    assert!(matches!(
        PlayerManager::disconnected(UserId(2), false),
        EventNext::Renew(UserId(2))
    ));
}

#[test]
fn reports_reach_the_player_of_the_client() {
    let mut m = manager();
    let finish = || {
        LavalinkEvent::Finish(TrackFinish {
            guild_id: GuildId(3),
            track: "t".to_string(),
            reason: "r".to_string(),
        })
    };
    assert!(matches!(m.run(finish(), ClientId(41), 0), EventNext::Done));
    assert!(matches!(
        m.run(finish(), ClientId(40), 0),
        EventNext::Ask(1, LavalinkCommand::Play(t)) if t.track == "next"
    ));
    assert!(matches!(m.run(finish(), ClientId(40), 0), EventNext::Ask(1, LavalinkCommand::Stop)));
    let update = PlayerUpdate { guild_id: GuildId(3), position: 1_000, time: 5 };
    assert!(matches!(m.run(LavalinkEvent::Update(update), ClientId(40), 6), EventNext::Done));
    let start = TrackStart { guild_id: GuildId(3), track: "t".to_string() };
    assert!(matches!(m.run(LavalinkEvent::Start(start), ClientId(40), 6), EventNext::Done));
}

#[test]
fn searches_of_a_found_player_bring_tracks() {
    let found = Tracks { load_type: "TRACK_LOADED".to_string(), tracks: vec![track("t")] };
    assert_eq!(PlayerManager::searched(Some(Ok(found))).unwrap().len(), 1);
    assert!(matches!(
        PlayerManager::searched(None),
        Err(PlayerMapError::SearchSenderDropped())
    ));
    let failed = Tracks { load_type: "LOAD_FAILED".to_string(), tracks: vec![] };
    assert!(matches!(
        PlayerManager::searched(Some(Ok(failed))),
        Err(PlayerMapError::PlayerError(PlayerError::SearchFailed(_)))
    ));
}
