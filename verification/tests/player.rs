use reciprocity_bot::ids::{ChannelId, ClientId, GuildId, UserId};
use reciprocity_bot::lavalink_handler::PlayerUpdate;
use reciprocity_bot::player::{
    lavalink_reply, ConnectNext, ConnectReply, DisconnectNext, DisconnectReply, JoinError,
    LavalinkCommand, LavalinkError, PlayState, Playback, Player, PlayerError, PlayerState, Tracks,
};
use reciprocity_bot::track::{Info, Track, TrackQueue, MUSIC_QUEUE_LIMIT};
use std::time::Duration;

fn track(name: &str) -> Track {
    Track {
        track: name.to_string(),
        info: Some(Info {
            is_seekable: true,
            is_stream: false,
            identifier: "id".to_string(),
            author: "author".to_string(),
            length: 65_000,
            position: 0,
            title: name.to_string(),
            uri: "uri".to_string(),
        }),
    }
}

fn connect(reply: ConnectReply) -> ConnectNext {
    Player::new(UserId(1), ChannelId(2), GuildId(3), ClientId(4), reply)
}

fn player() -> Player {
    match connect(ConnectReply::SessionCreated(Ok(()))) {
        ConnectNext::Ready(player) => player,
        _ => panic!("no player"),
    }
}

fn names(state: &PlayerState) -> (Vec<String>, Vec<String>) {
    let playlist = state.playlist.to_vec();
    let history = state.history.to_vec();
    (
        playlist.iter().map(|t| t.track.clone()).collect(),
        history.iter().map(|t| t.track.clone()).collect(),
    )
}

#[test]
fn connecting_takes_gateway_and_session() {
    assert!(matches!(connect(ConnectReply::Joined(Ok(()))), ConnectNext::CreateSession));
    assert!(matches!(
        connect(ConnectReply::Joined(Err(JoinError("no".to_string())))),
        ConnectNext::Failed(PlayerError::SongbirdJoin(_))
    ));
    assert!(matches!(
        connect(ConnectReply::SessionCreated(Err(LavalinkError::ConnectionClosed))),
        ConnectNext::Failed(PlayerError::Lavalink(LavalinkError::ConnectionClosed))
    ));
    let p = player();
    assert_eq!(p.get_bot(), UserId(1));
    assert_eq!(p.get_channel(), ChannelId(2));
    assert_eq!(p.get_guild(), GuildId(3));
    assert_eq!(p.get_lavalink(), ClientId(4));
    let state = p.get_state();
    assert!(state.current.is_none());
    assert!(state.playlist.is_empty());
    assert!(state.history.is_empty());
    assert_eq!(state.play_state, PlayState::Play);
    assert_eq!(state.playback, Playback::Normal);
}

#[test]
fn pause_and_resume_follow_the_reply() {
    let mut p = player();
    assert!(matches!(p.toggle_command(), LavalinkCommand::Pause));
    let state = p.dynamic_pause_resume(Ok(())).unwrap();
    assert_eq!(state.play_state, PlayState::Pause);
    assert!(matches!(p.toggle_command(), LavalinkCommand::Resume));
    let err = p.dynamic_pause_resume(Err(LavalinkError::Request("down".to_string())));
    assert!(matches!(err, Err(PlayerError::Lavalink(LavalinkError::Request(_)))));
    assert_eq!(p.get_state().play_state, PlayState::Pause);
    let state = p.dynamic_pause_resume(Ok(())).unwrap();
    assert_eq!(state.play_state, PlayState::Play);
    assert_eq!(p.pause(Ok(())).unwrap().play_state, PlayState::Pause);
    assert_eq!(p.resume(Ok(())).unwrap().play_state, PlayState::Play);
    assert!(p.pause(Err(LavalinkError::ConnectionClosed)).is_err());
    assert!(p.resume(Err(LavalinkError::ConnectionClosed)).is_err());
}

#[test]
fn enqueue_starts_at_once_and_keeps_nothing_current() {
    let mut p = player();
    let next = p.enqueue(track("a")).unwrap();
    match next {
        Some((told, LavalinkCommand::Play(t))) => {
            assert!(told);
            assert_eq!(t.track, "a");
        }
        _ => panic!("nothing to play"),
    }
    let state = p.enqueued(Ok(())).unwrap();
    assert!(state.current.is_none());
    assert!(state.playlist.is_empty());
    assert!(matches!(
        p.enqueued(Err(LavalinkError::ConnectionClosed)),
        Err(PlayerError::Lavalink(_))
    ));
}

#[test]
fn a_finished_track_without_followers_stops() {
    let mut p = player();
    let (told, command) = p.track_end();
    assert!(!told);
    assert!(matches!(command, LavalinkCommand::Stop));
    p.track_start();
    assert!(p.get_state().current.is_none());
}

#[test]
fn skips_always_ask_lavalink_to_stop() {
    let mut p = player();
    let (state, command) = p.skip();
    assert!(state.is_none());
    assert!(matches!(command, LavalinkCommand::Stop));
    let (state, command) = p.back_skip();
    assert!(state.is_none());
    assert!(matches!(command, LavalinkCommand::Stop));
    assert!(Player::stopped(None, Ok(())).unwrap().is_none());
    assert!(matches!(
        Player::stopped(None, Err(LavalinkError::Websocket("w".to_string()))),
        Err(PlayerError::Lavalink(LavalinkError::Websocket(_)))
    ));
}

#[test]
fn clear_queue_of_an_empty_playlist_tells_nobody() {
    let mut p = player();
    assert!(p.clear_queue().is_none());
    assert_eq!(names(&p.get_state()), (vec![], vec![]));
}

#[test]
fn asking_twice_for_a_mode_turns_it_off_again() {
    let mut p = player();
    assert_eq!(p.playback(Playback::OneLoop).playback, Playback::OneLoop);
    assert_eq!(p.playback(Playback::OneLoop).playback, Playback::Normal);
    assert_eq!(p.playback(Playback::AllLoop).playback, Playback::AllLoop);
    assert_eq!(p.playback(Playback::OneLoop).playback, Playback::OneLoop);
    assert_eq!(p.playback(Playback::Normal).playback, Playback::Normal);
    assert_eq!(p.playback(Playback::Normal).playback, Playback::Normal);
}

#[test]
fn disconnecting_needs_a_call() {
    assert!(matches!(
        Player::disconnect(DisconnectReply::Call(false)),
        DisconnectNext::Done(Err(PlayerError::NotInAVoiceChannel()))
    ));
    assert!(matches!(Player::disconnect(DisconnectReply::Call(true)), DisconnectNext::RemoveCall));
    assert!(matches!(
        Player::disconnect(DisconnectReply::Removed(Err(JoinError("x".to_string())))),
        DisconnectNext::Done(Err(PlayerError::SongbirdLeave(_)))
    ));
    assert!(matches!(
        Player::disconnect(DisconnectReply::Removed(Ok(()))),
        DisconnectNext::DestroyPlayer
    ));
    assert!(matches!(
        Player::disconnect(DisconnectReply::Destroyed(Ok(()))),
        DisconnectNext::Done(Ok(()))
    ));
    assert!(matches!(
        Player::disconnect(DisconnectReply::Destroyed(Err(LavalinkError::ConnectionClosed))),
        DisconnectNext::Done(Err(PlayerError::Lavalink(_)))
    ));
}

#[test]
fn a_search_that_failed_to_load_is_an_error() {
    let failed = Player::search(Ok(Tracks { load_type: "LOAD_FAILED".to_string(), tracks: vec![] }));
    assert!(matches!(failed, Err(PlayerError::SearchFailed(s)) if s == "LOAD_FAILED"));
    let found = Player::search(Ok(Tracks {
        load_type: "SEARCH_RESULT".to_string(),
        tracks: vec![track("a"), track("b")],
    }));
    assert_eq!(found.unwrap().len(), 2);
    assert!(matches!(
        Player::search(Err(LavalinkError::InvalidHeaderValue("h".to_string()))),
        Err(PlayerError::Lavalink(LavalinkError::InvalidHeaderValue(_)))
    ));
}

#[test]
fn a_report_without_a_current_track_changes_nothing() {
    let mut p = player();
    let update = PlayerUpdate { guild_id: GuildId(3), position: 5_000, time: 100 };
    assert!(!p.update(update, 107));
    assert!(p.get_state().current.is_none());
}

#[test]
fn errors_know_whose_they_are() {
    let closed = PlayerError::Lavalink(LavalinkError::ConnectionClosed);
    assert!(closed.is_lavalink_error());
    assert!(closed.is_fatal());
    let other = PlayerError::Lavalink(LavalinkError::Websocket("reset".to_string()));
    assert!(other.is_lavalink_error());
    assert!(!other.is_fatal());
    let full = PlayerError::PlaylistFull(track("x"));
    assert!(!full.is_lavalink_error());
    assert!(!full.is_fatal());
    assert!(lavalink_reply(Ok(())).is_ok());
    assert!(lavalink_reply(Err(LavalinkError::ConnectionClosed)).unwrap_err().is_fatal());
}

fn tracks(list: &[&str]) -> TrackQueue {
    let list: Vec<Track> = list.iter().map(|n| track(n)).collect();
    TrackQueue::from_tracks(&list)
}

fn numbered(n: usize) -> TrackQueue {
    let list: Vec<Track> = (0..n).map(|i| track(&i.to_string())).collect();
    TrackQueue::from_tracks(&list)
}

fn player_with(
    current: Option<&str>,
    playlist: TrackQueue,
    history: TrackQueue,
    playback: Playback,
) -> Player {
    let state = PlayerState {
        bot: UserId(1),
        current: current.map(|n| (Duration::from_secs(3), track(n))),
        playlist,
        history,
        play_state: PlayState::Pause,
        playback,
    };
    Player::with_state(ChannelId(2), GuildId(3), ClientId(4), state)
}

fn played(command: LavalinkCommand) -> String {
    match command {
        LavalinkCommand::Play(t) => t.track,
        _ => panic!("nothing played"),
    }
}

#[test]
fn queues_hold_a_hundred_tracks() {
    let q = numbered(MUSIC_QUEUE_LIMIT + 5);
    assert!(q.is_full());
    assert!(!q.is_empty());
    let v = q.to_vec();
    assert_eq!(v.len(), 100);
    assert_eq!(v[0].track, "0");
    assert_eq!(v[99].track, "99");
    assert!(!tracks(&["a"]).is_full());
    assert!(tracks(&[]).is_empty());
}

#[test]
fn normal_playback_moves_the_track_to_the_history() {
    let mut p = player_with(Some("c"), tracks(&["n", "m"]), tracks(&["h"]), Playback::Normal);
    let (told, command) = p.play_next();
    assert!(told);
    assert_eq!(played(command), "n");
    let state = p.get_state();
    assert!(state.current.is_none());
    assert_eq!(state.play_state, PlayState::Play);
    assert_eq!(names(&state), (vec!["m".to_string()], vec!["c".to_string(), "h".to_string()]));
}

#[test]
fn looping_all_moves_the_track_to_the_end_of_the_playlist() {
    let mut p = player_with(Some("c"), tracks(&["n"]), tracks(&[]), Playback::AllLoop);
    let (told, command) = p.play_next();
    assert!(told);
    assert_eq!(played(command), "n");
    assert_eq!(names(&p.get_state()), (vec!["c".to_string()], vec![]));
    let mut alone = player_with(Some("c"), tracks(&[]), tracks(&[]), Playback::AllLoop);
    let (_, command) = alone.track_end();
    assert_eq!(played(command), "c");
    let mut full = player_with(Some("c"), numbered(100), tracks(&[]), Playback::AllLoop);
    let (_, command) = full.play_next();
    assert_eq!(played(command), "0");
    let playlist = names(&full.get_state()).0;
    assert_eq!(playlist.len(), 99);
    assert_eq!(playlist[97], "98");
    assert_eq!(playlist[98], "c");
}

#[test]
fn looping_one_plays_the_track_again() {
    let mut p = player_with(Some("c"), tracks(&["n"]), tracks(&[]), Playback::OneLoop);
    let (told, command) = p.play_next();
    assert!(!told);
    assert_eq!(played(command), "c");
    assert_eq!(p.get_state().play_state, PlayState::Pause);
    assert_eq!(names(&p.get_state()), (vec!["n".to_string()], vec![]));
}

#[test]
fn skipping_a_repeating_track_moves_it_to_the_history() {
    let mut p = player_with(Some("c"), tracks(&["n"]), numbered(100), Playback::OneLoop);
    let (state, command) = p.skip();
    assert!(matches!(command, LavalinkCommand::Stop));
    let state = state.unwrap();
    assert!(state.current.is_none());
    let history = names(&state).1;
    assert_eq!(history.len(), 100);
    assert_eq!(history[0], "c");
    assert_eq!(history[1], "0");
    assert_eq!(history[99], "98");
    let mut other = player_with(Some("c"), tracks(&[]), tracks(&[]), Playback::AllLoop);
    assert!(other.skip().0.is_none());
    assert!(other.get_state().current.is_some());
}

#[test]
fn skipping_back_takes_the_oldest_of_the_history() {
    let mut p = player_with(Some("c"), tracks(&["n"]), tracks(&["late", "early"]), Playback::Normal);
    let (state, _) = p.back_skip();
    let state = state.unwrap();
    assert!(state.current.is_none());
    assert_eq!(
        names(&state),
        (
            vec!["early".to_string(), "c".to_string(), "n".to_string()],
            vec!["late".to_string()]
        )
    );
    let mut full = player_with(Some("c"), numbered(100), tracks(&["h"]), Playback::Normal);
    let playlist = names(&full.back_skip().0.unwrap()).0;
    assert_eq!(playlist.len(), 100);
    assert_eq!(playlist[0], "h");
    assert_eq!(playlist[1], "c");
    assert_eq!(playlist[99], "97");
}

#[test]
fn queueing_behind_a_current_track() {
    let mut p = player_with(Some("c"), tracks(&["n"]), tracks(&[]), Playback::Normal);
    assert!(p.enqueue(track("m")).unwrap().is_none());
    assert_eq!(names(&p.get_state()).0, vec!["n".to_string(), "m".to_string()]);
    let mut full = player_with(None, numbered(100), tracks(&[]), Playback::Normal);
    assert!(matches!(
        full.enqueue(track("m")),
        Err(PlayerError::PlaylistFull(t)) if t.track == "m"
    ));
    assert_eq!(names(&full.get_state()).0.len(), 100);
}

#[test]
fn clearing_the_queue_keeps_the_rest() {
    let mut p = player_with(Some("c"), tracks(&["n", "m"]), tracks(&["h"]), Playback::Normal);
    let state = p.clear_queue().unwrap();
    assert!(state.current.is_some());
    assert_eq!(names(&state), (vec![], vec!["h".to_string()]));
    assert!(p.clear_queue().is_none());
}

#[test]
fn reports_move_the_position_by_whole_seconds() {
    let mut p = player_with(Some("c"), tracks(&[]), tracks(&[]), Playback::Normal);
    let same = PlayerUpdate { guild_id: GuildId(3), position: 3_400, time: 100 };
    assert!(!p.update(same, 100));
    assert_eq!(p.get_state().current.unwrap().0, Duration::from_secs(3));
    let later = PlayerUpdate { guild_id: GuildId(3), position: 5_250, time: 100 };
    assert!(p.update(later, 107));
    assert_eq!(p.get_state().current.unwrap().0, Duration::from_millis(12_250));
}
