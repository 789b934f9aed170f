use reciprocity_bot::bots::Bot;
use reciprocity_bot::guild::player_manager::{PlayerMapError, PlayerRequest};
use reciprocity_bot::ids::{ChannelId, GuildId, UserId};
use reciprocity_bot::net::{
    gen_player_state, handle_control_req, parse_mode, parse_track, queue_found, receive_run,
    send_voice_state, AuthNext, AuthReply, ClientConnection, ClientRequest, ControlNext, Frame,
    NetPlayerState, NetUser, PlayMode, PlayerControl, PlayerWatch, ReceiveNext, VoiceWatchNext,
    WatchNext, WatchReply,
};
use reciprocity_bot::player::{PlayState, Playback, PlayerState};
use reciprocity_bot::track::{Info, Track, TrackQueue};
use std::time::Duration;

fn track(title: &str) -> Track {
    Track {
        track: "data".to_string(),
        info: Some(Info {
            is_seekable: true,
            is_stream: false,
            identifier: "id".to_string(),
            author: "author".to_string(),
            length: 65_000,
            position: 1_500,
            title: title.to_string(),
            uri: "uri".to_string(),
        }),
    }
}

fn unknown() -> Track {
    Track { track: "data".to_string(), info: None }
}

#[test]
fn modes_read_back() {
    for playback in vec![Playback::Normal, Playback::AllLoop, Playback::OneLoop] {
        assert_eq!(parse_mode(PlayMode::from(playback)), playback);
    }
    assert_eq!(PlayMode::from(Playback::AllLoop), PlayMode::LoopAll);
    assert_eq!(parse_mode(PlayMode::LoopOne), Playback::OneLoop);
}

#[test]
fn controls_become_requests() {
    let voice = Some((GuildId(3), ChannelId(5)));
    let control = |c| handle_control_req(voice, true, c);
    assert!(matches!(
        control(PlayerControl::Resume()),
        ControlNext::Request(PlayerRequest::PauseResume(ChannelId(5)))
    ));
    assert!(matches!(
        control(PlayerControl::Pause()),
        ControlNext::Request(PlayerRequest::PauseResume(ChannelId(5)))
    ));
    assert!(matches!(control(PlayerControl::Skip(2)), ControlNext::Skip(2, ChannelId(5))));
    assert!(matches!(control(PlayerControl::BackSkip(3)), ControlNext::BackSkip(3, ChannelId(5))));
    assert!(matches!(control(PlayerControl::SetTime(9)), ControlNext::Jump(9, ChannelId(5))));
    assert!(matches!(
        control(PlayerControl::PlayMode(PlayMode::LoopAll)),
        ControlNext::Request(PlayerRequest::Playback(Playback::AllLoop, ChannelId(5)))
    ));
    assert!(matches!(
        control(PlayerControl::Enqueue("u".to_string())),
        ControlNext::Search(u, ChannelId(5)) if u == "u"
    ));
    assert!(matches!(control(PlayerControl::Leave()), ControlNext::Leave(ChannelId(5))));
    assert!(matches!(control(PlayerControl::Join()), ControlNext::Join(ChannelId(5))));
    assert!(matches!(
        handle_control_req(None, true, PlayerControl::Join()),
        ControlNext::Ignore
    ));
    assert!(matches!(
        handle_control_req(voice, false, PlayerControl::Join()),
        ControlNext::Ignore
    ));
}

#[test]
fn the_first_track_found_is_queued() {
    let ch = ChannelId(5);
    let found = queue_found(Ok((UserId(1), vec![track("a"), track("b")])), ch);
    assert!(matches!(
        found,
        Ok(Some(PlayerRequest::Enqueue(t, ChannelId(5)))) if t.info.as_ref().unwrap().title == "a"
    ));
    assert!(matches!(queue_found(Ok((UserId(1), vec![])), ch), Ok(None)));
    assert!(matches!(
        queue_found(Err(PlayerMapError::NoFreeBot()), ch),
        Err(PlayerMapError::NoFreeBot())
    ));
}

fn player_state() -> PlayerState {
    PlayerState {
        bot: UserId(1),
        current: Some((Duration::from_secs(1), track("now"))),
        playlist: TrackQueue::from_tracks(&vec![track("next"), unknown(), track("last")]),
        history: TrackQueue::from_tracks(&vec![unknown(), track("before")]),
        play_state: PlayState::Pause,
        playback: Playback::OneLoop,
    }
}

fn seen() -> NetPlayerState {
    gen_player_state("Bot".to_string(), None, "default".to_string(), &player_state())
}

#[test]
fn companions_see_what_is_known_of_tracks() {
    assert!(parse_track(&unknown()).is_none());
    let t = parse_track(&track("a")).unwrap();
    assert_eq!((t.len, t.pos, t.title.as_str(), t.uri.as_str()), (65_000, 1_500, "a", "uri"));
    let s = seen();
    assert_eq!(s.name, "Bot");
    assert_eq!(s.avatar, "default");
    assert!(s.paused);
    assert_eq!(s.mode, PlayMode::LoopOne);
    assert_eq!(s.current.as_ref().unwrap().title, "now");
    let queue: Vec<&str> = s.queue.iter().map(|t| t.title.as_str()).collect();
    assert_eq!(queue, vec!["next", "last"]);
    let history: Vec<&str> = s.history.iter().map(|t| t.title.as_str()).collect();
    assert_eq!(history, vec!["before"]);
    let own = gen_player_state(
        "Bot".to_string(),
        Some("own".to_string()),
        "default".to_string(),
        &player_state(),
    );
    assert_eq!(own.avatar, "own");
    assert!(!own.same(&s));
    assert!(s.same(&seen()));
}

#[test]
fn a_player_is_sent_whole_and_then_in_patches() {
    let mut w = PlayerWatch::new();
    let mut step = |reply| w.player_state_sender_run(reply);
    assert!(matches!(step(WatchReply::Manager(false)), WatchNext::Stop));
    assert!(matches!(step(WatchReply::Manager(true)), WatchNext::FindPlayer));
    assert!(matches!(step(WatchReply::Player(None)), WatchNext::Sleep(5)));
    assert!(matches!(step(WatchReply::Slept), WatchNext::FindPlayer));
    assert!(matches!(
        step(WatchReply::Player(Some(UserId(1)))),
        WatchNext::FindBot(UserId(1))
    ));
    assert!(matches!(step(WatchReply::Bot(None)), WatchNext::FindPlayer));
    assert!(matches!(
        step(WatchReply::Bot(Some(Bot::new(UserId(1), 0)))),
        WatchNext::ReadFirst(_)
    ));
    assert!(matches!(step(WatchReply::First(None)), WatchNext::FindPlayer));
    assert!(matches!(step(WatchReply::First(Some(seen()))), WatchNext::SendFull));
    assert!(matches!(step(WatchReply::Changed(Some(seen()))), WatchNext::AwaitChange));
    let mut other = seen();
    other.paused = false;
    assert!(matches!(step(WatchReply::Changed(Some(other))), WatchNext::MakePatch(_)));
    assert!(matches!(step(WatchReply::Patch(true)), WatchNext::SendPatch));
    assert!(matches!(step(WatchReply::Patch(false)), WatchNext::AwaitChange));
    assert!(matches!(step(WatchReply::Changed(Some(seen()))), WatchNext::AwaitChange));
    assert!(matches!(step(WatchReply::Changed(None)), WatchNext::FindPlayer));
    assert!(w.sent().is_some());
}

#[test]
fn what_comes_in_is_answered() {
    assert!(matches!(receive_run(Frame::Failed), ReceiveNext::Stop));
    assert!(matches!(receive_run(Frame::Close), ReceiveNext::Stop));
    assert!(matches!(receive_run(Frame::Other), ReceiveNext::Continue));
    assert!(matches!(receive_run(Frame::Unreadable), ReceiveNext::TellUnreadable));
    assert!(matches!(receive_run(Frame::Message(None)), ReceiveNext::TellUnexpected));
    let ask = |r| receive_run(Frame::Message(Some(r)));
    assert!(matches!(
        ask(ClientRequest::Authenticate("code".to_string())),
        ReceiveNext::Authenticate(code) if code == "code"
    ));
    assert!(matches!(ask(ClientRequest::AuthStatus()), ReceiveNext::TellAuthStatus));
    assert!(matches!(
        ask(ClientRequest::Control(PlayerControl::Join())),
        ReceiveNext::Control(PlayerControl::Join())
    ));
    assert!(matches!(ask(ClientRequest::End()), ReceiveNext::Stop));
}

fn user() -> NetUser {
    NetUser { id: "7".to_string() }
}

#[test]
fn companions_are_let_in_for_a_user() {
    let mut c = ClientConnection::new();
    assert!(!c.auth_status());
    assert!(matches!(c.auth(AuthReply::Token(false)), AuthNext::TellError));
    assert!(matches!(c.auth(AuthReply::Token(true)), AuthNext::FindUser));
    assert!(matches!(c.auth(AuthReply::User(None)), AuthNext::TellError));
    assert!(!c.auth_status());
    assert!(matches!(c.auth(AuthReply::User(Some(user()))), AuthNext::LetIn(false)));
    assert!(c.auth_status());
    let here = Some((GuildId(3), ChannelId(5)));
    assert!(matches!(
        c.voice_checked(None, here),
        VoiceWatchNext::TellAndWatch(false, GuildId(3), ChannelId(5))
    ));
    assert_eq!(c.voice_state(), here);
    assert!(matches!(c.auth(AuthReply::User(Some(user()))), AuthNext::LetIn(true)));
    assert_eq!(c.voice_state(), None);
}

#[test]
fn users_are_watched_by_number() {
    let mut c = ClientConnection::new();
    assert_eq!(c.voice_state_sender_run("7"), Some((UserId(7), false)));
    assert_eq!(c.voice_state_sender_run("+7"), Some((UserId(7), false)));
    assert_eq!(c.voice_state_sender_run("007"), Some((UserId(7), false)));
    assert_eq!(
        c.voice_state_sender_run("18446744073709551615"),
        Some((UserId(u64::MAX), false))
    );
    assert_eq!(c.voice_state_sender_run("18446744073709551616"), None);
    assert_eq!(c.voice_state_sender_run(""), None);
    assert_eq!(c.voice_state_sender_run("+"), None);
    assert_eq!(c.voice_state_sender_run("-7"), None);
    assert_eq!(c.voice_state_sender_run("++7"), None);
    assert_eq!(c.voice_state_sender_run(" 7"), None);
    assert_eq!(c.voice_state_sender_run("7x"), None);
}

#[test]
fn watches_follow_the_user() {
    let mut c = ClientConnection::new();
    let here = Some((GuildId(3), ChannelId(5)));
    let there = Some((GuildId(3), ChannelId(6)));
    assert!(matches!(c.voice_checked(None, None), VoiceWatchNext::Wait));
    assert!(matches!(c.voice_checked(None, here), VoiceWatchNext::TellAndWatch(false, _, _)));
    assert!(matches!(c.voice_checked(here, here), VoiceWatchNext::Wait));
    assert!(matches!(
        c.voice_checked(here, there),
        VoiceWatchNext::TellAndWatch(true, GuildId(3), ChannelId(6))
    ));
    assert_eq!(c.voice_state_sender_run("7"), Some((UserId(7), true)));
    assert!(matches!(c.voice_checked(there, None), VoiceWatchNext::TellNone(false)));
    assert_eq!(c.voice_state(), None);
}

#[test]
fn companions_are_told_of_channels_that_are_seen() {
    assert!(matches!(send_voice_state(None, false, None), Some(None)));
    let here = Some((GuildId(3), ChannelId(5)));
    assert!(send_voice_state(here, false, Some("general".to_string())).is_none());
    assert!(send_voice_state(here, true, None).is_none());
    let told = send_voice_state(here, true, Some("general".to_string())).unwrap().unwrap();
    assert_eq!(told.channel_id, 5);
    assert_eq!(told.channel_name, "general");
}
