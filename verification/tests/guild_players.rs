use reciprocity_bot::bots::{Bot, BotMap};
use reciprocity_bot::guild::player_manager::{
    Call, JoinNext, JoinReply, PlayerManager, PlayerMapError, PlayerRequest, RequestNext,
};
use reciprocity_bot::ids::{ChannelId, ClientId, GuildId, UserId};
use reciprocity_bot::lavalink_handler::{LavalinkEvent, PlayerUpdate, TrackFinish};
use reciprocity_bot::lavalink_supervisor::LavalinkSupervisor;
use reciprocity_bot::player::{
    LavalinkCommand, LavalinkError, PlayState, Playback, Player, PlayerError, PlayerState, Tracks,
};
use reciprocity_bot::track::Track;

fn bots() -> BotMap {
    let mut bots = BotMap::new();
    assert!(bots.add_bot(Ok(Bot::new(UserId(1), 0))).is_ok());
    assert!(bots.add_bot(Ok(Bot::new(UserId(2), 1))).is_ok());
    bots
}

fn player(bot: u64) -> Player {
    Player::with_state(
        ChannelId(5),
        GuildId(3),
        ClientId(40 + bot),
        PlayerState::new(UserId(bot)),
    )
}

fn track(name: &str) -> Track {
    Track { track: name.to_string(), info: None }
}

#[test]
fn requests_know_their_channel() {
    let ch = ChannelId(5);
    assert_eq!(PlayerRequest::Skip(ch).get_channel(), ch);
    assert_eq!(PlayerRequest::BackSkip(ch).get_channel(), ch);
    assert_eq!(PlayerRequest::ClearQueue(ch).get_channel(), ch);
    assert_eq!(PlayerRequest::Playback(Playback::OneLoop, ch).get_channel(), ch);
    assert_eq!(PlayerRequest::PauseResume(ch).get_channel(), ch);
    assert_eq!(PlayerRequest::Enqueue(track("t"), ch).get_channel(), ch);
}

#[test]
fn only_a_closed_connection_is_fatal() {
    let closed = PlayerMapError::PlayerError(PlayerError::Lavalink(LavalinkError::ConnectionClosed));
    assert!(closed.is_fatal());
    assert!(!PlayerMapError::PlayerError(PlayerError::NotInAVoiceChannel()).is_fatal());
    assert!(!PlayerMapError::NoFreeBot().is_fatal());
}

#[test]
fn a_player_that_joined_is_watched_but_not_found() {
    let bots = bots();
    let mut m = PlayerManager::new(GuildId(3), &bots);
    assert!(m.player_added(UserId(1), ClientId(41), Ok(player(1))).is_ok());
    assert_eq!(m.get_all_player_states().len(), 1);
    assert_eq!(m.get_all_player_states()[0].bot, UserId(1));
    assert!(!m.bot_in_channel(&ChannelId(5)));
    for request in vec![
        PlayerRequest::Skip(ChannelId(5)),
        PlayerRequest::Enqueue(track("t"), ChannelId(5)),
        PlayerRequest::PauseResume(ChannelId(5)),
    ] {
        match m.request(request) {
            RequestNext::Done(Err(failure)) => {
                assert!(matches!(failure.error, PlayerMapError::NoPlayerFound(ChannelId(5))));
                assert!(failure.disconnect.is_none());
                assert!(failure.renew.is_none());
            }
            _ => panic!("found"),
        }
    }
    assert!(matches!(
        m.search(ChannelId(5)),
        Err(PlayerMapError::NoPlayerFound(ChannelId(5)))
    ));
    assert!(matches!(m.leave(ChannelId(5)), Err(PlayerMapError::NoPlayerFound(ChannelId(5)))));
    let finish = LavalinkEvent::Finish(TrackFinish {
        guild_id: GuildId(3),
        track: "t".to_string(),
        reason: "FINISHED".to_string(),
    });
    assert!(m.handle_player_event(finish, ClientId(41), 0).is_err());
    let update = LavalinkEvent::Update(PlayerUpdate { guild_id: GuildId(3), position: 0, time: 0 });
    assert!(m.handle_player_event(update, ClientId(41), 0).is_err());
}

#[test]
fn every_bot_is_tried_once() {
    let bots = bots();
    let m = PlayerManager::new(GuildId(3), &bots);
    let mut order: Vec<u64> = m.join().iter().map(|b| b.0).collect();
    order.sort();
    assert_eq!(order, vec![1, 2]);
}

#[test]
fn joining_goes_on_until_a_bot_succeeds() {
    let bots = bots();
    let mut m = PlayerManager::new(GuildId(3), &bots);
    let order = vec![UserId(1), UserId(2)];
    assert!(matches!(m.join_step(&order, JoinReply::Begin), JoinNext::Try(0)));
    assert!(matches!(m.join_step(&order, JoinReply::Tried(0, false)), JoinNext::Try(1)));
    assert!(matches!(m.join_step(&order, JoinReply::Tried(0, true)), JoinNext::Done(Ok(()))));
    assert!(matches!(
        m.join_step(&order, JoinReply::Tried(1, false)),
        JoinNext::Done(Err(PlayerMapError::NoFreeBot()))
    ));
    assert!(m.player_added(UserId(1), ClientId(41), Ok(player(1))).is_ok());
    assert!(matches!(m.join_step(&order, JoinReply::Begin), JoinNext::Try(1)));
    assert!(m.player_added(UserId(2), ClientId(42), Ok(player(2))).is_ok());
    assert!(matches!(
        m.join_step(&order, JoinReply::Begin),
        JoinNext::Done(Err(PlayerMapError::NoFreeBot()))
    ));
}

#[test]
fn a_bot_needs_all_it_takes_to_play() {
    let bots = bots();
    let mut m = PlayerManager::new(GuildId(3), &bots);
    let supervisor = LavalinkSupervisor::new(vec![(UserId(1), Some(ClientId(41)))]);
    assert!(matches!(m.add_player(UserId(1), &bots, true, &supervisor), Ok(ClientId(41))));
    assert!(matches!(
        m.add_player(UserId(9), &bots, true, &supervisor),
        Err(PlayerMapError::NoBotWithID(UserId(9), GuildId(3)))
    ));
    assert!(matches!(
        m.add_player(UserId(1), &bots, false, &supervisor),
        Err(PlayerMapError::NoBotWithID(UserId(1), GuildId(3)))
    ));
    assert!(matches!(
        m.add_player(UserId(1), &BotMap::new(), true, &supervisor),
        Err(PlayerMapError::NoBotWithID(UserId(1), GuildId(3)))
    ));
    assert!(matches!(
        m.add_player(UserId(2), &bots, true, &supervisor),
        Err(PlayerMapError::NoLavalink(UserId(2)))
    ));
    assert!(m.player_added(UserId(1), ClientId(41), Ok(player(1))).is_ok());
    assert!(matches!(
        m.add_player(UserId(1), &bots, true, &supervisor),
        Err(PlayerMapError::PlayerAlreadyExists(UserId(1)))
    ));
}

#[test]
fn replies_pause_and_resume_the_player() {
    let bots = bots();
    let mut m = PlayerManager::new(GuildId(3), &bots);
    assert!(m.player_added(UserId(1), ClientId(41), Ok(player(1))).is_ok());
    let call = Call {
        bot: UserId(1),
        lavalink: ClientId(41),
        command: LavalinkCommand::Pause,
        toggles: true,
    };
    assert!(m.answer(call, Ok(())).is_ok());
    assert_eq!(m.get_all_player_states()[0].play_state, PlayState::Pause);
    let call = Call {
        bot: UserId(1),
        lavalink: ClientId(41),
        command: LavalinkCommand::Stop,
        toggles: false,
    };
    assert!(m.answer(call, Ok(())).is_ok());
    assert_eq!(m.get_all_player_states()[0].play_state, PlayState::Pause);
}

#[test]
fn a_dead_client_costs_the_player() {
    let bots = bots();
    let mut m = PlayerManager::new(GuildId(3), &bots);
    assert!(m.player_added(UserId(1), ClientId(41), Ok(player(1))).is_ok());
    let call = |command| Call { bot: UserId(1), lavalink: ClientId(41), command, toggles: false };
    let mild = m.answer(call(LavalinkCommand::Stop), Err(LavalinkError::Request("x".to_string())));
    let mild = match mild {
        Err(failure) => failure,
        Ok(_) => panic!("no failure"),
    };
    assert!(mild.disconnect.is_none() && mild.renew.is_none());
    let dead = m.answer(call(LavalinkCommand::Stop), Err(LavalinkError::ConnectionClosed));
    let dead = match dead {
        Err(failure) => failure,
        Ok(_) => panic!("no failure"),
    };
    assert!(dead.error.is_fatal());
    assert_eq!(dead.renew, Some((UserId(1), ClientId(41))));
    assert_eq!(dead.disconnect.unwrap().get_bot(), UserId(1));
    let again = m.answer(call(LavalinkCommand::Stop), Err(LavalinkError::ConnectionClosed));
    let again = match again {
        Err(failure) => failure,
        Ok(_) => panic!("no failure"),
    };
    assert!(again.disconnect.is_none());
    assert_eq!(again.renew, Some((UserId(1), ClientId(41))));
    assert_eq!(m.get_all_player_states().len(), 1);
}

#[test]
fn failing_to_connect_adds_no_player() {
    let bots = bots();
    let mut m = PlayerManager::new(GuildId(3), &bots);
    let failed = m.player_added(UserId(1), ClientId(41), Err(PlayerError::NotInAVoiceChannel()));
    assert!(matches!(failed, Err(f) if f.renew.is_none()));
    assert!(m.get_all_player_states().is_empty());
    let dead = m.player_added(
        UserId(1),
        ClientId(41),
        Err(PlayerError::Lavalink(LavalinkError::ConnectionClosed)),
    );
    assert!(matches!(dead, Err(f) if f.renew == Some((UserId(1), ClientId(41)))));
}

#[test]
fn searches_bring_tracks_or_errors() {
    let bots = bots();
    let mut m = PlayerManager::new(GuildId(3), &bots);
    let found = Tracks { load_type: "SEARCH_RESULT".to_string(), tracks: vec![track("t")] };
    match m.searched(UserId(1), ClientId(41), Some(Ok(found))) {
        Ok((bot, tracks)) => {
            assert_eq!(bot, UserId(1));
            assert_eq!(tracks[0].track, "t");
        }
        Err(_) => panic!("no tracks"),
    }
    assert!(matches!(
        m.searched(UserId(1), ClientId(41), None),
        Err(f) if matches!(f.error, PlayerMapError::SearchSenderDropped())
    ));
    let failed = Tracks { load_type: "LOAD_FAILED".to_string(), tracks: vec![] };
    assert!(matches!(
        m.searched(UserId(1), ClientId(41), Some(Ok(failed))),
        Err(f) if matches!(f.error, PlayerMapError::PlayerError(PlayerError::SearchFailed(_)))
    ));
}
