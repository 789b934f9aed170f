use reciprocity_bot::discord::{Message, VoiceState};
use reciprocity_bot::event_handler::{duration_diff, Event, EventHandler, EventHandlerError, CACHE_SIZE};
use reciprocity_bot::ids::{ChannelId, GuildId, MessageId, UserId};
use std::time::Duration;

fn message(id: u64) -> Message {
    Message {
        id: MessageId(id),
        channel_id: ChannelId(1),
        author: UserId(7),
        author_name: "ann".to_string(),
        content: "play".to_string(),
    }
}

fn state(channel: Option<u64>, session: &str) -> VoiceState {
    VoiceState {
        user_id: UserId(7),
        channel_id: channel.map(ChannelId),
        session_id: session.to_string(),
    }
}

fn moved(at_millis: u64, bot: u64, session: &str) -> Event {
    Event::VoiceUpdate(
        None,
        state(Some(5), session),
        UserId(bot),
        Duration::from_millis(at_millis),
    )
}

#[test]
fn differences_have_no_sign() {
    let a = Duration::from_millis(700);
    let b = Duration::from_millis(1_200);
    assert_eq!(duration_diff(a, b), Duration::from_millis(500));
    assert_eq!(duration_diff(b, a), Duration::from_millis(500));
    assert_eq!(duration_diff(a, a), Duration::from_millis(0));
}

#[test]
fn only_some_events_are_remembered() {
    assert!(Event::NewMessage(message(1)).is_cached());
    assert!(Event::DeleteMessage(ChannelId(1), MessageId(1)).is_cached());
    assert!(moved(0, 1, "s").is_cached());
    assert!(!Event::Resume.is_cached());
    assert!(!Event::BulkReactionDelete(ChannelId(1), MessageId(1)).is_cached());
    assert!(!Event::CacheReady(UserId(1)).is_cached());
}

#[test]
fn voice_changes_within_half_a_second_are_one() {
    assert!(moved(1_000, 1, "s") == moved(1_500, 2, "s"));
    assert!(moved(1_000, 1, "s") != moved(1_501, 2, "s"));
    assert!(moved(1_000, 1, "s") != moved(1_000, 1, "t"));
    let from_somewhere = Event::VoiceUpdate(
        Some(state(Some(4), "s")),
        state(Some(5), "s"),
        UserId(1),
        Duration::from_millis(1_000),
    );
    assert!(from_somewhere != moved(1_000, 1, "s"));
    assert!(from_somewhere == from_somewhere.clone());
}

#[test]
fn other_events_are_told_apart_by_number() {
    assert!(Event::NewMessage(message(1)) == Event::NewMessage(message(1)));
    assert!(Event::NewMessage(message(1)) != Event::NewMessage(message(2)));
    let gone = Event::DeleteMessage(ChannelId(1), MessageId(1));
    assert!(gone == gone.clone());
    assert!(gone != Event::NewMessage(message(1)));
    let bulk = Event::BulkReactionDelete(ChannelId(1), MessageId(1));
    assert!(bulk == bulk.clone());
    assert!(Event::Resume != Event::Resume);
    assert!(Event::CacheReady(UserId(1)) != Event::CacheReady(UserId(1)));
}

#[test]
fn an_event_is_passed_on_once() {
    let mut h = EventHandler::new();
    assert!(matches!(
        h.process(GuildId(1), Event::NewMessage(message(1))),
        Err(EventHandlerError::NoGuild(GuildId(1)))
    ));
    h.add_guild(GuildId(1));
    h.add_guild(GuildId(2));
    assert!(matches!(h.process(GuildId(1), Event::NewMessage(message(1))), Ok(Some(_))));
    assert!(matches!(h.process(GuildId(1), Event::NewMessage(message(1))), Ok(None)));
    assert!(matches!(h.process(GuildId(2), Event::NewMessage(message(1))), Ok(Some(_))));
    assert!(matches!(h.process(GuildId(1), Event::Resume), Ok(Some(Event::Resume))));
    assert!(matches!(h.process(GuildId(1), Event::Resume), Ok(Some(Event::Resume))));
    assert!(matches!(
        h.process(GuildId(3), Event::Resume),
        Err(EventHandlerError::NoGuild(GuildId(3)))
    ));
}

#[test]
fn the_oldest_event_is_forgotten_first() {
    let mut h = EventHandler::new();
    h.add_guild(GuildId(1));
    let n = CACHE_SIZE as u64;
    for id in 0..=n {
        assert!(matches!(h.process(GuildId(1), Event::NewMessage(message(id))), Ok(Some(_))));
    }
    assert!(matches!(h.process(GuildId(1), Event::NewMessage(message(1))), Ok(None)));
    assert!(matches!(h.process(GuildId(1), Event::NewMessage(message(n))), Ok(None)));
    assert!(matches!(h.process(GuildId(1), Event::NewMessage(message(0))), Ok(Some(_))));
}

#[test]
fn adding_a_guild_again_forgets_its_events() {
    let mut h = EventHandler::new();
    h.add_guild(GuildId(1));
    assert!(matches!(h.process(GuildId(1), Event::NewMessage(message(1))), Ok(Some(_))));
    h.add_guild(GuildId(1));
    assert!(matches!(h.process(GuildId(1), Event::NewMessage(message(1))), Ok(Some(_))));
}

#[test]
fn shards_are_kept_for_known_guilds() {
    let mut h = EventHandler::new();
    assert!(!h.replace_shard_sender(GuildId(1), UserId(1), 4));
    h.add_guild(GuildId(1));
    assert_eq!(h.get_shard_sender(GuildId(1), UserId(1)), None);
    assert!(h.replace_shard_sender(GuildId(1), UserId(1), 4));
    assert!(!h.replace_shard_sender(GuildId(1), UserId(1), 4));
    assert_eq!(h.get_shard_sender(GuildId(1), UserId(1)), Some(4));
    assert!(h.replace_shard_sender(GuildId(1), UserId(1), 5));
    assert_eq!(h.get_shard_sender(GuildId(1), UserId(1)), Some(5));
    assert_eq!(h.get_shard_sender(GuildId(2), UserId(1)), None);
}

#[test]
fn events_without_a_guild_are_passed_over() {
    let mut h = EventHandler::new();
    h.add_guild(GuildId(1));
    assert!(h.message(UserId(1), 0, None, message(1)).is_none());
    assert!(h.message_delete(ChannelId(1), MessageId(1), None).is_none());
    assert!(h.reaction_remove_all(ChannelId(1), MessageId(1), None).is_none());
    let now = Duration::from_secs(1);
    assert!(h.voice_state_update(UserId(1), now, None, None, state(None, "s")).is_none());
}

#[test]
fn events_of_a_guild_reach_it() {
    let mut h = EventHandler::new();
    h.add_guild(GuildId(1));
    let guild = Some(GuildId(1));
    assert!(matches!(
        h.message(UserId(1), 9, guild, message(1)),
        Some((GuildId(1), Event::NewMessage(_)))
    ));
    assert_eq!(h.get_shard_sender(GuildId(1), UserId(1)), Some(9));
    assert!(h.message(UserId(2), 9, guild, message(1)).is_none());
    assert!(matches!(
        h.message_delete(ChannelId(1), MessageId(1), guild),
        Some((GuildId(1), Event::DeleteMessage(ChannelId(1), MessageId(1))))
    ));
    assert!(matches!(
        h.reaction_remove_all(ChannelId(1), MessageId(1), guild),
        Some((GuildId(1), Event::BulkReactionDelete(_, _)))
    ));
    let now = Duration::from_secs(1);
    assert!(h.voice_state_update(UserId(1), now, guild, None, state(None, "s")).is_some());
    assert!(h.voice_state_update(UserId(2), now, guild, None, state(None, "s")).is_none());
    assert!(h.message(UserId(1), 9, Some(GuildId(8)), message(2)).is_none());
}

#[test]
fn ready_caches_and_resumes_reach_all_guilds() {
    let mut h = EventHandler::new();
    h.add_guild(GuildId(1));
    h.add_guild(GuildId(2));
    let told = h.cache_ready(UserId(1), 3, &vec![GuildId(2), GuildId(9), GuildId(1)]);
    assert_eq!(told, vec![GuildId(2), GuildId(1)]);
    assert_eq!(h.get_shard_sender(GuildId(2), UserId(1)), Some(3));
    assert_eq!(h.get_shard_sender(GuildId(9), UserId(1)), None);
    let mut all: Vec<u64> = h.resume().iter().map(|g| g.0).collect();
    all.sort();
    assert_eq!(all, vec![1, 2]);
    assert_eq!(h.guilds().len(), 2);
}

#[test]
fn only_new_events_of_the_guild_wear_the_memory_out() {
    let mut h = EventHandler::new();
    h.add_guild(GuildId(3));
    h.add_guild(GuildId(4));
    let passes = |h: &mut EventHandler, guild: u64, event: Event| {
        matches!(h.process(GuildId(guild), event), Ok(Some(_)))
    };
    assert!(passes(&mut h, 3, Event::NewMessage(message(0))));
    for id in 1..300 {
        assert!(passes(&mut h, 4, Event::NewMessage(message(id))));
        assert!(passes(&mut h, 3, Event::Resume));
        assert!(!passes(&mut h, 3, Event::NewMessage(message(0))));
    }
    for id in 1..CACHE_SIZE as u64 {
        assert!(passes(&mut h, 3, Event::NewMessage(message(id))));
        assert!(!passes(&mut h, 3, Event::NewMessage(message(0))));
    }
    assert!(passes(&mut h, 3, Event::NewMessage(message(CACHE_SIZE as u64))));
    assert!(passes(&mut h, 3, Event::NewMessage(message(0))));
}
