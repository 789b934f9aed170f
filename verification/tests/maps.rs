use reciprocity_bot::ids::{ClientId, GuildId, UserId};
use reciprocity_bot::lavalink_handler::{
    LavalinkEvent, LavalinkHandler, PlayerUpdate, TrackFinish, TrackStart,
};
use reciprocity_bot::lavalink_supervisor::LavalinkSupervisor;
use reciprocity_bot::multi_key_map::{HashArc, TripleHashMap};
use std::collections::hash_map::DefaultHasher;
use std::hash::{Hash, Hasher};
use std::sync::Arc;

#[test]
fn main_keys_find_values() {
    let mut m: TripleHashMap<u64, u64, u64, &str> = TripleHashMap::new();
    assert!(m.get(&1).is_none());
    m.insert(1, "one");
    m.insert(2, "two");
    m.insert(1, "uno");
    assert_eq!(m.get(&1), Some(&"uno"));
    assert_eq!(m.get(&2), Some(&"two"));
    let mut all: Vec<(u64, &str)> = m.iter().iter().map(|(k, v)| (**k, **v)).collect();
    all.sort();
    assert_eq!(all, vec![(1, "uno"), (2, "two")]);
}

#[test]
fn entries_without_further_keys_keep_none() {
    let mut m: TripleHashMap<u64, u64, u64, &str> = TripleHashMap::new();
    m.insert(1, "one");
    m.add_k1_k2(1, 10, 100);
    m.add_k1_k2(9, 90, 900);
    assert!(m.get_keys(&1).is_none());
    assert!(m.get_k1(&10).is_none());
    assert!(m.get_k2(&100).is_none());
    assert!(m.get(&9).is_none());
    m.sub_k1_k2(&1);
    m.sub_k1_k2(&9);
    assert_eq!(m.get(&1), Some(&"one"));
}

#[test]
fn shared_values_are_told_apart_by_place() {
    let shared = Arc::new(5);
    let a = HashArc::from(shared.clone());
    let b = a.clone();
    let c = HashArc::from(Arc::new(5));
    assert!(a == b);
    assert!(a != c);
    assert!(HashArc::from(shared) == a);
    let hash = |v: &HashArc<i32>| {
        let mut h = DefaultHasher::new();
        v.hash(&mut h);
        h.finish()
    };
    assert_eq!(hash(&a), hash(&b));
    assert_ne!(hash(&a), hash(&c));
}

fn supervisor() -> LavalinkSupervisor {
    LavalinkSupervisor::new(vec![
        (UserId(1), Some(ClientId(10))),
        (UserId(2), None),
        (UserId(1), Some(ClientId(11))),
    ])
}

#[test]
fn supervisors_know_the_latest_client() {
    let s = supervisor();
    assert_eq!(s.request_current(UserId(1)), Some(ClientId(11)));
    assert_eq!(s.request_current(UserId(2)), None);
    assert_eq!(s.request_current(UserId(3)), None);
    let mut bots: Vec<u64> = s.get_bots().iter().map(|b| b.0).collect();
    bots.sort();
    assert_eq!(bots, vec![1, 2]);
}

#[test]
fn a_failed_client_is_replaced_once() {
    let mut s = supervisor();
    assert!(s.needs_new(UserId(1), ClientId(11)));
    assert_eq!(s.request_new(UserId(1), ClientId(11), Some(ClientId(12))), Some(ClientId(12)));
    assert!(!s.needs_new(UserId(1), ClientId(11)));
    assert_eq!(s.request_new(UserId(1), ClientId(11), Some(ClientId(13))), Some(ClientId(12)));
    assert!(s.needs_new(UserId(2), ClientId(11)));
    assert_eq!(s.request_new(UserId(2), ClientId(11), None), None);
    assert!(!s.needs_new(UserId(3), ClientId(11)));
    assert_eq!(s.request_new(UserId(3), ClientId(11), Some(ClientId(14))), None);
    assert_eq!(s.request_current(UserId(3)), None);
}

#[test]
fn reports_go_to_the_guild_they_are_about() {
    let mut h = LavalinkHandler::new();
    let update = LavalinkEvent::Update(PlayerUpdate { guild_id: GuildId(1), position: 0, time: 0 });
    assert!(h.dispatch(&update).is_none());
    h.add_guild(GuildId(1));
    h.add_guild(GuildId(1));
    assert_eq!(h.dispatch(&update), Some(GuildId(1)));
    let start = LavalinkEvent::Start(TrackStart { guild_id: GuildId(2), track: "t".to_string() });
    assert_eq!(start.guild(), GuildId(2));
    assert!(h.dispatch(&start).is_none());
    let finish = LavalinkEvent::Finish(TrackFinish {
        guild_id: GuildId(1),
        track: "t".to_string(),
        reason: "FINISHED".to_string(),
    });
    assert_eq!(h.dispatch(&finish), Some(GuildId(1)));
}
