//! Taking events from all bots, and passing each on once to the guild it belongs to.
//!
//! Every bot in a guild sees the same events. The latest events of a guild are remembered, and an
//! event that is remembered is not passed on again.
use crate::discord::{Message, VoiceState};
use crate::ids::{ChannelId, GuildId, MessageId, UserId};
use crate::time::duration_nanos;
use arraydeque::ArrayDeque;
use std::collections::HashMap;
use std::time::Duration;
use vstd::prelude::*;
use vstd::std_specs::iter::IteratorSpec;

verus! {

/// How many events of a guild are remembered.
pub const CACHE_SIZE: usize = 100;

/// How far apart two bots see one change of a voice state at most, in milliseconds.
pub const VOICE_STATE_MAX_DIFF_MILLIS: u64 = 500;

/// Something that happened in a guild.
#[derive(Debug)]
pub enum Event {
    NewMessage(Message),
    DeleteMessage(ChannelId, MessageId),
    Resume,
    /// The old and the new voice state, the bot that saw the change, and when it did, counted from
    /// a moment that is the same for all events.
    VoiceUpdate(Option<VoiceState>, VoiceState, UserId, Duration),
    BulkReactionDelete(ChannelId, MessageId),
    CacheReady(UserId),
}

/// Why an event was not taken.
#[derive(Clone, Copy, Debug, PartialEq, Eq, Structural)]
pub enum EventHandlerError {
    NoGuild(GuildId),
}

/// How far apart two lengths of time are.
pub open spec fn nanos_apart(a: Duration, b: Duration) -> nat {
    if duration_nanos(a) > duration_nanos(b) {
        (duration_nanos(a) - duration_nanos(b)) as nat
    } else {
        (duration_nanos(b) - duration_nanos(a)) as nat
    }
}

/// How far apart two lengths of time are.
pub fn duration_diff(dur1: Duration, dur2: Duration) -> (r: Duration)
    ensures
        duration_nanos(r) == nanos_apart(dur1, dur2),
{
    match dur1.checked_sub(dur2) {
        Some(diff) => diff,
        None => dur2.checked_sub(dur1).unwrap(),
    }
}

impl Event {
    /// Whether an event is remembered.
    pub open spec fn remembered(self) -> bool {
        self is NewMessage || self is DeleteMessage || self is VoiceUpdate
    }

    /// Whether the event is remembered.
    pub fn is_cached(&self) -> (r: bool)
        ensures
            r == self.remembered(),
    {
        match self {
            Event::NewMessage(_) => true,
            Event::DeleteMessage(_, _) => true,
            Event::VoiceUpdate(_, _, _, _) => true,
            _ => false,
        }
    }
}

/// Whether two events are one and the same, seen by two bots or twice. A change of a voice state is
/// told from another by who, where and in which session, whether there was a state before, and by
/// when it was seen.
pub open spec fn same_event(a: Event, b: Event) -> bool {
    match (a, b) {
        (Event::NewMessage(m1), Event::NewMessage(m2)) => m1.id == m2.id && m1.channel_id
            == m2.channel_id,
        (Event::DeleteMessage(c1, m1), Event::DeleteMessage(c2, m2)) => m1 == m2 && c1 == c2,
        (Event::VoiceUpdate(o1, n1, _, t1), Event::VoiceUpdate(o2, n2, _, t2)) => {
            &&& nanos_apart(t1, t2) <= VOICE_STATE_MAX_DIFF_MILLIS * 1_000_000
            &&& o1 is Some == o2 is Some
            &&& n1.session_id@ == n2.session_id@
            &&& n1.user_id == n2.user_id
            &&& n1.channel_id == n2.channel_id
        },
        (Event::BulkReactionDelete(c1, m1), Event::BulkReactionDelete(c2, m2)) => m1 == m2 && c1
            == c2,
        _ => false,
    }
}

impl PartialEq for Event {
    fn eq(&self, other: &Self) -> (r: bool) {
        match (self, other) {
            (Event::NewMessage(m1), Event::NewMessage(m2)) => m1.id == m2.id && m1.channel_id
                == m2.channel_id,
            (Event::DeleteMessage(c1, m1), Event::DeleteMessage(c2, m2)) => *m1 == *m2 && *c1
                == *c2,
            (Event::VoiceUpdate(o1, n1, _, t1), Event::VoiceUpdate(o2, n2, _, t2)) => {
                let diff = duration_diff(*t1, *t2);
                if Duration::from_millis(VOICE_STATE_MAX_DIFF_MILLIS).checked_sub(
                    diff,
                ).is_none() {
                    return false;
                }
                o1.is_some() == o2.is_some() && n1.session_id == n2.session_id && n1.user_id
                    == n2.user_id && n1.channel_id == n2.channel_id
            },
            (Event::BulkReactionDelete(c1, m1), Event::BulkReactionDelete(c2, m2)) => *m1 == *m2
                && *c1 == *c2,
            _ => false,
        }
    }
}

impl vstd::std_specs::cmp::PartialEqSpecImpl for Event {
    open spec fn obeys_eq_spec() -> bool {
        true
    }

    open spec fn eq_spec(&self, other: &Self) -> bool {
        same_event(*self, *other)
    }
}

impl Clone for Event {
    fn clone(&self) -> (r: Self)
        ensures
            r == *self,
    {
        match self {
            Event::NewMessage(m) => Event::NewMessage(m.clone()),
            Event::DeleteMessage(c, m) => Event::DeleteMessage(*c, *m),
            Event::Resume => Event::Resume,
            Event::VoiceUpdate(o, n, bot, t) => {
                let old = match o {
                    Some(state) => Some(state.clone()),
                    None => None,
                };
                Event::VoiceUpdate(old, n.clone(), *bot, *t)
            },
            Event::BulkReactionDelete(c, m) => Event::BulkReactionDelete(*c, *m),
            Event::CacheReady(bot) => Event::CacheReady(*bot),
        }
    }
}

/// The latest events of a guild, at most [`CACHE_SIZE`].
#[verifier::external_body]
pub struct EventCache {
    inner: ArrayDeque<[Event; CACHE_SIZE]>,
}

/// The remembered events, latest first.
pub uninterp spec fn cached_events(c: EventCache) -> Seq<Event>;

impl View for EventCache {
    type V = Seq<Event>;

    open spec fn view(&self) -> Seq<Event> {
        cached_events(*self)
    }
}

impl EventCache {
    /// `ArrayDeque::new`: nothing remembered.
    #[verifier::external_body]
    fn new() -> (r: EventCache)
        ensures
            cached_events(r) == Seq::<Event>::empty(),
    {
        EventCache { inner: ArrayDeque::new() }
    }

    /// `ArrayDeque::len`: the number of events, which never exceeds the limit.
    #[verifier::external_body]
    fn len(&self) -> (n: usize)
        ensures
            n == cached_events(*self).len(),
            n <= CACHE_SIZE,
    {
        self.inner.len()
    }

    /// `ArrayDeque::get`: the event at a place counted from the front, if the events reach there.
    #[verifier::external_body]
    fn get(&self, index: usize) -> (r: Option<&Event>)
        ensures
            r is Some <==> index < cached_events(*self).len(),
            r matches Some(e) ==> *e == cached_events(*self)[index as int],
    {
        self.inner.get(index)
    }

    /// `ArrayDeque::pop_back`: takes the last event out, if there is one.
    #[verifier::external_body]
    fn pop_back(&mut self) -> (r: Option<Event>)
        ensures
            r is Some <==> cached_events(*old(self)).len() > 0,
            r matches Some(e) ==> e == cached_events(*old(self)).last() && cached_events(
                *final(self),
            ) == cached_events(*old(self)).drop_last(),
            r is None ==> cached_events(*final(self)) == cached_events(*old(self)),
    {
        self.inner.pop_back()
    }

    /// `ArrayDeque::push_front`: puts the event first, or hands it back where there is no room.
    #[verifier::external_body]
    fn push_front(&mut self, event: Event) -> (r: Result<(), Event>)
        ensures
            r is Ok <==> cached_events(*old(self)).len() < CACHE_SIZE,
            r is Ok ==> cached_events(*final(self)) == seq![event] + cached_events(*old(self)),
            r matches Err(e) ==> e == event && cached_events(*final(self)) == cached_events(
                *old(self),
            ),
    {
        self.inner.push_front(event).map_err(|e| e.element)
    }

    /// Whether an event is remembered already.
    fn remembers(&self, event: &Event) -> (r: bool)
        ensures
            r == knows(self@, *event),
    {
        let n: usize = self.len();
        let mut i: usize = 0;
        while i < n
            invariant
                n == self@.len(),
                i <= n,
                forall|j: int| 0 <= j < i ==> !same_event(#[trigger] self@[j], *event),
            decreases n - i,
        {
            if let Some(seen) = self.get(i) {
                if seen == event {
                    assert(same_event(self@[i as int], *event));
                    return true;
                }
            }
            i += 1;
        }
        false
    }

    /// Remembers an event, at the cost of the oldest where there is no room.
    fn remember(&mut self, event: Event)
        ensures
            final(self)@ == with_event(old(self)@, event),
    {
        if self.len() == CACHE_SIZE {
            let _ = self.pop_back();
        }
        let _ = self.push_front(event);
    }
}

/// Whether an event is among some others.
pub open spec fn knows(events: Seq<Event>, event: Event) -> bool {
    exists|i: int| 0 <= i < events.len() && same_event(#[trigger] events[i], event)
}

/// The remembered events with a new one; the oldest is forgotten where there is no room.
pub open spec fn with_event(events: Seq<Event>, event: Event) -> Seq<Event> {
    seq![event] + if events.len() == CACHE_SIZE {
        events.drop_last()
    } else {
        events
    }
}

/// The guilds that events are passed on to, with what is remembered for each, and the shards
/// through which each bot serves each guild.
pub struct EventHandler {
    cache: HashMap<u64, EventCache>,
    shards: HashMap<u64, HashMap<u64, u64>>,
}

/// The contents of an [`EventHandler`].
#[verifier::ext_equal]
pub struct HandlerView {
    /// What is remembered for each guild.
    pub guilds: Map<u64, Seq<Event>>,
    /// The shard of each bot in each guild.
    pub shards: Map<u64, Map<u64, u64>>,
}

impl View for EventHandler {
    type V = HandlerView;

    closed spec fn view(&self) -> HandlerView {
        HandlerView {
            guilds: self.cache@.map_values(|c: EventCache| c@),
            shards: self.shards@.map_values(|m: HashMap<u64, u64>| m@),
        }
    }
}

impl HandlerView {
    /// After an event came for a guild: it is remembered if it is of the kind that is, unless it is
    /// remembered already.
    pub open spec fn processed(self, guild: GuildId, event: Event) -> HandlerView {
        if self.guilds.contains_key(guild.0) && event.remembered() && !knows(
            self.guilds[guild.0],
            event,
        ) {
            HandlerView {
                guilds: self.guilds.insert(guild.0, with_event(self.guilds[guild.0], event)),
                ..self
            }
        } else {
            self
        }
    }

    /// Whether an event is passed on to a guild: the guild is known, and the event is not one that
    /// is remembered already.
    pub open spec fn passes_on(self, guild: GuildId, event: Event) -> bool {
        self.guilds.contains_key(guild.0) && !(event.remembered() && knows(
            self.guilds[guild.0],
            event,
        ))
    }

    /// After a guild was made known: nothing is remembered for it, and it has no shards.
    pub open spec fn with_guild(self, guild: GuildId) -> HandlerView {
        HandlerView {
            guilds: self.guilds.insert(guild.0, Seq::empty()),
            shards: self.shards.insert(guild.0, Map::empty()),
        }
    }

    /// What comes of an event for a guild: the event where it is passed on, nothing where it is not,
    /// and an error where the guild is not known.
    pub open spec fn answer_to(self, guild: GuildId, event: Event) -> Result<
        Option<Event>,
        EventHandlerError,
    > {
        if !self.guilds.contains_key(guild.0) {
            Err(EventHandlerError::NoGuild(guild))
        } else if self.passes_on(guild, event) {
            Ok(Some(event))
        } else {
            Ok(None)
        }
    }

    /// What becomes of an event that came for a guild, or for none: it is passed on, or not.
    pub open spec fn passed(self, guild: Option<GuildId>, event: Event) -> Option<(GuildId, Event)> {
        match guild {
            Some(guild) if self.passes_on(guild, event) => Some((guild, event)),
            _ => None,
        }
    }

    /// After an event came for a guild, or for none.
    pub open spec fn taken(self, guild: Option<GuildId>, event: Event) -> HandlerView {
        match guild {
            Some(guild) => self.processed(guild, event),
            None => self,
        }
    }

    /// After it was seen through which shard a bot serves a guild. Guilds that are not known have
    /// no shards.
    pub open spec fn shard_seen(self, guild: GuildId, bot: UserId, shard: u64) -> HandlerView {
        if self.shards.contains_key(guild.0) {
            HandlerView {
                shards: self.shards.insert(
                    guild.0,
                    self.shards[guild.0].insert(bot.0, shard),
                ),
                ..self
            }
        } else {
            self
        }
    }

    /// After it was seen through which shard a bot serves several guilds.
    pub open spec fn shards_seen(self, guilds: Seq<GuildId>, bot: UserId, shard: u64) -> HandlerView
        decreases guilds.len(),
    {
        if guilds.len() == 0 {
            self
        } else {
            self.shards_seen(guilds.drop_last(), bot, shard).shard_seen(guilds.last(), bot, shard)
        }
    }

    /// Whether it is news that a bot serves a guild through a shard.
    pub open spec fn shard_changes(self, guild: GuildId, bot: UserId, shard: u64) -> bool {
        self.shards.contains_key(guild.0) && self.shard_of(guild, bot) != Some(shard)
    }

    /// After a bot saw something of a guild, or of none, through a shard.
    pub open spec fn seen_through(
        self,
        guild: Option<GuildId>,
        bot: UserId,
        shard: u64,
    ) -> HandlerView {
        match guild {
            Some(guild) => self.shard_seen(guild, bot, shard),
            None => self,
        }
    }

    /// The guilds among some that are known, in order.
    pub open spec fn known_among(self, guilds: Seq<GuildId>) -> Seq<GuildId> {
        guilds.filter(|guild: GuildId| self.guilds.contains_key(guild.0))
    }

    /// The shard of a bot in a guild.
    pub open spec fn shard_of(self, guild: GuildId, bot: UserId) -> Option<u64> {
        if self.shards.contains_key(guild.0) && self.shards[guild.0].contains_key(bot.0) {
            Some(self.shards[guild.0][bot.0])
        } else {
            None
        }
    }
}

impl EventHandler {
    /// No guilds.
    pub fn new() -> (r: EventHandler)
        ensures
            r@ == (HandlerView { guilds: Map::empty(), shards: Map::empty() }),
    {
        let r = EventHandler { cache: HashMap::new(), shards: HashMap::new() };
        assert(r@.guilds =~= Map::<u64, Seq<Event>>::empty());
        assert(r@.shards =~= Map::<u64, Map<u64, u64>>::empty());
        r
    }

    /// Passes events on to a guild from now on. Nothing is remembered for it, and no shards are
    /// known, even where the guild was there before.
    pub fn add_guild(&mut self, guild: GuildId)
        ensures
            final(self)@ == old(self)@.with_guild(guild),
    {
        self.cache.insert(guild.0, EventCache::new());
        self.shards.insert(guild.0, HashMap::new());
        assert(self@.guilds =~= old(self)@.guilds.insert(guild.0, Seq::empty()));
        assert(self@.shards =~= old(self)@.shards.insert(guild.0, Map::empty()));
    }

    /// Takes an event for a guild, and returns it where it is to be passed on.
    pub fn process(&mut self, guild: GuildId, event: Event) -> (r: Result<
        Option<Event>,
        EventHandlerError,
    >)
        ensures
            final(self)@ == old(self)@.processed(guild, event),
            r == old(self)@.answer_to(guild, event),
    {
        let ghost before = self@;
        if !event.is_cached() {
            return if self.cache.contains_key(&guild.0) {
                Ok(Some(event))
            } else {
                Err(EventHandlerError::NoGuild(guild))
            };
        }
        match self.cache.remove(&guild.0) {
            None => {
                assert(self@.guilds =~= before.guilds);
                Err(EventHandlerError::NoGuild(guild))
            },
            Some(mut cache) => {
                if cache.remembers(&event) {
                    self.cache.insert(guild.0, cache);
                    assert(self@.guilds =~= before.guilds);
                    return Ok(None);
                }
                cache.remember(event.clone());
                self.cache.insert(guild.0, cache);
                assert(self@.guilds =~= before.processed(guild, event).guilds);
                Ok(Some(event))
            },
        }
    }

    /// All guilds, each once. In which order is left open.
    pub fn guilds(&self) -> (r: Vec<GuildId>)
        ensures
            r@.no_duplicates(),
            forall|guild: GuildId| r@.contains(guild) <==> self@.guilds.contains_key(guild.0),
    {
        let mut r: Vec<GuildId> = Vec::new();
        let ghost walked = self.cache.keys().remaining();
        for key in it: self.cache.keys()
            invariant
                it.seq() == walked,
                r@.len() == it.index(),
                forall|i: int| 0 <= i < r@.len() ==> (#[trigger] r@[i]).0 == *walked[i],
        {
            r.push(GuildId(*key));
        }
        proof {
            assert(walked.no_duplicates());
            assert forall|i: int, j: int| 0 <= i < r@.len() && 0 <= j < r@.len() && i
                != j implies r@[i] != r@[j] by {
                assert(walked[i] != walked[j]);
            }
            assert forall|guild: GuildId| r@.contains(guild) <==> self@.guilds.contains_key(
                guild.0,
            ) by {
                if r@.contains(guild) {
                    let i = r@.index_of(guild);
                    assert(walked.unref().to_set().contains(*walked[i])) by {
                        assert(walked.unref()[i] == *walked[i]);
                    }
                }
                if self@.guilds.contains_key(guild.0) {
                    assert(walked.unref().to_set().contains(guild.0));
                    let i = walked.unref().index_of(guild.0);
                    assert(walked.unref()[i] == *walked[i]);
                    assert(r@[i] == guild);
                }
            }
        }
        r
    }

    /// The shard through which a bot serves a guild.
    pub fn get_shard_sender(&self, guild: GuildId, bot: UserId) -> (r: Option<u64>)
        ensures
            r == self@.shard_of(guild, bot),
    {
        match self.shards.get(&guild.0) {
            Some(shards) => match shards.get(&bot.0) {
                Some(shard) => Some(*shard),
                None => None,
            },
            None => None,
        }
    }

    /// Takes the shard through which a bot serves a guild. Returns whether it is a new one; guilds
    /// that are not known have no shards.
    pub fn replace_shard_sender(&mut self, guild: GuildId, bot: UserId, shard: u64) -> (r: bool)
        ensures
            r == old(self)@.shard_changes(guild, bot, shard),
            final(self)@ == old(self)@.shard_seen(guild, bot, shard),
    {
        let ghost before = self@;
        if !self.shards.contains_key(&guild.0) {
            return false;
        }
        if let Some(known) = self.get_shard_sender(guild, bot) {
            if known == shard {
                proof {
                    assert(before.shards[guild.0].insert(bot.0, shard)
                        =~= before.shards[guild.0]);
                    assert(before.shard_seen(guild, bot, shard).shards =~= before.shards);
                }
                return false;
            }
        }
        let mut shards = self.shards.remove(&guild.0).unwrap();
        shards.insert(bot.0, shard);
        self.shards.insert(guild.0, shards);
        assert(self@.shards =~= before.shards.insert(
            guild.0,
            before.shards[guild.0].insert(bot.0, shard),
        ));
        true
    }

    /// Takes an event that belongs to a guild, or to none. Events that belong to no guild, or to
    /// one that is not known, are passed over.
    fn incoming(&mut self, guild: Option<GuildId>, event: Event) -> (r: Option<(GuildId, Event)>)
        ensures
            final(self)@ == old(self)@.taken(guild, event),
            r == old(self)@.passed(guild, event),
    {
        match guild {
            None => None,
            Some(guild) => match self.process(guild, event) {
                Ok(Some(event)) => Some((guild, event)),
                _ => None,
            },
        }
    }

    /// Takes that a bot's cache is ready for some guilds, which it serves through a shard. Returns
    /// the guilds that are told so.
    pub fn cache_ready(&mut self, bot: UserId, shard: u64, guilds: &Vec<GuildId>) -> (r: Vec<
        GuildId,
    >)
        ensures
            final(self)@ == old(self)@.shards_seen(guilds@, bot, shard),
            r@ == old(self)@.known_among(guilds@),
    {
        let mut r: Vec<GuildId> = Vec::new();
        let mut i: usize = 0;
        proof {
            reveal(Seq::filter);
            assert(guilds@.take(0) =~= Seq::empty());
        }
        while i < guilds.len()
            invariant
                i <= guilds@.len(),
                self@ == old(self)@.shards_seen(guilds@.take(i as int), bot, shard),
                self@.guilds == old(self)@.guilds,
                r@ == old(self)@.known_among(guilds@.take(i as int)),
            decreases guilds.len() - i,
        {
            proof {
                reveal(Seq::filter);
                assert(guilds@.take(i + 1).drop_last() =~= guilds@.take(i as int));
            }
            let _ = self.replace_shard_sender(guilds[i], bot, shard);
            if let Some((guild, _)) = self.incoming(Some(guilds[i]), Event::CacheReady(bot)) {
                r.push(guild);
            }
            i += 1;
        }
        assert(guilds@.take(i as int) =~= guilds@);
        r
    }

    /// Takes a message, which a bot saw through a shard.
    pub fn message(
        &mut self,
        bot: UserId,
        shard: u64,
        guild: Option<GuildId>,
        message: Message,
    ) -> (r: Option<(GuildId, Event)>)
        ensures
            ({
                let seen = old(self)@.seen_through(guild, bot, shard);
                let event = Event::NewMessage(message);
                &&& final(self)@ == seen.taken(guild, event)
                &&& r == seen.passed(guild, event)
            }),
    {
        if let Some(guild) = guild {
            let _ = self.replace_shard_sender(guild, bot, shard);
        }
        self.incoming(guild, Event::NewMessage(message))
    }

    /// Takes that a message was deleted.
    pub fn message_delete(
        &mut self,
        channel: ChannelId,
        message: MessageId,
        guild: Option<GuildId>,
    ) -> (r: Option<(GuildId, Event)>)
        ensures
            final(self)@ == old(self)@.taken(guild, Event::DeleteMessage(channel, message)),
            r == old(self)@.passed(guild, Event::DeleteMessage(channel, message)),
    {
        self.incoming(guild, Event::DeleteMessage(channel, message))
    }

    /// Takes that all reactions of a message were taken away. The guild is that of the channel,
    /// where the channel is known and belongs to one.
    pub fn reaction_remove_all(
        &mut self,
        channel: ChannelId,
        message: MessageId,
        guild: Option<GuildId>,
    ) -> (r: Option<(GuildId, Event)>)
        ensures
            final(self)@ == old(self)@.taken(guild, Event::BulkReactionDelete(channel, message)),
            r == old(self)@.passed(guild, Event::BulkReactionDelete(channel, message)),
    {
        self.incoming(guild, Event::BulkReactionDelete(channel, message))
    }

    /// Takes that Discord's connection was resumed. All guilds are told so.
    pub fn resume(&self) -> (r: Vec<GuildId>)
        ensures
            r@.no_duplicates(),
            forall|guild: GuildId|
                r@.contains(guild) <==> self@.passes_on(guild, Event::Resume),
    {
        self.guilds()
    }

    /// Takes that a voice state changed, as a bot saw it at some time.
    pub fn voice_state_update(
        &mut self,
        bot: UserId,
        at: Duration,
        guild: Option<GuildId>,
        old_state: Option<VoiceState>,
        new_state: VoiceState,
    ) -> (r: Option<(GuildId, Event)>)
        ensures
            final(self)@ == old(self)@.taken(
                guild,
                Event::VoiceUpdate(old_state, new_state, bot, at),
            ),
            r == old(self)@.passed(guild, Event::VoiceUpdate(old_state, new_state, bot, at)),
    {
        self.incoming(guild, Event::VoiceUpdate(old_state, new_state, bot, at))
    }
}

/// An event of the kind that is remembered is passed on once: when it was passed on and comes again,
/// from whichever bot, it is not passed on again.
pub proof fn law_duplicates_are_ignored(h: HandlerView, guild: GuildId, event: Event, again: Event)
    requires
        h.passes_on(guild, event),
        event.remembered(),
        same_event(event, again),
    ensures
        !h.processed(guild, event).passes_on(guild, again),
        h.processed(guild, event).processed(guild, again) == h.processed(guild, event),
{
    assert(h.processed(guild, event).guilds[guild.0][0] == event);
}

/// What is remembered after some events came, each for a guild.
pub open spec fn after_events(h: HandlerView, events: Seq<(GuildId, Event)>) -> HandlerView
    decreases events.len(),
{
    if events.len() == 0 {
        h
    } else {
        after_events(h, events.drop_last()).processed(events.last().0, events.last().1)
    }
}

/// How many of some events were newly remembered for a guild.
pub open spec fn newly_remembered(
    h: HandlerView,
    events: Seq<(GuildId, Event)>,
    guild: GuildId,
) -> nat
    decreases events.len(),
{
    if events.len() == 0 {
        0
    } else {
        let (last_guild, last) = events.last();
        let before = after_events(h, events.drop_last());
        newly_remembered(h, events.drop_last(), guild) + if last_guild == guild && last.remembered()
            && before.passes_on(guild, last) {
            1nat
        } else {
            0
        }
    }
}

/// An event of the kind that is remembered is passed on once also where others come in between:
/// when it was passed on and comes again, it is not passed on again, unless as many events as there
/// is room for were newly remembered for its guild since. Events of other guilds, events that are
/// not remembered and duplicates make no difference.
pub proof fn law_duplicates_are_ignored_for_a_while(
    h: HandlerView,
    guild: GuildId,
    event: Event,
    since: Seq<(GuildId, Event)>,
    again: Event,
)
    requires
        h.passes_on(guild, event),
        event.remembered(),
        newly_remembered(h.processed(guild, event), since, guild) < CACHE_SIZE,
        same_event(event, again),
    ensures
        !after_events(h.processed(guild, event), since).passes_on(guild, again),
{
    let first = h.processed(guild, event);
    lemma_event_stays(first, guild, event, since);
    let events = after_events(first, since).guilds[guild.0];
    let i = choose|i: int|
        0 <= i <= newly_remembered(first, since, guild) && i < events.len() && events[i] == event;
    assert(same_event(events[i], again));
}

/// Whether an event has at most so many others before it.
spec fn is_in_first(events: Seq<Event>, event: Event, before: nat) -> bool {
    exists|i: int| 0 <= i <= before && i < events.len() && #[trigger] events[i] == event
}

/// The latest event of a guild is among the latest after some others came: each that is newly
/// remembered moves it back by one place.
proof fn lemma_event_stays(
    h: HandlerView,
    guild: GuildId,
    event: Event,
    since: Seq<(GuildId, Event)>,
)
    requires
        h.guilds.contains_key(guild.0),
        h.guilds[guild.0].len() > 0,
        h.guilds[guild.0][0] == event,
        newly_remembered(h, since, guild) < CACHE_SIZE,
    ensures
        after_events(h, since).guilds.contains_key(guild.0),
        is_in_first(
            after_events(h, since).guilds[guild.0],
            event,
            newly_remembered(h, since, guild),
        ),
    decreases since.len(),
{
    if since.len() == 0 {
        assert(after_events(h, since).guilds[guild.0][0] == event);
    } else {
        let before = after_events(h, since.drop_last());
        let after = after_events(h, since);
        let n = newly_remembered(h, since.drop_last(), guild);
        lemma_event_stays(h, guild, event, since.drop_last());
        let i = choose|i: int|
            0 <= i <= n && i < before.guilds[guild.0].len() && before.guilds[guild.0][i] == event;
        let (last_guild, last) = since.last();
        if last_guild == guild && last.remembered() && before.passes_on(guild, last) {
            assert(after.guilds[guild.0] == with_event(before.guilds[guild.0], last));
            assert(after.guilds[guild.0][i + 1] == event);
        } else {
            assert(after.guilds[guild.0] == before.guilds[guild.0]);
            assert(after.guilds[guild.0][i] == event);
        }
    }
}

/// Whatever is remembered counts as the same event as itself.
pub proof fn law_remembered_events_equal_themselves(event: Event)
    ensures
        event.remembered() ==> same_event(event, event),
{
}

/// An event that differs from all that are remembered is passed on.
pub proof fn law_others_are_passed_on(h: HandlerView, guild: GuildId, event: Event)
    requires
        h.guilds.contains_key(guild.0),
        !event.remembered() || !knows(h.guilds[guild.0], event),
    ensures
        h.passes_on(guild, event),
{
}

/// No more events are remembered than there is room for.
pub proof fn law_memory_is_bounded(h: HandlerView, guild: GuildId, event: Event)
    requires
        forall|g: u64| #[trigger] h.guilds.contains_key(g) ==> h.guilds[g].len() <= CACHE_SIZE,
    ensures
        forall|g: u64| #[trigger]
            h.processed(guild, event).guilds.contains_key(g) ==> h.processed(
                guild,
                event,
            ).guilds[g].len() <= CACHE_SIZE,
{
}

/// How far apart two lengths of time are does not depend on their order.
pub proof fn law_duration_diff_is_symmetric(a: Duration, b: Duration)
    ensures
        nanos_apart(a, b) == nanos_apart(b, a),
        nanos_apart(a, a) == 0,
{
}

/// Two messages are one and the same exactly where their numbers and their channels agree, and so
/// are two deletions, and two removals of all reactions.
pub proof fn law_same_events_agree(
    m1: Message,
    m2: Message,
    channel1: ChannelId,
    message1: MessageId,
    channel2: ChannelId,
    message2: MessageId,
)
    ensures
        same_event(Event::NewMessage(m1), Event::NewMessage(m2)) <==> m1.id == m2.id
            && m1.channel_id == m2.channel_id,
        same_event(
            Event::DeleteMessage(channel1, message1),
            Event::DeleteMessage(channel2, message2),
        ) <==> channel1 == channel2 && message1 == message2,
        same_event(
            Event::BulkReactionDelete(channel1, message1),
            Event::BulkReactionDelete(channel2, message2),
        ) <==> channel1 == channel2 && message1 == message2,
{
}

/// Two changes of a voice state are one and the same exactly where they are of one user, channel
/// and session, both or neither follow a state, and they were seen at most half a second apart.
pub proof fn law_same_voice_changes_agree(
    old1: Option<VoiceState>,
    old2: Option<VoiceState>,
    new1: VoiceState,
    new2: VoiceState,
    bot1: UserId,
    bot2: UserId,
    at1: Duration,
    at2: Duration,
)
    ensures
        same_event(
            Event::VoiceUpdate(old1, new1, bot1, at1),
            Event::VoiceUpdate(old2, new2, bot2, at2),
        ) <==> {
            &&& new1.user_id == new2.user_id
            &&& new1.channel_id == new2.channel_id
            &&& new1.session_id@ == new2.session_id@
            &&& old1 is Some == old2 is Some
            &&& duration_nanos(at1) <= duration_nanos(at2) + 500_000_000
            &&& duration_nanos(at2) <= duration_nanos(at1) + 500_000_000
        },
{
}

/// Events that are one and the same are of one kind, whichever comes first.
pub proof fn law_same_events_are_of_one_kind(a: Event, b: Event)
    ensures
        same_event(a, b) == same_event(b, a),
        same_event(a, b) ==> {
            ||| a is NewMessage && b is NewMessage
            ||| a is DeleteMessage && b is DeleteMessage
            ||| a is VoiceUpdate && b is VoiceUpdate
            ||| a is BulkReactionDelete && b is BulkReactionDelete
        },
{
}

/// The difference makes up for what the shorter length of time lacks.
pub proof fn law_duration_diff_fills_the_gap(a: Duration, b: Duration)
    ensures
        duration_nanos(a) <= duration_nanos(b) ==> duration_nanos(a) + nanos_apart(a, b)
            == duration_nanos(b),
{
}

/// Messages, deletions and changes of a voice state are remembered; a resumed connection, the
/// removal of all reactions and a filled cache are not.
pub proof fn law_what_is_remembered(
    message: Message,
    channel: ChannelId,
    number: MessageId,
    before: Option<VoiceState>,
    after: VoiceState,
    bot: UserId,
    at: Duration,
)
    ensures
        Event::NewMessage(message).remembered(),
        Event::DeleteMessage(channel, number).remembered(),
        Event::VoiceUpdate(before, after, bot, at).remembered(),
        !Event::Resume.remembered(),
        !Event::BulkReactionDelete(channel, number).remembered(),
        !Event::CacheReady(bot).remembered(),
{
}

/// What would be passed on still is after a different event.
pub proof fn law_different_events_are_both_passed_on(
    h: HandlerView,
    guild: GuildId,
    first: Event,
    second: Event,
)
    requires
        h.passes_on(guild, second),
        !same_event(first, second),
    ensures
        h.processed(guild, first).passes_on(guild, second),
{
    let after = h.processed(guild, first);
    if second.remembered() && knows(after.guilds[guild.0], second) {
        let events = h.guilds[guild.0];
        let i = choose|i: int|
            0 <= i < after.guilds[guild.0].len() && same_event(
                #[trigger] after.guilds[guild.0][i],
                second,
            );
        if after == h {
            assert(same_event(events[i], second));
        } else if i > 0 {
            assert(after.guilds[guild.0][i] == events[i - 1]);
            assert(same_event(events[i - 1], second));
        } else {
            assert(after.guilds[guild.0][0] == first);
        }
        assert(false);
    }
}

/// Deletions of different messages are both passed on, and so are different messages.
pub proof fn law_different_messages_are_both_passed_on(
    h: HandlerView,
    guild: GuildId,
    channel1: ChannelId,
    message1: MessageId,
    channel2: ChannelId,
    message2: MessageId,
    m1: Message,
    m2: Message,
)
    ensures
        (channel1 != channel2 || message1 != message2) && h.passes_on(
            guild,
            Event::DeleteMessage(channel2, message2),
        ) ==> h.processed(guild, Event::DeleteMessage(channel1, message1)).passes_on(
            guild,
            Event::DeleteMessage(channel2, message2),
        ),
        (m1.channel_id != m2.channel_id || m1.id != m2.id) && h.passes_on(
            guild,
            Event::NewMessage(m2),
        ) ==> h.processed(guild, Event::NewMessage(m1)).passes_on(guild, Event::NewMessage(m2)),
{
    if (channel1 != channel2 || message1 != message2) && h.passes_on(
        guild,
        Event::DeleteMessage(channel2, message2),
    ) {
        law_different_events_are_both_passed_on(
            h,
            guild,
            Event::DeleteMessage(channel1, message1),
            Event::DeleteMessage(channel2, message2),
        );
    }
    if (m1.channel_id != m2.channel_id || m1.id != m2.id) && h.passes_on(
        guild,
        Event::NewMessage(m2),
    ) {
        law_different_events_are_both_passed_on(
            h,
            guild,
            Event::NewMessage(m1),
            Event::NewMessage(m2),
        );
    }
}

/// Where a guild remembers nothing, every event is passed on; an unknown guild gets none, and
/// nothing is remembered for it.
pub proof fn law_unseen_events_are_passed_on(h: HandlerView, guild: GuildId, event: Event)
    ensures
        h.guilds.contains_key(guild.0) && h.guilds[guild.0].len() == 0 ==> h.passes_on(guild, event),
        !h.guilds.contains_key(guild.0) ==> !h.passes_on(guild, event) && h.processed(guild, event)
            == h,
        h.passed(None, event) is None,
        h.taken(None, event) == h,
        h.passes_on(guild, event) ==> h.passed(Some(guild), event) == Some((guild, event)),
        !h.passes_on(guild, event) ==> h.passed(Some(guild), event) is None,
        h.taken(Some(guild), event) == h.processed(guild, event),
{
}

/// An event that is passed on and of the kind that is remembered comes first in the memory of its
/// guild. What was there follows in order, without the last where there was no room; the other
/// guilds and the shards stay.
pub proof fn law_latest_event_comes_first(
    h: HandlerView,
    guild: GuildId,
    event: Event,
    other: GuildId,
)
    ensures
        h.passes_on(guild, event) && event.remembered() ==> {
            let before = h.guilds[guild.0];
            let after = h.processed(guild, event).guilds[guild.0];
            &&& after.len() > 0
            &&& after[0] == event
            &&& after.skip(1) == before.take(
                if before.len() == 100 {
                    99
                } else {
                    before.len() as int
                },
            )
        },
        !event.remembered() || !h.passes_on(guild, event) ==> h.processed(guild, event) == h,
        h.processed(guild, event).shards == h.shards,
        h.processed(guild, event).guilds.dom() == h.guilds.dom(),
        other.0 != guild.0 && h.guilds.contains_key(other.0) ==> h.processed(
            guild,
            event,
        ).guilds[other.0] == h.guilds[other.0],
{
    if h.passes_on(guild, event) && event.remembered() {
        let before = h.guilds[guild.0];
        assert(h.processed(guild, event).guilds[guild.0].skip(1) =~= before.take(
            if before.len() == 100 {
                99
            } else {
                before.len() as int
            },
        ));
    }
    assert(h.processed(guild, event).guilds.dom() =~= h.guilds.dom());
}

/// The shard that was seen last for a bot in a guild is the one that is found; nothing else of what
/// is known changes.
pub proof fn law_last_shard_is_found(
    h: HandlerView,
    guild: GuildId,
    bot: UserId,
    shard: u64,
    other_guild: GuildId,
    other_bot: UserId,
)
    ensures
        h.shards.contains_key(guild.0) ==> h.shard_seen(guild, bot, shard).shard_of(guild, bot)
            == Some(shard),
        !h.shards.contains_key(guild.0) ==> h.shard_seen(guild, bot, shard) == h && h.shard_of(
            guild,
            bot,
        ) is None,
        other_guild.0 != guild.0 || other_bot.0 != bot.0 ==> h.shard_seen(
            guild,
            bot,
            shard,
        ).shard_of(other_guild, other_bot) == h.shard_of(other_guild, other_bot),
        h.shard_seen(guild, bot, shard).guilds == h.guilds,
{
}

/// After a bot was seen in several guilds through one shard, that shard is found in each of them
/// that is known; other guilds and other bots keep theirs.
pub proof fn law_shards_of_all_guilds_are_found(
    h: HandlerView,
    guilds: Seq<GuildId>,
    bot: UserId,
    shard: u64,
    guild: GuildId,
    other_bot: UserId,
)
    ensures
        guilds.contains(guild) && h.shards.contains_key(guild.0) ==> h.shards_seen(
            guilds,
            bot,
            shard,
        ).shard_of(guild, bot) == Some(shard),
        !guilds.contains(guild) || other_bot != bot ==> h.shards_seen(guilds, bot, shard).shard_of(
            guild,
            other_bot,
        ) == h.shard_of(guild, other_bot),
        h.shards_seen(guilds, bot, shard).guilds == h.guilds,
        h.shards_seen(guilds, bot, shard).shards.dom() == h.shards.dom(),
    decreases guilds.len(),
{
    if guilds.len() > 0 {
        let before = guilds.drop_last();
        law_shards_of_all_guilds_are_found(h, before, bot, shard, guild, other_bot);
        let middle = h.shards_seen(before, bot, shard);
        law_last_shard_is_found(middle, guilds.last(), bot, shard, guild, other_bot);
        law_last_shard_is_found(middle, guilds.last(), bot, shard, guild, bot);
        if guilds.contains(guild) && guild != guilds.last() {
            let i = choose|i: int| 0 <= i < guilds.len() && guilds[i] == guild;
            assert(before[i] == guild);
        }
        if !guilds.contains(guild) {
            assert(guilds[guilds.len() - 1] != guild);
            assert forall|i: int| 0 <= i < before.len() implies before[i] != guild by {
                assert(guilds[i] != guild);
            }
        }
        assert(h.shards_seen(guilds, bot, shard).shards.dom() =~= h.shards.dom());
    }
}

/// The known guilds among some are exactly those of them that are known, one after another: those of
/// two lists are those of the first and then those of the second.
pub proof fn law_known_guilds_are_kept(
    h: HandlerView,
    a: Seq<GuildId>,
    b: Seq<GuildId>,
    guild: GuildId,
)
    ensures
        h.known_among(a + b) == h.known_among(a) + h.known_among(b),
        h.known_among(seq![guild]) == if h.guilds.contains_key(guild.0) {
            seq![guild]
        } else {
            Seq::empty()
        },
{
    let known = |guild: GuildId| h.guilds.contains_key(guild.0);
    Seq::filter_distributes_over_add(a, b, known);
    reveal(Seq::filter);
    let one = seq![guild];
    assert(one.drop_last() =~= Seq::<GuildId>::empty());
    assert(one.drop_last().filter(known) =~= Seq::<GuildId>::empty());
    assert(one.last() == guild);
    assert(Seq::<GuildId>::empty().push(guild) =~= seq![guild]);
}

/// A guild that was made known gets every event at first, and no bot has a shard there yet; the other
/// guilds stay.
pub proof fn law_known_guilds_get_events(
    h: HandlerView,
    guild: GuildId,
    event: Event,
    bot: UserId,
    other: GuildId,
)
    ensures
        h.with_guild(guild).passes_on(guild, event),
        h.with_guild(guild).shard_of(guild, bot) is None,
        h.with_guild(guild).shards.contains_key(guild.0),
        other.0 != guild.0 ==> h.with_guild(guild).passes_on(other, event) == h.passes_on(
            other,
            event,
        ) && h.with_guild(guild).shard_of(other, bot) == h.shard_of(other, bot),
{
}

/// An event that is passed on comes out as it went in; one that is not comes out as nothing, and one
/// for an unknown guild is an error.
pub proof fn law_events_come_out_as_they_are(h: HandlerView, guild: GuildId, event: Event)
    ensures
        h.answer_to(guild, event) == Ok::<Option<Event>, EventHandlerError>(Some(event))
            <==> h.passes_on(guild, event),
        h.answer_to(guild, event) == Err::<Option<Event>, EventHandlerError>(
            EventHandlerError::NoGuild(guild),
        ) <==> !h.guilds.contains_key(guild.0),
        h.answer_to(guild, event) == Ok::<Option<Event>, EventHandlerError>(None)
            <==> h.guilds.contains_key(guild.0) && !h.passes_on(guild, event),
{
}

/// A message shows through which shard its bot serves a known guild. A shard is news exactly where
/// another was found before, or none, and is none the second time.
pub proof fn law_messages_show_the_shard(h: HandlerView, guild: GuildId, bot: UserId, shard: u64)
    ensures
        h.shards.contains_key(guild.0) ==> h.seen_through(Some(guild), bot, shard).shard_of(
            guild,
            bot,
        ) == Some(shard),
        h.seen_through(Some(guild), bot, shard).guilds == h.guilds,
        h.seen_through(None, bot, shard) == h,
        h.shard_changes(guild, bot, shard) <==> h.shards.contains_key(guild.0)
            && !(h.shards[guild.0].contains_key(bot.0) && h.shards[guild.0][bot.0] == shard),
        !h.shard_seen(guild, bot, shard).shard_changes(guild, bot, shard),
{
}

} // verus!
