//! What one guild keeps between events: its search messages, its main message, and the messages
//! that wait to be deleted.
use crate::ids::{ChannelId, GuildId, MessageId, UserId};
use std::collections::HashMap;
use vstd::prelude::*;
use vstd::std_specs::iter::IteratorSpec;

verus! {

/// A user's search message: the message once it was sent, and the number of the search.
pub type SearchMessageId = (Option<MessageId>, u128);

/// What one guild keeps between events.
pub struct Context {
    id: GuildId,
    channel: ChannelId,
    search_messages: HashMap<u64, SearchMessageId>,
    main_message: Option<(MessageId, ChannelId)>,
    delete_pool: Vec<MessageId>,
}

/// The contents of a [`Context`].
#[verifier::ext_equal]
pub struct ContextView {
    pub id: GuildId,
    pub channel: ChannelId,
    /// The search message of each user who has one.
    pub searches: Map<u64, SearchMessageId>,
    pub main: Option<(MessageId, ChannelId)>,
    /// The messages that wait to be deleted, oldest first.
    pub pool: Seq<MessageId>,
}

impl View for Context {
    type V = ContextView;

    closed spec fn view(&self) -> ContextView {
        ContextView {
            id: self.id,
            channel: self.channel,
            searches: self.search_messages@,
            main: self.main_message,
            pool: self.delete_pool@,
        }
    }
}

impl ContextView {
    /// Whether a user's search is the one with a number.
    pub open spec fn searches_with(self, user: UserId, uuid: u128) -> bool {
        self.searches.contains_key(user.0) && self.searches[user.0].1 == uuid
    }

    /// Whether a user has a search, but under another number.
    pub open spec fn searches_otherwise(self, user: UserId, uuid: u128) -> bool {
        self.searches.contains_key(user.0) && self.searches[user.0].1 != uuid
    }

    /// Whether somebody has a search with a number.
    pub open spec fn is_anybodys(self, uuid: u128) -> bool {
        exists|user: UserId| #[trigger] self.searches_with(user, uuid)
    }

    /// After the pool was emptied.
    pub open spec fn drained(self) -> ContextView {
        ContextView { pool: Seq::empty(), ..self }
    }

    /// Whether a message is some user's search message.
    pub open spec fn is_search_of(self, user: u64, message: MessageId) -> bool {
        self.searches.contains_key(user) && self.searches[user].0 == Some(message)
    }

    /// Whether a message is anybody's search message.
    pub open spec fn is_search(self, message: MessageId) -> bool {
        exists|user: u64| self.is_search_of(user, message)
    }

    /// Whether a message is still needed: it is the main message or somebody's search message.
    pub open spec fn is_needed(self, message: MessageId) -> bool {
        ||| self.main matches Some((id, _)) && id == message
        ||| self.is_search(message)
    }

    /// After a message was set to be deleted, if there is one.
    pub open spec fn pooled(self, message: Option<MessageId>) -> ContextView {
        match message {
            Some(message) => ContextView { pool: self.pool.push(message), ..self },
            None => self,
        }
    }

    /// After a user began a search; the message of an earlier one is to be deleted.
    pub open spec fn search_begun(self, user: UserId, uuid: u128) -> ContextView {
        ContextView {
            searches: self.searches.insert(user.0, (None, uuid)),
            ..self.pooled(self.search_message_of(user))
        }
    }

    /// After the message of a search was sent: it becomes the search's message, unless the search
    /// is no longer the user's, in which case it is to be deleted.
    pub open spec fn search_sent(
        self,
        user: UserId,
        uuid: u128,
        message: MessageId,
    ) -> ContextView {
        if self.searches_with(user, uuid) {
            ContextView { searches: self.searches.insert(user.0, (Some(message), uuid)), ..self }
        } else {
            self.pooled(Some(message))
        }
    }

    /// After a search ended: its message is to be deleted, and the search is forgotten unless the
    /// user has begun another.
    pub open spec fn search_ended(
        self,
        user: UserId,
        uuid: u128,
        message: MessageId,
    ) -> ContextView {
        let pooled = self.pooled(Some(message));
        if self.searches_with(user, uuid) {
            ContextView { searches: self.searches.remove(user.0), ..pooled }
        } else {
            pooled
        }
    }

    /// After a user's search was dropped: its message, if it was sent, is to be deleted.
    pub open spec fn search_dropped(self, user: UserId) -> ContextView {
        ContextView {
            searches: self.searches.remove(user.0),
            ..self.pooled(self.search_message_of(user))
        }
    }

    /// The message of a user's search, if it was sent.
    pub open spec fn search_message_of(self, user: UserId) -> Option<MessageId> {
        if self.searches.contains_key(user.0) {
            self.searches[user.0].0
        } else {
            None
        }
    }
}

impl Context {
    /// A guild that has shown nothing yet in its channel.
    pub fn new(id: GuildId, channel: ChannelId) -> (r: Context)
        ensures
            r@ == (ContextView {
                id,
                channel,
                searches: Map::empty(),
                main: None,
                pool: Seq::empty(),
            }),
    {
        Context {
            id,
            channel,
            search_messages: HashMap::new(),
            main_message: None,
            delete_pool: Vec::new(),
        }
    }

    /// The guild.
    pub fn id(&self) -> (r: GuildId)
        ensures
            r == self@.id,
    {
        self.id
    }

    /// The channel that the guild is served in.
    pub fn channel(&self) -> (r: ChannelId)
        ensures
            r == self@.channel,
    {
        self.channel
    }

    /// The main message and its channel.
    pub fn main_message(&self) -> (r: Option<(MessageId, ChannelId)>)
        ensures
            r == self@.main,
    {
        self.main_message
    }

    /// Replaces the main message.
    pub fn set_main_message(&mut self, message: MessageId, channel: ChannelId)
        ensures
            final(self)@ == (ContextView { main: Some((message, channel)), ..old(self)@ }),
    {
        self.main_message = Some((message, channel));
    }

    /// Sets a message to be deleted.
    pub fn pool_message(&mut self, message: MessageId)
        ensures
            final(self)@ == old(self)@.pooled(Some(message)),
    {
        self.delete_pool.push(message);
    }

    /// Sets messages to be deleted.
    pub fn pool_messages(&mut self, messages: Vec<MessageId>)
        ensures
            final(self)@ == (ContextView { pool: old(self)@.pool + messages@, ..old(self)@ }),
    {
        let mut messages = messages;
        self.delete_pool.append(&mut messages);
    }

    /// Takes out all messages that wait to be deleted.
    pub fn drain_pool(&mut self) -> (r: Vec<MessageId>)
        ensures
            r@ == old(self)@.pool,
            final(self)@ == old(self)@.drained(),
    {
        let mut r: Vec<MessageId> = Vec::new();
        r.append(&mut self.delete_pool);
        assert(r@ =~= old(self)@.pool);
        r
    }

    /// Begins a user's search with a number. Returns whether a message of an earlier search is to
    /// be deleted.
    pub fn begin_search(&mut self, user: UserId, uuid: u128) -> (r: bool)
        ensures
            final(self)@ == old(self)@.search_begun(user, uuid),
            r == (old(self)@.search_message_of(user) is Some),
    {
        match self.search_messages.insert(user.0, (None, uuid)) {
            Some((Some(message), _)) => {
                self.delete_pool.push(message);
                true
            },
            _ => false,
        }
    }

    /// Whether a user's search is the one with a number.
    pub fn has_search(&self, user: UserId, uuid: u128) -> (r: bool)
        ensures
            r == self@.searches_with(user, uuid),
    {
        match self.search_messages.get(&user.0) {
            Some((_, number)) => *number == uuid,
            None => false,
        }
    }

    /// Whether the user has another search than the one with a number. A search that is gone
    /// without another in its place does not count.
    pub fn has_other_search(&self, user: UserId, uuid: u128) -> (r: bool)
        ensures
            r == self@.searches_otherwise(user, uuid),
    {
        match self.search_messages.get(&user.0) {
            Some((_, number)) => *number != uuid,
            None => false,
        }
    }

    /// Takes the message that was sent for a search. Returns whether the search is still the
    /// user's; else the message is to be deleted.
    pub fn record_search(&mut self, user: UserId, uuid: u128, message: MessageId) -> (r: bool)
        ensures
            final(self)@ == old(self)@.search_sent(user, uuid, message),
            r == old(self)@.searches_with(user, uuid),
    {
        if self.has_search(user, uuid) {
            self.search_messages.insert(user.0, (Some(message), uuid));
            true
        } else {
            self.delete_pool.push(message);
            false
        }
    }

    /// Ends a search whose message was sent.
    pub fn end_search(&mut self, user: UserId, uuid: u128, message: MessageId)
        ensures
            final(self)@ == old(self)@.search_ended(user, uuid, message),
    {
        self.delete_pool.push(message);
        if self.has_search(user, uuid) {
            self.search_messages.remove(&user.0);
        }
    }

    /// Drops a user's search, if there is one. Returns whether a message is to be deleted.
    pub fn drop_search(&mut self, user: UserId) -> (r: bool)
        ensures
            final(self)@ == old(self)@.search_dropped(user),
            r == (old(self)@.search_message_of(user) is Some),
    {
        let dropped = self.search_messages.remove(&user.0);
        match dropped {
            Some((Some(message), _)) => {
                self.delete_pool.push(message);
                true
            },
            Some((None, _)) => false,
            None => {
                assert(old(self)@.searches.remove(user.0) =~= old(self)@.searches);
                false
            },
        }
    }

    /// Drops a user's search, if there is one. Returns its message, if it was sent.
    pub fn take_search(&mut self, user: UserId) -> (r: Option<MessageId>)
        ensures
            final(self)@ == (ContextView {
                searches: old(self)@.searches.remove(user.0),
                ..old(self)@
            }),
            r == old(self)@.search_message_of(user),
    {
        match self.search_messages.remove(&user.0) {
            Some((message, _)) => message,
            None => None,
        }
    }

    /// Some user whose search message a message is.
    fn user_of_message(&self, message: MessageId) -> (r: Option<u64>)
        ensures
            match r {
                Some(user) => self@.is_search_of(user, message),
                None => !self@.is_search(message),
            },
    {
        let ghost walked = self.search_messages.iter().remaining();
        for entry in it: self.search_messages.iter()
            invariant
                it.seq() == walked,
                walked == self.search_messages.iter().remaining(),
                forall|i: int| 0 <= i < it.index() ==> (#[trigger] walked[i]).1.0 != Some(message),
        {
            let (user, search) = entry;
            if let Some(id) = search.0 {
                if id == message {
                    assert(self.search_messages@[*user] == *search);
                    return Some(*user);
                }
            }
        }
        proof {
            assert forall|user: u64| !self@.is_search_of(user, message) by {
                if self@.searches.contains_key(user) {
                    assert(walked.contains((&user, &self.search_messages@[user])));
                    let i = choose|i: int|
                        0 <= i < walked.len() && walked[i] == (&user, &self.search_messages@[user]);
                    assert(walked[i].1.0 != Some(message));
                }
            }
        }
        None
    }

    /// Whether a message is still needed.
    pub fn needs(&self, message: MessageId) -> (r: bool)
        ensures
            r == self@.is_needed(message),
    {
        if let Some((id, _)) = self.main_message {
            if id == message {
                return true;
            }
        }
        self.user_of_message(message).is_some()
    }

    /// Forgets the search whose message was deleted. Where several users had the message, one of
    /// them loses the search; which one is left open.
    pub fn forget_message(&mut self, message: MessageId)
        ensures
            if old(self)@.is_search(message) {
                exists|user: u64| #[trigger]
                    old(self)@.is_search_of(user, message) && final(self)@ == (ContextView {
                        searches: old(self)@.searches.remove(user),
                        ..old(self)@
                    })
            } else {
                final(self)@ == old(self)@
            },
    {
        if let Some(user) = self.user_of_message(message) {
            assert(old(self)@.is_search_of(user, message));
            self.search_messages.remove(&user);
        }
    }

    /// Whether some user's search has a number.
    pub fn is_relevant(&self, uuid: u128) -> (r: bool)
        ensures
            r == self@.is_anybodys(uuid),
    {
        let ghost walked = self.search_messages.iter().remaining();
        for entry in it: self.search_messages.iter()
            invariant
                it.seq() == walked,
                walked == self.search_messages.iter().remaining(),
                forall|i: int| 0 <= i < it.index() ==> (#[trigger] walked[i]).1.1 != uuid,
        {
            let (user, search) = entry;
            if search.1 == uuid {
                assert(self.search_messages@[*user] == *search);
                assert(self@.searches_with(UserId(*user), uuid));
                return true;
            }
        }
        proof {
            assert forall|user: UserId| !#[trigger] self@.searches_with(user, uuid) by {
                if self@.searches.contains_key(user.0) {
                    assert(walked.contains((&user.0, &self.search_messages@[user.0])));
                    let i = choose|i: int|
                        0 <= i < walked.len() && walked[i] == (
                            &user.0,
                            &self.search_messages@[user.0],
                        );
                    assert(walked[i].1.1 != uuid);
                }
            }
        }
        false
    }
}

/// A search that began and whose message was sent while it was still the user's leaves nothing
/// behind but the message to be deleted, once it ends.
pub proof fn law_search_leaves_nothing_behind(
    c: ContextView,
    user: UserId,
    uuid: u128,
    message: MessageId,
)
    requires
        !c.searches.contains_key(user.0),
    ensures
        c.search_begun(user, uuid).search_sent(user, uuid, message).search_ended(
            user,
            uuid,
            message,
        ) == c.pooled(Some(message)),
{
    let begun = c.search_begun(user, uuid);
    let sent = begun.search_sent(user, uuid, message);
    let ended = sent.search_ended(user, uuid, message);
    assert(ended.searches =~= c.searches);
}

/// A search that another replaced does not touch the other: whatever the older one still does, the
/// newer stays the user's.
pub proof fn law_newer_search_stays(
    c: ContextView,
    user: UserId,
    older: u128,
    newer: u128,
    message: MessageId,
)
    requires
        c.searches_with(user, newer),
        older != newer,
    ensures
        c.search_sent(user, older, message).searches == c.searches,
        c.search_ended(user, older, message).searches == c.searches,
        c.search_sent(user, older, message).pool == c.pool.push(message),
        c.search_ended(user, older, message).pool == c.pool.push(message),
{
}

/// A search that begins is the only one of its user, without a message so far. The message of the
/// one before it, if there was any, goes last into the pool; the searches of others stay.
pub proof fn law_new_search_replaces_the_old(c: ContextView, user: UserId, uuid: u128, other: u64)
    ensures
        ({
            let begun = c.search_begun(user, uuid);
            &&& begun.searches.contains_key(user.0) && begun.searches[user.0] == (
                None::<MessageId>,
                uuid,
            )
            &&& begun.searches_with(user, uuid)
            &&& c.searches.contains_key(user.0) && c.searches[user.0].0 is Some ==> begun.pool
                == c.pool.push(c.searches[user.0].0->0)
            &&& !c.searches.contains_key(user.0) || c.searches[user.0].0 is None ==> begun.pool
                == c.pool
            &&& other != user.0 ==> (begun.searches.contains_key(other)
                <==> c.searches.contains_key(other)) && begun.searches[other] == c.searches[other]
            &&& begun.main == c.main && begun.id == c.id && begun.channel == c.channel
        }),
{
}

/// The message of a search that still stands is kept with it; that of one that does not goes into
/// the pool. Only then does the pool change.
pub proof fn law_sent_message_is_kept_or_pooled(
    c: ContextView,
    user: UserId,
    uuid: u128,
    message: MessageId,
    other: u64,
)
    ensures
        ({
            let sent = c.search_sent(user, uuid, message);
            let stands = c.searches.contains_key(user.0) && c.searches[user.0].1 == uuid;
            &&& stands ==> sent.searches[user.0] == (Some(message), uuid) && sent.is_needed(message)
                && sent.pool == c.pool
            &&& !stands ==> sent.searches == c.searches && sent.pool == c.pool.push(message)
            &&& other != user.0 ==> (sent.searches.contains_key(other)
                <==> c.searches.contains_key(other)) && sent.searches[other] == c.searches[other]
            &&& sent.main == c.main && sent.id == c.id && sent.channel == c.channel
        }),
{
    let sent = c.search_sent(user, uuid, message);
    if c.searches.contains_key(user.0) && c.searches[user.0].1 == uuid {
        assert(sent.is_search_of(user.0, message));
    }
}

/// The message of a search that ended goes into the pool; the search is forgotten, unless a newer
/// one has taken its place.
pub proof fn law_ended_search_is_forgotten(
    c: ContextView,
    user: UserId,
    uuid: u128,
    message: MessageId,
    other: u64,
)
    ensures
        ({
            let ended = c.search_ended(user, uuid, message);
            let stands = c.searches.contains_key(user.0) && c.searches[user.0].1 == uuid;
            &&& ended.pool == c.pool.push(message)
            &&& stands ==> !ended.searches.contains_key(user.0)
            &&& !stands ==> ended.searches == c.searches
            &&& other != user.0 ==> (ended.searches.contains_key(other)
                <==> c.searches.contains_key(other)) && ended.searches[other] == c.searches[other]
            &&& ended.main == c.main && ended.id == c.id && ended.channel == c.channel
        }),
{
}

/// A search that is dropped is forgotten, and its message, if it has one, goes into the pool.
pub proof fn law_dropped_search_is_forgotten(c: ContextView, user: UserId, other: u64)
    ensures
        ({
            let dropped = c.search_dropped(user);
            &&& !dropped.searches.contains_key(user.0)
            &&& c.searches.contains_key(user.0) && c.searches[user.0].0 is Some ==> dropped.pool
                == c.pool.push(c.searches[user.0].0->0)
            &&& !c.searches.contains_key(user.0) || c.searches[user.0].0 is None ==> dropped.pool
                == c.pool
            &&& other != user.0 ==> (dropped.searches.contains_key(other)
                <==> c.searches.contains_key(other)) && dropped.searches[other] == c.searches[other]
            &&& dropped.main == c.main && dropped.id == c.id && dropped.channel == c.channel
        }),
{
}

/// The main message is needed, and so is the message of every search; nothing else is.
pub proof fn law_needed_messages(c: ContextView, user: u64, message: MessageId)
    ensures
        (c.main matches Some((id, _)) && id == message) ==> c.is_needed(message),
        c.searches.contains_key(user) && c.searches[user].0 == Some(message) ==> c.is_needed(
            message,
        ),
        !(c.main matches Some((id, _)) && id == message) && (forall|u: u64| #[trigger]
            c.searches.contains_key(u) ==> c.searches[u].0 != Some(message)) ==> !c.is_needed(
            message,
        ),
{
    if c.searches.contains_key(user) && c.searches[user].0 == Some(message) {
        assert(c.is_search_of(user, message));
    }
}

/// A search is somebody's from its beginning; it is then nobody else's search, and one under another
/// number is another. Once it was dropped, and nobody else has the number, it is nobody's.
pub proof fn law_begun_searches_are_somebodys(c: ContextView, user: UserId, uuid: u128, other: u128)
    ensures
        c.search_begun(user, uuid).is_anybodys(uuid),
        !c.search_begun(user, uuid).searches_otherwise(user, uuid),
        other != uuid ==> c.search_begun(user, uuid).searches_otherwise(user, other),
        !c.searches.contains_key(user.0) ==> !c.searches_otherwise(user, uuid),
        !c.is_anybodys(uuid) ==> !c.search_dropped(user).is_anybodys(uuid),
        (forall|u: u64| #[trigger] c.searches.contains_key(u) ==> c.searches[u].1 != uuid)
            ==> !c.is_anybodys(uuid),
{
    assert(c.search_begun(user, uuid).searches_with(user, uuid));
    if !c.is_anybodys(uuid) && c.search_dropped(user).is_anybodys(uuid) {
        let who = choose|who: UserId| #[trigger] c.search_dropped(user).searches_with(who, uuid);
        assert(c.searches_with(who, uuid));
    }
}

/// Emptying the pool leaves nothing in it, and all else as it is.
pub proof fn law_drained_pool_is_empty(c: ContextView)
    ensures
        c.drained().pool.len() == 0,
        c.drained().searches == c.searches,
        c.drained().main == c.main,
        c.drained().id == c.id,
        c.drained().channel == c.channel,
{
}

} // verus!
