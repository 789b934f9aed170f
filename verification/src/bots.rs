//! The bots that serve together, and what their caches say of who is where.
//!
//! The connections of a bot and its cache live outside. A bot is known here by its account and by
//! the number under which its connections are kept. A question about the caches takes what each of
//! them holds on the matter, in the order of the bots.
use crate::discord::VoiceState;
use crate::ids::{ChannelId, GuildId, UserId};
use vstd::prelude::*;

verus! {

/// A bot: its account, and the number under which its connections are kept.
#[derive(Clone, Copy, Debug, PartialEq, Eq, Structural)]
pub struct Bot {
    id: UserId,
    connections: usize,
}

impl Bot {
    pub closed spec fn spec_id(self) -> UserId {
        self.id
    }

    pub closed spec fn spec_connections(self) -> usize {
        self.connections
    }

    /// A bot with the given account and connections.
    pub fn new(id: UserId, connections: usize) -> (r: Bot)
        ensures
            r.spec_id() == id,
            r.spec_connections() == connections,
    {
        Bot { id, connections }
    }

    /// The account.
    pub fn id(&self) -> (r: UserId)
        ensures
            r == self.spec_id(),
    {
        self.id
    }

    /// The number under which the connections are kept.
    pub fn connections(&self) -> (r: usize)
        ensures
            r == self.spec_connections(),
    {
        self.connections
    }
}

/// Why a bot could not be added.
#[derive(Debug)]
pub enum BotError {
    DuplicateBotEntry(UserId),
    /// Discord refused the bot.
    Serenity(String),
    /// The bot has no voice gateway.
    Songbird(UserId),
}

/// An account's voice connection in a guild, as a cache holds it, and whether the cache knows the
/// account to be a bot's.
#[derive(Clone, Copy, Debug)]
pub struct Present {
    pub user: UserId,
    pub channel: Option<ChannelId>,
    pub is_bot: Option<bool>,
}

impl Present {
    /// Whether this is somebody in the channel who is known not to be a bot.
    pub open spec fn is_person_in(self, channel: ChannelId) -> bool {
        self.channel == Some(channel) && self.is_bot == Some(false)
    }
}

/// Whether a list names a person in the channel.
pub open spec fn has_person(present: Seq<Present>, channel: ChannelId) -> bool {
    exists|i: int| 0 <= i < present.len() && (#[trigger] present[i]).is_person_in(channel)
}

/// Whether a list names a person in the channel.
fn person_present(present: &Vec<Present>, channel: ChannelId) -> (r: bool)
    ensures
        r == has_person(present@, channel),
{
    let mut i: usize = 0;
    while i < present.len()
        invariant
            i <= present@.len(),
            forall|j: int| 0 <= j < i ==> !(#[trigger] present@[j]).is_person_in(channel),
        decreases present.len() - i,
    {
        if let (Some(at), Some(is_bot)) = (present[i].channel, present[i].is_bot) {
            if at == channel && !is_bot {
                assert(present@[i as int].is_person_in(channel));
                return true;
            }
        }
        i += 1;
    }
    false
}

/// Whether a voice state is the first of a user in a list.
pub open spec fn first_state_of(states: Seq<VoiceState>, i: int, user: UserId) -> bool {
    &&& 0 <= i < states.len()
    &&& states[i].user_id == user
    &&& forall|j: int| 0 <= j < i ==> (#[trigger] states[j]).user_id != user
}

/// Whether a list has a voice state of a user.
pub open spec fn has_state_of(states: Seq<VoiceState>, user: UserId) -> bool {
    exists|i: int| 0 <= i < states.len() && (#[trigger] states[i]).user_id == user
}

/// The first voice state of a user in a list.
fn find_state(states: &Vec<VoiceState>, user: UserId) -> (r: Option<&VoiceState>)
    ensures
        match r {
            Some(state) => exists|i: int|
                #[trigger] first_state_of(states@, i, user) && *state == states@[i],
            None => !has_state_of(states@, user),
        },
{
    let mut i: usize = 0;
    while i < states.len()
        invariant
            i <= states@.len(),
            forall|j: int| 0 <= j < i ==> (#[trigger] states@[j]).user_id != user,
        decreases states.len() - i,
    {
        if states[i].user_id == user {
            assert(first_state_of(states@, i as int, user));
            return Some(&states[i]);
        }
        i += 1;
    }
    None
}

/// All bots, in the order in which they were added.
pub struct BotMap {
    bots: Vec<Bot>,
}

impl View for BotMap {
    type V = Seq<Bot>;

    closed spec fn view(&self) -> Seq<Bot> {
        self.bots@
    }
}

/// Whether some bot has an account.
pub open spec fn has_bot(bots: Seq<Bot>, id: UserId) -> bool {
    exists|i: int| 0 <= i < bots.len() && (#[trigger] bots[i]).spec_id() == id
}

/// Whether no two bots share an account.
pub open spec fn distinct(bots: Seq<Bot>) -> bool {
    forall|i: int, j: int|
        0 <= i < j < bots.len() ==> (#[trigger] bots[i]).spec_id() != (
        #[trigger] bots[j]).spec_id()
}

/// The accounts of the bots.
pub open spec fn ids_of(bots: Seq<Bot>) -> Seq<UserId> {
    bots.map_values(|b: Bot| b.spec_id())
}

impl BotMap {
    /// No bots.
    pub fn new() -> (r: BotMap)
        ensures
            r@ == Seq::<Bot>::empty(),
            distinct(r@),
    {
        BotMap { bots: Vec::new() }
    }

    /// Adds a bot once it could be made. A second bot with the same account is refused.
    pub fn add_bot(&mut self, made: Result<Bot, BotError>) -> (r: Result<(), BotError>)
        requires
            distinct(old(self)@),
        ensures
            distinct(final(self)@),
            addition_taken(old(self)@, final(self)@, made, r),
    {
        match made {
            Err(e) => Err(e),
            Ok(bot) => {
                if self.contains_id(&bot.id) {
                    return Err(BotError::DuplicateBotEntry(bot.id));
                }
                self.bots.push(bot);
                Ok(())
            },
        }
    }

    /// Whether some bot has an account.
    pub fn contains_id(&self, bot: &UserId) -> (r: bool)
        ensures
            r == has_bot(self@, *bot),
    {
        self.get_bot_by_id(*bot).is_some()
    }

    /// The bot with an account.
    pub fn get_bot_by_id(&self, id: UserId) -> (r: Option<Bot>)
        ensures
            match r {
                Some(bot) => self@.contains(bot) && bot.spec_id() == id,
                None => !has_bot(self@, id),
            },
            r is Some ==> has_bot(self@, id),
    {
        let mut i: usize = 0;
        while i < self.bots.len()
            invariant
                i <= self.bots@.len(),
                forall|j: int| 0 <= j < i ==> (#[trigger] self.bots@[j]).spec_id() != id,
            decreases self.bots.len() - i,
        {
            if self.bots[i].id == id {
                assert(self@[i as int].spec_id() == id);
                return Some(self.bots[i]);
            }
            i += 1;
        }
        None
    }

    /// The number under which the connections of the bot with an account are kept.
    pub fn get_bot_cache_songbird(&self, id: &UserId) -> (r: Option<usize>)
        ensures
            r is Some <==> has_bot(self@, *id),
            r matches Some(n) ==> exists|bot: Bot| #[trigger]
                self@.contains(bot) && bot.spec_id() == *id && bot.spec_connections() == n,
    {
        match self.get_bot_by_id(*id) {
            Some(bot) => Some(bot.connections),
            None => None,
        }
    }

    /// All bots, in order.
    pub fn bots(&self) -> (r: Vec<Bot>)
        ensures
            r@ == self@,
    {
        self.bots.clone()
    }

    /// The accounts of all bots, in order.
    pub fn ids(&self) -> (r: Vec<UserId>)
        ensures
            r@ == ids_of(self@),
    {
        let mut r: Vec<UserId> = Vec::new();
        let mut i: usize = 0;
        while i < self.bots.len()
            invariant
                i <= self.bots@.len(),
                r@ == ids_of(self.bots@.take(i as int)),
            decreases self.bots.len() - i,
        {
            r.push(self.bots[i].id);
            i += 1;
            assert(r@ =~= ids_of(self.bots@.take(i as int)));
        }
        assert(self.bots@.take(i as int) =~= self.bots@);
        r
    }

    /// The first bot whose cache holds the guild, given for each bot whether its cache does.
    pub fn get_any_guild_bot(&self, cached: &Vec<bool>) -> (r: Option<Bot>)
        requires
            cached@.len() == self@.len(),
        ensures
            is_first_seeing(self@, cached@, r),
    {
        let mut i: usize = 0;
        while i < self.bots.len()
            invariant
                i <= self.bots@.len(),
                cached@.len() == self.bots@.len(),
                forall|j: int| 0 <= j < i ==> !(#[trigger] cached@[j]),
            decreases self.bots.len() - i,
        {
            if cached[i] {
                return Some(self.bots[i]);
            }
            i += 1;
        }
        None
    }

    /// A user's voice state in a guild, given for each bot what its cache holds of the guild's
    /// voice states. Only the first bot whose cache holds the guild is asked.
    pub fn get_user_voice_state(
        &self,
        user: &UserId,
        cached: &Vec<Option<Vec<VoiceState>>>,
    ) -> (r: Option<VoiceState>)
        ensures
            is_voice_state_of(cached@, *user, r),
    {
        let mut b: usize = 0;
        while b < cached.len()
            invariant
                b <= cached@.len(),
                forall|c: int| 0 <= c < b ==> (#[trigger] cached@[c]) is None,
            decreases cached.len() - b,
        {
            if let Some(states) = &cached[b] {
                assert(first_cached(cached@, b as int));
                return match find_state(states, *user) {
                    Some(state) => Some(state.clone()),
                    None => None,
                };
            }
            b += 1;
        }
        None
    }

    /// The first guild and voice channel that some cache knows a user to be in, given for each bot
    /// what its cache holds of each guild's voice states.
    pub fn get_any_user_voice_channel(
        &self,
        user: &UserId,
        cached: &Vec<Vec<(GuildId, Option<Vec<VoiceState>>)>>,
    ) -> (r: Option<(GuildId, ChannelId)>)
        ensures
            is_place_of(cached@, *user, r),
    {
        let mut b: usize = 0;
        while b < cached.len()
            invariant
                b <= cached@.len(),
                forall|c: int, h: int|
                    0 <= c < b && 0 <= h < cached@[c]@.len() ==> nowhere(
                        #[trigger] cached@[c]@[h].1,
                        *user,
                    ),
            decreases cached.len() - b,
        {
            let mut g: usize = 0;
            while g < cached[b].len()
                invariant
                    b < cached@.len(),
                    g <= cached@[b as int]@.len(),
                    forall|c: int, h: int|
                        0 <= c < b && 0 <= h < cached@[c]@.len() ==> nowhere(
                            #[trigger] cached@[c]@[h].1,
                            *user,
                        ),
                    forall|h: int|
                        0 <= h < g ==> nowhere(#[trigger] cached@[b as int]@[h].1, *user),
                decreases cached@[b as int]@.len() - g,
            {
                if let Some(states) = &cached[b][g].1 {
                    if let Some(state) = find_state(states, *user) {
                        if let Some(channel) = state.channel_id {
                            assert(in_voice(cached@[b as int]@[g as int].1, *user, channel));
                            return Some((cached[b][g].0, channel));
                        }
                    }
                }
                assert(nowhere(cached@[b as int]@[g as int].1, *user));
                g += 1;
            }
            b += 1;
        }
        None
    }

    /// Whether somebody who is not a bot is in a channel, given for each bot whose cache holds the
    /// guild whom it holds there.
    pub fn user_in_channel(
        &self,
        channel: &ChannelId,
        cached: &Vec<Option<Vec<Present>>>,
    ) -> (r: bool)
        ensures
            r == is_occupied(cached@, *channel),
    {
        let mut b: usize = 0;
        while b < cached.len()
            invariant
                b <= cached@.len(),
                forall|c: int|
                    0 <= c < b ==> !((#[trigger] cached@[c]) matches Some(present) && has_person(
                        present@,
                        *channel,
                    )),
            decreases cached.len() - b,
        {
            if let Some(present) = &cached[b] {
                if person_present(present, *channel) {
                    return true;
                }
            }
            b += 1;
        }
        false
    }

    /// Whether somebody who is not a bot is in a channel, as the cache of one bot holds it: there
    /// is no answer where the bot is not known, and nobody where its cache lacks the guild.
    pub fn user_in_channel_with_bot(
        &self,
        channel: &ChannelId,
        bot: UserId,
        cached: &Option<Vec<Present>>,
    ) -> (r: Option<bool>)
        ensures
            r == occupation_seen(self@, bot, *cached, *channel),
    {
        if !self.contains_id(&bot) {
            return None;
        }
        match cached {
            Some(present) => Some(person_present(present, *channel)),
            None => Some(false),
        }
    }
}

/// Whether a bot is the first whose cache holds the guild.
pub open spec fn first_cached(cached: Seq<Option<Vec<VoiceState>>>, b: int) -> bool {
    &&& 0 <= b < cached.len()
    &&& cached[b] is Some
    &&& forall|c: int| 0 <= c < b ==> (#[trigger] cached[c]) is None
}

/// Whether the voice states of a guild put a user into a channel.
pub open spec fn in_voice(
    states: Option<Vec<VoiceState>>,
    user: UserId,
    channel: ChannelId,
) -> bool {
    states matches Some(states) && exists|i: int|
        #[trigger] first_state_of(states@, i, user) && states@[i].channel_id == Some(channel)
}

/// Whether the voice states of a guild put a user into no channel.
pub open spec fn nowhere(states: Option<Vec<VoiceState>>, user: UserId) -> bool {
    forall|channel: ChannelId| !#[trigger] in_voice(states, user, channel)
}

/// No two bots ever share an account: adding one keeps the accounts apart, whether it succeeds or
/// not.
pub proof fn law_accounts_stay_distinct(bots: Seq<Bot>, bot: Bot)
    requires
        distinct(bots),
        !has_bot(bots, bot.spec_id()),
    ensures
        distinct(bots.push(bot)),
        ids_of(bots.push(bot)).no_duplicates(),
{
    let ids = ids_of(bots.push(bot));
    assert forall|i: int, j: int| 0 <= i < ids.len() && 0 <= j < ids.len() && i != j implies ids[i]
        != ids[j] by {
        if i < j {
            assert(bots.push(bot)[i].spec_id() != bots.push(bot)[j].spec_id());
        } else {
            assert(bots.push(bot)[j].spec_id() != bots.push(bot)[i].spec_id());
        }
    }
}

/// Somebody of two lists is a person in a channel where somebody of the first or of the second is.
/// A single one is where the channel is the one named and it is known to be no bot.
pub proof fn law_persons_are_seen(
    a: Seq<Present>,
    b: Seq<Present>,
    one: Present,
    channel: ChannelId,
)
    ensures
        has_person(a + b, channel) <==> has_person(a, channel) || has_person(b, channel),
        has_person(seq![one], channel) <==> one.channel == Some(channel) && one.is_bot == Some(
            false,
        ),
        !has_person(Seq::empty(), channel),
{
    let all = a + b;
    if has_person(a, channel) {
        let i = choose|i: int| 0 <= i < a.len() && (#[trigger] a[i]).is_person_in(channel);
        assert(all[i].is_person_in(channel));
    }
    if has_person(b, channel) {
        let i = choose|i: int| 0 <= i < b.len() && (#[trigger] b[i]).is_person_in(channel);
        assert(all[a.len() + i].is_person_in(channel));
    }
    if has_person(all, channel) {
        let i = choose|i: int| 0 <= i < all.len() && (#[trigger] all[i]).is_person_in(channel);
        if i < a.len() {
            assert(a[i].is_person_in(channel));
        } else {
            assert(b[i - a.len()].is_person_in(channel));
        }
    }
    assert(seq![one][0] == one);
}

/// The accounts of two lists are those of the first and then those of the second, and an account is
/// known where one of the bots has it.
pub proof fn law_accounts_are_those_of_the_bots(a: Seq<Bot>, b: Seq<Bot>, bot: Bot, id: UserId)
    ensures
        ids_of(a + b) == ids_of(a) + ids_of(b),
        ids_of(seq![bot]) == seq![bot.spec_id()],
        has_bot(a, id) <==> ids_of(a).contains(id),
{
    assert(ids_of(a + b) =~= ids_of(a) + ids_of(b));
    assert(ids_of(seq![bot]) =~= seq![bot.spec_id()]);
    if has_bot(a, id) {
        let i = choose|i: int| 0 <= i < a.len() && (#[trigger] a[i]).spec_id() == id;
        assert(ids_of(a)[i] == id);
    }
    if ids_of(a).contains(id) {
        let i = choose|i: int| 0 <= i < ids_of(a).len() && ids_of(a)[i] == id;
        assert(a[i].spec_id() == id);
    }
}

/// The first state of a user is the user's, and no state before it is; what it says is where the
/// user is, and the user is in one channel at most.
pub proof fn law_first_state_says_where(
    states: Vec<VoiceState>,
    i: int,
    k: int,
    user: UserId,
    channel: ChannelId,
)
    requires
        first_state_of(states@, i, user),
    ensures
        states@[i].user_id == user,
        0 <= k < states@.len() && states@[k].user_id == user ==> i <= k,
        in_voice(Some(states), user, channel) <==> states@[i].channel_id == Some(channel),
        nowhere(Some(states), user) <==> states@[i].channel_id is None,
{
    if in_voice(Some(states), user, channel) {
        let j = choose|j: int| #[trigger] first_state_of(states@, j, user)
            && states@[j].channel_id == Some(channel);
        assert(i == j) by {
            if i < j {
                assert(states@[i].user_id != user);
            }
            if j < i {
                assert(states@[j].user_id != user);
            }
        }
    }
    if let Some(there) = states@[i].channel_id {
        assert(in_voice(Some(states), user, there));
    } else {
        assert forall|other: ChannelId| !#[trigger] in_voice(Some(states), user, other) by {
            if in_voice(Some(states), user, other) {
                let j = choose|j: int| #[trigger] first_state_of(states@, j, user)
                    && states@[j].channel_id == Some(other);
                assert(i == j) by {
                    if i < j {
                        assert(states@[i].user_id != user);
                    }
                    if j < i {
                        assert(states@[j].user_id != user);
                    }
                }
            }
        }
    }
}

/// Who has no state is nowhere.
pub proof fn law_unseen_users_are_nowhere(
    states: Vec<VoiceState>,
    user: UserId,
    channel: ChannelId,
)
    ensures
        !in_voice(None, user, channel),
        (forall|k: int| 0 <= k < states@.len() ==> (#[trigger] states@[k]).user_id != user)
            ==> !in_voice(Some(states), user, channel) && !has_state_of(states@, user),
{
}

/// The first list that is cached is cached, and none before it is; there is only one such.
pub proof fn law_first_cached_list(cached: Seq<Option<Vec<VoiceState>>>, b: int, c: int)
    requires
        first_cached(cached, b),
    ensures
        cached[b] is Some,
        0 <= c < cached.len() && cached[c] is Some ==> b <= c,
        first_cached(cached, c) ==> c == b,
{
}

/// Whether a bot was added as it should: one whose account is there already is refused.
pub open spec fn addition_taken(
    before: Seq<Bot>,
    after: Seq<Bot>,
    made: Result<Bot, BotError>,
    r: Result<(), BotError>,
) -> bool {
    match made {
        Err(e) => r == Err::<(), BotError>(e) && after == before,
        Ok(bot) => if has_bot(before, bot.spec_id()) {
            r == Err::<(), BotError>(BotError::DuplicateBotEntry(bot.spec_id())) && after == before
        } else {
            r is Ok && after == before.push(bot)
        },
    }
}

/// Whether a person is in a channel, as some bot sees it.
pub open spec fn is_occupied(cached: Seq<Option<Vec<Present>>>, channel: ChannelId) -> bool {
    exists|b: int|
        0 <= b < cached.len() && (#[trigger] cached[b] matches Some(present) && has_person(
            present@,
            channel,
        ))
}

/// Whether a person is in a channel, as one bot sees it; nothing where the bot is not known.
pub open spec fn occupation_seen(
    bots: Seq<Bot>,
    bot: UserId,
    cached: Option<Vec<Present>>,
    channel: ChannelId,
) -> Option<bool> {
    if has_bot(bots, bot) {
        Some(
            match cached {
                Some(present) => has_person(present@, channel),
                None => false,
            },
        )
    } else {
        None
    }
}

/// A bot that was added is the last, and its account is known; one whose account was known already,
/// or that was not made, is not added, and the error says why.
pub proof fn law_bots_are_added_once(
    before: Seq<Bot>,
    after: Seq<Bot>,
    bot: Bot,
    error: BotError,
    r: Result<(), BotError>,
)
    ensures
        addition_taken(before, after, Ok(bot), r) && !has_bot(before, bot.spec_id()) ==> r is Ok
            && after == before + seq![bot] && has_bot(after, bot.spec_id()),
        addition_taken(before, after, Ok(bot), r) && has_bot(before, bot.spec_id()) ==> r == Err::<
            (),
            BotError,
        >(BotError::DuplicateBotEntry(bot.spec_id())) && after == before,
        addition_taken(before, after, Err(error), r) ==> r == Err::<(), BotError>(error) && after
            == before,
{
    if addition_taken(before, after, Ok(bot), r) && !has_bot(before, bot.spec_id()) {
        assert(after =~= before + seq![bot]);
        assert(after[before.len() as int].spec_id() == bot.spec_id());
    }
}

/// A channel is occupied where some bot sees a person there, whoever else sees nothing.
pub proof fn law_one_sight_is_enough(
    a: Seq<Option<Vec<Present>>>,
    b: Seq<Option<Vec<Present>>>,
    present: Vec<Present>,
    channel: ChannelId,
)
    ensures
        is_occupied(a + b, channel) <==> is_occupied(a, channel) || is_occupied(b, channel),
        is_occupied(seq![Some(present)], channel) <==> has_person(present@, channel),
        !is_occupied(seq![None], channel),
        !is_occupied(Seq::empty(), channel),
{
    let all = a + b;
    if is_occupied(a, channel) {
        let i = choose|i: int|
            0 <= i < a.len() && (#[trigger] a[i] matches Some(p) && has_person(p@, channel));
        assert(all[i] == a[i]);
    }
    if is_occupied(b, channel) {
        let i = choose|i: int|
            0 <= i < b.len() && (#[trigger] b[i] matches Some(p) && has_person(p@, channel));
        assert(all[a.len() + i] == b[i]);
    }
    if is_occupied(all, channel) {
        let i = choose|i: int|
            0 <= i < all.len() && (#[trigger] all[i] matches Some(p) && has_person(p@, channel));
        if i < a.len() {
            assert(a[i] == all[i]);
        } else {
            assert(b[i - a.len()] == all[i]);
        }
    }
    assert(seq![Some(present)][0] == Some(present));
}

/// A known bot says whether a person is in a channel, and sees nobody where nothing is cached; an
/// unknown bot says nothing.
pub proof fn law_known_bots_say_who_is_there(
    bots: Seq<Bot>,
    bot: UserId,
    present: Vec<Present>,
    channel: ChannelId,
)
    ensures
        has_bot(bots, bot) ==> occupation_seen(bots, bot, Some(present), channel) == Some(
            has_person(present@, channel),
        ) && occupation_seen(bots, bot, None, channel) == Some(false),
        !has_bot(bots, bot) ==> occupation_seen(bots, bot, Some(present), channel) is None
            && occupation_seen(bots, bot, None, channel) is None,
{
}

/// Whether a bot is the first that sees a guild, or none does.
pub open spec fn is_first_seeing(bots: Seq<Bot>, cached: Seq<bool>, r: Option<Bot>) -> bool {
    match r {
        Some(bot) => exists|i: int|
            0 <= i < bots.len() && #[trigger] cached[i] && bot == bots[i] && (forall|j: int|
                0 <= j < i ==> !(#[trigger] cached[j])),
        None => forall|i: int| 0 <= i < bots.len() ==> !(#[trigger] cached[i]),
    }
}

/// Whether a voice state is a user's first in the first list that is cached, or there is none.
pub open spec fn is_voice_state_of(
    cached: Seq<Option<Vec<VoiceState>>>,
    user: UserId,
    r: Option<VoiceState>,
) -> bool {
    match r {
        Some(state) => exists|b: int, i: int|
            #![trigger first_cached(cached, b), first_state_of(cached[b]->0@, i, user)]
            first_cached(cached, b) && first_state_of(cached[b]->0@, i, user) && state
                == cached[b]->0@[i],
        None => forall|b: int|
            #![trigger first_cached(cached, b)]
            first_cached(cached, b) ==> !has_state_of(cached[b]->0@, user),
    }
}

/// Whether a place is the first, over all bots and the guilds that each sees, that a user is in, or
/// the user is in none.
pub open spec fn is_place_of(
    cached: Seq<Vec<(GuildId, Option<Vec<VoiceState>>)>>,
    user: UserId,
    r: Option<(GuildId, ChannelId)>,
) -> bool {
    match r {
        Some((guild, channel)) => exists|b: int, g: int|
            #![trigger cached[b]@[g]]
            {
                &&& 0 <= b < cached.len()
                &&& 0 <= g < cached[b]@.len()
                &&& cached[b]@[g].0 == guild
                &&& in_voice(cached[b]@[g].1, user, channel)
                &&& forall|c: int, h: int|
                    0 <= c < cached.len() && 0 <= h < cached[c]@.len() && (c < b || c == b && h < g)
                        ==> nowhere(#[trigger] cached[c]@[h].1, user)
            },
        None => forall|b: int, g: int|
            0 <= b < cached.len() && 0 <= g < cached[b]@.len() ==> nowhere(
                #[trigger] cached[b]@[g].1,
                user,
            ),
    }
}

/// The first bot that sees the guild is the one that is found; none is only where none sees it.
pub proof fn law_first_bot_that_sees_is_found(
    bots: Seq<Bot>,
    cached: Seq<bool>,
    k: int,
    r: Option<Bot>,
)
    requires
        is_first_seeing(bots, cached, r),
        0 <= k < bots.len(),
    ensures
        cached[k] ==> r is Some,
        cached[k] && (forall|j: int| 0 <= j < k ==> !(#[trigger] cached[j])) ==> r == Some(bots[k]),
        (forall|j: int| 0 <= j < bots.len() ==> !(#[trigger] cached[j])) ==> r is None,
{
    if cached[k] && (forall|j: int| 0 <= j < k ==> !(#[trigger] cached[j])) {
        if let Some(bot) = r {
            let i = choose|i: int|
                0 <= i < bots.len() && #[trigger] cached[i] && bot == bots[i] && (forall|j: int|
                    0 <= j < i ==> !(#[trigger] cached[j]));
            if i < k {
                assert(!cached[i]);
            }
            if k < i {
                assert(!cached[k]);
            }
            assert(i == k);
        }
    }
}

/// A user's voice state is the first of that user in the first list that is cached, and there is none
/// where that list has none, or where no list is cached.
pub proof fn law_first_cached_list_says_where(
    cached: Seq<Option<Vec<VoiceState>>>,
    user: UserId,
    b: int,
    i: int,
    r: Option<VoiceState>,
)
    requires
        is_voice_state_of(cached, user, r),
    ensures
        first_cached(cached, b) && first_state_of(cached[b]->0@, i, user) ==> r == Some(
            cached[b]->0@[i],
        ),
        first_cached(cached, b) && (forall|k: int|
            0 <= k < cached[b]->0@.len() ==> (#[trigger] cached[b]->0@[k]).user_id != user) ==> r
            is None,
        (forall|c: int| 0 <= c < cached.len() ==> (#[trigger] cached[c]) is None) ==> r is None,
{
    if let Some(state) = r {
        let (c, k) = choose|c: int, k: int|
            #![trigger first_cached(cached, c), first_state_of(cached[c]->0@, k, user)]
            first_cached(cached, c) && first_state_of(cached[c]->0@, k, user) && state
                == cached[c]->0@[k];
        if first_cached(cached, b) {
            law_first_cached_list(cached, b, c);
            if first_state_of(cached[b]->0@, i, user) {
                if i < k {
                    assert(cached[b]->0@[i].user_id != user);
                }
                if k < i {
                    assert(cached[b]->0@[k].user_id != user);
                }
            }
        }
    } else if first_cached(cached, b) && first_state_of(cached[b]->0@, i, user) {
        assert(cached[b]->0@[i].user_id == user);
        assert(has_state_of(cached[b]->0@, user));
    }
}

/// Where a user is found, a bot sees the user there; a user whom some bot sees somewhere is found.
pub proof fn law_found_users_are_seen_there(
    cached: Seq<Vec<(GuildId, Option<Vec<VoiceState>>)>>,
    user: UserId,
    b: int,
    g: int,
    channel: ChannelId,
    r: Option<(GuildId, ChannelId)>,
)
    requires
        is_place_of(cached, user, r),
    ensures
        r matches Some((guild, place)) ==> exists|c: int, h: int|
            0 <= c < cached.len() && 0 <= h < cached[c]@.len() && (#[trigger] cached[c]@[h]).0
                == guild && in_voice(cached[c]@[h].1, user, place),
        0 <= b < cached.len() && 0 <= g < cached[b]@.len() && in_voice(
            cached[b]@[g].1,
            user,
            channel,
        ) ==> r is Some,
{
    if let Some((guild, place)) = r {
        let (c, h) = choose|c: int, h: int|
            #![trigger cached[c]@[h]]
            {
                &&& 0 <= c < cached.len()
                &&& 0 <= h < cached[c]@.len()
                &&& cached[c]@[h].0 == guild
                &&& in_voice(cached[c]@[h].1, user, place)
                &&& forall|e: int, f: int|
                    0 <= e < cached.len() && 0 <= f < cached[e]@.len() && (e < c || e == c && f < h)
                        ==> nowhere(#[trigger] cached[e]@[f].1, user)
            };
        assert(cached[c]@[h].0 == guild);
    } else if 0 <= b < cached.len() && 0 <= g < cached[b]@.len() && in_voice(
        cached[b]@[g].1,
        user,
        channel,
    ) {
        assert(nowhere(cached[b]@[g].1, user));
    }
}

/// The first place, bot by bot and guild by guild, in which a user is seen is where the user is found.
pub proof fn law_users_are_found_where_they_are_seen_first(
    cached: Seq<Vec<(GuildId, Option<Vec<VoiceState>>)>>,
    user: UserId,
    b: int,
    g: int,
    channel: ChannelId,
    r: Option<(GuildId, ChannelId)>,
)
    requires
        is_place_of(cached, user, r),
        0 <= b < cached.len(),
        0 <= g < cached[b]@.len(),
        in_voice(cached[b]@[g].1, user, channel),
        forall|c: int, h: int|
            0 <= c < cached.len() && 0 <= h < cached[c]@.len() && (c < b || c == b && h < g)
                ==> nowhere(#[trigger] cached[c]@[h].1, user),
    ensures
        r == Some((cached[b]@[g].0, channel)),
{
    law_found_users_are_seen_there(cached, user, b, g, channel, r);
    let (guild, place) = r->0;
    let (c, h) = choose|c: int, h: int|
        #![trigger cached[c]@[h]]
        {
            &&& 0 <= c < cached.len()
            &&& 0 <= h < cached[c]@.len()
            &&& cached[c]@[h].0 == guild
            &&& in_voice(cached[c]@[h].1, user, place)
            &&& forall|e: int, f: int|
                0 <= e < cached.len() && 0 <= f < cached[e]@.len() && (e < c || e == c && f < h)
                    ==> nowhere(#[trigger] cached[e]@[f].1, user)
        };
    if c < b || c == b && h < g {
        assert(nowhere(cached[c]@[h].1, user));
        assert(false);
    }
    if b < c || b == c && g < h {
        assert(nowhere(cached[b]@[g].1, user));
        assert(false);
    }
    assert(b == c && g == h);
    let states = cached[b]@[g].1->0;
    let i = choose|i: int|
        #[trigger] first_state_of(states@, i, user) && states@[i].channel_id == Some(channel);
    law_first_state_says_where(states, i, i, user, place);
}

} // verus!
