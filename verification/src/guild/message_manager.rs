//! The messages that the bot shows in a guild: searches to choose from, and the main message.
use crate::bots::{has_bot, Bot, BotMap};
use crate::context::{Context, ContextView};
use crate::discord::{Reaction, ReactionAction, ReactionType};
use crate::ids::{ChannelId, GuildId, MessageId, UserId};
use crate::player::{PlayState, PlayerState, PlayerView};
use crate::task_handle::{AddMessageReactionTask, DeleteMessageReactionTask, SendSearchMessage};
use crate::text::{
    build_code_block, clipped, code_block, decimal, push_clipped, push_decimal, push_two_digits,
    str_eq, two_digits,
};
use crate::time::{duration_nanos, max_nanos};
use crate::track::Track;
use std::time::Duration;
use uuid::Uuid;
use vstd::prelude::*;

verus! {

pub const NUMBERS: [&'static str; 11] = [
    "0️⃣",
    "1️⃣",
    "2️⃣",
    "3️⃣",
    "4️⃣",
    "5️⃣",
    "6️⃣",
    "7️⃣",
    "8️⃣",
    "9️⃣",
    "🔟",
];

pub const PLAY_PAUSE: &'static str = "⏯";

pub const NEXT: &'static str = "⏭";

pub const PREV: &'static str = "⏮";

pub const JOIN: &'static str = "📥";

pub const LEAVE: &'static str = "📤";

pub const DELETE: &'static str = "❌";

pub const LOOP_ONE: &'static str = "🔂";

pub const LOOP_ALL: &'static str = "🔁";

pub const NOTHING: &'static str = "無";

/// What an emote under a message stands for.
#[derive(Clone, Copy, Debug, PartialEq, Eq, Structural)]
pub enum EmoteAction {
    Number(usize),
    PlayPause(),
    Next(),
    Prev(),
    Join(),
    Leave(),
    Delete(),
    LoopOne(),
    LoopAll(),
    Nothing(),
}

impl EmoteAction {
    /// Whether there is an emote for the action. Numbers have one up to ten.
    pub open spec fn has_emote(self) -> bool {
        self matches EmoteAction::Number(n) ==> n <= 10
    }

    /// The emote of an action; without one, nothing.
    pub open spec fn symbol(self) -> Seq<char> {
        match self {
            EmoteAction::Number(n) => if n <= 10 {
                NUMBERS@[n as int]@
            } else {
                ""@
            },
            EmoteAction::PlayPause() => PLAY_PAUSE@,
            EmoteAction::Next() => NEXT@,
            EmoteAction::Prev() => PREV@,
            EmoteAction::Join() => JOIN@,
            EmoteAction::Leave() => LEAVE@,
            EmoteAction::Delete() => DELETE@,
            EmoteAction::LoopOne() => LOOP_ONE@,
            EmoteAction::LoopAll() => LOOP_ALL@,
            EmoteAction::Nothing() => NOTHING@,
        }
    }

    /// The emote of the action; without one, nothing.
    pub fn unicode(&self) -> (r: &'static str)
        ensures
            r@ == self.symbol(),
    {
        match self {
            EmoteAction::Number(n) => if *n <= 10 {
                NUMBERS[*n]
            } else {
                ""
            },
            EmoteAction::PlayPause() => PLAY_PAUSE,
            EmoteAction::Next() => NEXT,
            EmoteAction::Prev() => PREV,
            EmoteAction::Join() => JOIN,
            EmoteAction::Leave() => LEAVE,
            EmoteAction::Delete() => DELETE,
            EmoteAction::LoopOne() => LOOP_ONE,
            EmoteAction::LoopAll() => LOOP_ALL,
            EmoteAction::Nothing() => NOTHING,
        }
    }

    /// The reaction that shows the action's emote.
    pub fn reaction(&self) -> (r: ReactionType)
        ensures
            r.shows(self.symbol()),
    {
        ReactionType::Unicode(self.unicode().to_owned())
    }

    /// The action whose emote a text is.
    pub fn try_from(value: &str) -> (r: Result<EmoteAction, ()>)
        ensures
            match r {
                Ok(action) => action.has_emote() && action.symbol() == value@,
                Err(_) => forall|action: EmoteAction|
                    action.has_emote() ==> #[trigger] action.symbol() != value@,
            },
    {
        if str_eq(value, PLAY_PAUSE) {
            return Ok(EmoteAction::PlayPause());
        }
        if str_eq(value, NEXT) {
            return Ok(EmoteAction::Next());
        }
        if str_eq(value, PREV) {
            return Ok(EmoteAction::Prev());
        }
        if str_eq(value, JOIN) {
            return Ok(EmoteAction::Join());
        }
        if str_eq(value, LEAVE) {
            return Ok(EmoteAction::Leave());
        }
        if str_eq(value, DELETE) {
            return Ok(EmoteAction::Delete());
        }
        if str_eq(value, LOOP_ONE) {
            return Ok(EmoteAction::LoopOne());
        }
        if str_eq(value, LOOP_ALL) {
            return Ok(EmoteAction::LoopAll());
        }
        if str_eq(value, NOTHING) {
            return Ok(EmoteAction::Nothing());
        }
        let mut n: usize = 0;
        while n <= 10
            invariant
                n <= 11,
                forall|m: int| 0 <= m < n ==> NUMBERS@[m]@ != value@,
            decreases 11 - n,
        {
            if str_eq(value, NUMBERS[n]) {
                return Ok(EmoteAction::Number(n));
            }
            n += 1;
        }
        Err(())
    }

    /// The action whose emote a reaction shows.
    pub fn try_from_reaction(value: &Reaction) -> (r: Result<EmoteAction, ()>)
        ensures
            match r {
                Ok(action) => action.has_emote() && value.emoji.shows(action.symbol()),
                Err(_) => forall|action: EmoteAction|
                    action.has_emote() ==> !value.emoji.shows(#[trigger] action.symbol()),
            },
    {
        match &value.emoji {
            ReactionType::Unicode(s) => EmoteAction::try_from(s.as_str()),
            ReactionType::Custom(_, _, _) => Err(()),
        }
    }
}

/// The first character of a number's emote: the digit itself, or that of the key cap for ten.
proof fn lemma_number_emote(n: usize)
    requires
        n <= 10,
    ensures
        NUMBERS@[n as int]@.len() > 0,
        n < 10 ==> NUMBERS@[n as int]@[0] as nat == 48 + n,
        n == 10 ==> NUMBERS@[n as int]@[0] == '🔟',
{
    if n == 0 {
        reveal_strlit("0️⃣");
        assert(NUMBERS@[0]@ == "0️⃣"@);
    }
    if n == 1 {
        reveal_strlit("1️⃣");
        assert(NUMBERS@[1]@ == "1️⃣"@);
    }
    if n == 2 {
        reveal_strlit("2️⃣");
        assert(NUMBERS@[2]@ == "2️⃣"@);
    }
    if n == 3 {
        reveal_strlit("3️⃣");
        assert(NUMBERS@[3]@ == "3️⃣"@);
    }
    if n == 4 {
        reveal_strlit("4️⃣");
        assert(NUMBERS@[4]@ == "4️⃣"@);
    }
    if n == 5 {
        reveal_strlit("5️⃣");
        assert(NUMBERS@[5]@ == "5️⃣"@);
    }
    if n == 6 {
        reveal_strlit("6️⃣");
        assert(NUMBERS@[6]@ == "6️⃣"@);
    }
    if n == 7 {
        reveal_strlit("7️⃣");
        assert(NUMBERS@[7]@ == "7️⃣"@);
    }
    if n == 8 {
        reveal_strlit("8️⃣");
        assert(NUMBERS@[8]@ == "8️⃣"@);
    }
    if n == 9 {
        reveal_strlit("9️⃣");
        assert(NUMBERS@[9]@ == "9️⃣"@);
    }
    if n == 10 {
        reveal_strlit("🔟");
        assert(NUMBERS@[10]@ == "🔟"@);
    }
}

/// The first character of an emote that is no number's.
proof fn lemma_plain_emote(action: EmoteAction)
    requires
        !(action is Number),
    ensures
        action.symbol().len() > 0,
        action.symbol()[0] == match action {
            EmoteAction::PlayPause() => '⏯',
            EmoteAction::Next() => '⏭',
            EmoteAction::Prev() => '⏮',
            EmoteAction::Join() => '📥',
            EmoteAction::Leave() => '📤',
            EmoteAction::Delete() => '❌',
            EmoteAction::LoopOne() => '🔂',
            EmoteAction::LoopAll() => '🔁',
            _ => '無',
        },
{
    reveal_strlit("⏯");
    reveal_strlit("⏭");
    reveal_strlit("⏮");
    reveal_strlit("📥");
    reveal_strlit("📤");
    reveal_strlit("❌");
    reveal_strlit("🔂");
    reveal_strlit("🔁");
    reveal_strlit("無");
}

/// No two actions share an emote, so that an emote read back is the action it was made from.
pub proof fn law_emotes_are_distinct(a: EmoteAction, b: EmoteAction)
    requires
        a.has_emote(),
        b.has_emote(),
        a.symbol() == b.symbol(),
    ensures
        a == b,
{
    match a {
        EmoteAction::Number(n) => lemma_number_emote(n),
        _ => lemma_plain_emote(a),
    }
    match b {
        EmoteAction::Number(n) => lemma_number_emote(n),
        _ => lemma_plain_emote(b),
    }
}

/// How many characters of a title are shown.
pub const SEARCH_TITLE_LIMIT: usize = 40;

/// How many tracks a search offers at most.
pub const SEARCH_CHOICES: usize = 10;

/// How many seconds a search waits for a choice.
pub const SEARCH_TIMEOUT_SECS: u64 = 60;

/// Why a message came to nothing.
#[derive(Debug)]
pub enum MessageError {
    SerenityError(String),
    NoBot(GuildId),
    NoShard(UserId),
    Timeout(),
    UnexpectedEnd(),
    Deleted(),
}

/// A track's title, or what stands in for it.
pub open spec fn title_of(track: Track, missing: Seq<char>) -> Seq<char> {
    match track.info {
        Some(info) => info.title@,
        None => missing,
    }
}

/// Appends at most so many characters of a track's title, or of what stands in for it.
fn push_title(out: &mut String, track: &Track, missing: &str)
    ensures
        final(out)@ == old(out)@ + clipped(title_of(*track, missing@), SEARCH_TITLE_LIMIT as nat),
{
    match &track.info {
        Some(info) => push_clipped(out, info.title.as_str(), SEARCH_TITLE_LIMIT),
        None => push_clipped(out, missing, SEARCH_TITLE_LIMIT),
    }
}

/// The first line of a search message: what was searched for, and by whom.
pub open spec fn search_header(query: Seq<char>, name: Seq<char>) -> Seq<char> {
    "["@ + clipped(query, SEARCH_TITLE_LIMIT as nat) + "] @"@ + name + "\r\n"@
}

/// The line of the track at a place, which counts from one there.
pub open spec fn search_line(tracks: Seq<Track>, i: int) -> Seq<char> {
    decimal((i + 1) as nat) + ": "@ + clipped(
        title_of(tracks[i], "Missing Name"@),
        SEARCH_TITLE_LIMIT as nat,
    ) + "\r\n"@
}

/// The lines of the first so many tracks.
pub open spec fn search_lines(tracks: Seq<Track>, n: nat) -> Seq<char>
    decreases n,
{
    if n == 0 {
        Seq::empty()
    } else {
        search_lines(tracks, (n - 1) as nat) + search_line(tracks, n - 1)
    }
}

/// How many tracks a search offers.
pub open spec fn choices(n: nat) -> nat {
    if n < SEARCH_CHOICES {
        n
    } else {
        SEARCH_CHOICES as nat
    }
}

/// The text of a search message.
pub open spec fn search_text(tracks: Seq<Track>, query: Seq<char>, name: Seq<char>) -> Seq<char> {
    code_block(search_header(query, name) + search_lines(tracks, choices(tracks.len())), "cs"@)
}

/// The emotes under a search message: a number for each track on offer, and the one that deletes.
pub open spec fn search_emotes(n: nat) -> Seq<EmoteAction> {
    Seq::new(choices(n), |i: int| EmoteAction::Number((i + 1) as usize)).push(EmoteAction::Delete())
}

/// Whether a reaction shows one of some emotes.
pub open spec fn is_among(emoji: ReactionType, emotes: Seq<EmoteAction>) -> bool {
    exists|i: int| 0 <= i < emotes.len() && emoji.shows((#[trigger] emotes[i]).symbol())
}

/// Whether a reaction shows one of some emotes.
fn shows_any(emoji: &ReactionType, emotes: &Vec<EmoteAction>) -> (r: bool)
    ensures
        r == is_among(*emoji, emotes@),
{
    let mut i: usize = 0;
    while i < emotes.len()
        invariant
            i <= emotes@.len(),
            forall|j: int| 0 <= j < i ==> !emoji.shows((#[trigger] emotes@[j]).symbol()),
        decreases emotes.len() - i,
    {
        if emoji.unicode_eq(emotes[i].unicode()) {
            return true;
        }
        i += 1;
    }
    false
}

/// `Uuid::new_v4`: a number that chance decides.
#[verifier::external_body]
fn new_uuid() -> u128 {
    Uuid::new_v4().as_u128()
}

/// A search whose message is being sent.
pub struct SearchMessage {
    requester: UserId,
    uuid: u128,
    tracks: Vec<Track>,
}

/// A search whose message waits for a choice.
pub struct SearchChoice {
    requester: UserId,
    uuid: u128,
    tracks: Vec<Track>,
    message: MessageId,
}

impl SearchMessage {
    pub closed spec fn spec_requester(self) -> UserId {
        self.requester
    }

    pub closed spec fn spec_uuid(self) -> u128 {
        self.uuid
    }

    pub closed spec fn spec_tracks(self) -> Seq<Track> {
        self.tracks@
    }

    /// Begins a search under a number that chance decides: see [`SearchMessage::begin`].
    pub fn search(
        context: &mut Context,
        tracks: Vec<Track>,
        requester: UserId,
        name: &str,
        query: &str,
    ) -> (r: (SearchMessage, bool, SendSearchMessage))
        ensures
            r.0.spec_requester() == requester,
            r.0.spec_tracks() == tracks@,
            final(context)@ == old(context)@.search_begun(requester, r.0.spec_uuid()),
            r.1 == (old(context)@.search_message_of(requester) is Some),
            r.2.channel == old(context)@.channel,
            r.2.uuid == r.0.spec_uuid(),
            r.2.text@ == search_text(tracks@, query@, name@),
    {
        let uuid: u128 = new_uuid();
        SearchMessage::begin(context, uuid, tracks, requester, name, query)
    }

    /// Begins a search under a number. Returns the search, whether the message of an earlier one
    /// is to be deleted, and the message to send.
    pub fn begin(
        context: &mut Context,
        uuid: u128,
        tracks: Vec<Track>,
        requester: UserId,
        name: &str,
        query: &str,
    ) -> (r: (SearchMessage, bool, SendSearchMessage))
        ensures
            r.0.spec_requester() == requester,
            r.0.spec_uuid() == uuid,
            r.0.spec_tracks() == tracks@,
            final(context)@ == old(context)@.search_begun(requester, uuid),
            r.1 == (old(context)@.search_message_of(requester) is Some),
            r.2.channel == old(context)@.channel,
            r.2.uuid == uuid,
            r.2.text@ == search_text(tracks@, query@, name@),
    {
        let delete = context.begin_search(requester, uuid);
        let text = SearchMessage::content(&tracks, query, name);
        let send = SendSearchMessage { channel: context.channel(), text, uuid };
        (SearchMessage { requester, uuid, tracks }, delete, send)
    }

    /// Takes the message that was sent, if one was. Without one, or where the user has begun
    /// another search meanwhile, the search is over; a message that was sent is then to be deleted.
    pub fn sent(self, context: &mut Context, message: Option<MessageId>) -> (r: Result<
        SearchChoice,
        MessageError,
    >)
        ensures
            search_recorded(self, old(context)@, final(context)@, message, r),
    {
        match message {
            None => Err(MessageError::Deleted()),
            Some(message) => if context.record_search(self.requester, self.uuid, message) {
                Ok(
                    SearchChoice {
                        requester: self.requester,
                        uuid: self.uuid,
                        tracks: self.tracks,
                        message,
                    },
                )
            } else {
                Err(MessageError::Deleted())
            },
        }
    }

    /// The text of a search message.
    pub fn content(tracks: &Vec<Track>, query: &str, name: &str) -> (r: String)
        ensures
            r@ == search_text(tracks@, query@, name@),
    {
        let mut content = "[".to_owned();
        push_clipped(&mut content, query, SEARCH_TITLE_LIMIT);
        content.append("] @");
        content.append(name);
        content.append("\r\n");
        assert(content@ =~= search_header(query@, name@));
        let mut i: usize = 0;
        assert(content@ =~= search_header(query@, name@) + search_lines(tracks@, 0));
        while i < tracks.len() && i < SEARCH_CHOICES
            invariant
                i <= choices(tracks@.len()),
                content@ == search_header(query@, name@) + search_lines(tracks@, i as nat),
            decreases tracks.len() - i,
        {
            let ghost before = content@;
            push_decimal(&mut content, (i + 1) as u64);
            content.append(": ");
            push_title(&mut content, &tracks[i], "Missing Name");
            content.append("\r\n");
            assert(content@ =~= before + search_line(tracks@, i as int));
            i += 1;
            assert(content@ =~= search_header(query@, name@) + search_lines(tracks@, i as nat));
        }
        build_code_block(content, "cs")
    }
}

/// Whether the message of a search was recorded as it should: without one, or where the user has
/// begun another search meanwhile, the search is over.
pub open spec fn search_recorded(
    search: SearchMessage,
    before: ContextView,
    after: ContextView,
    message: Option<MessageId>,
    r: Result<SearchChoice, MessageError>,
) -> bool {
    match message {
        None => {
            &&& r == Err::<SearchChoice, MessageError>(MessageError::Deleted())
            &&& after == before
        },
        Some(id) => {
            &&& after == before.search_sent(search.spec_requester(), search.spec_uuid(), id)
            &&& if before.searches_with(search.spec_requester(), search.spec_uuid()) {
                &&& r matches Ok(choice)
                &&& choice.spec_requester() == search.spec_requester()
                &&& choice.spec_uuid() == search.spec_uuid()
                &&& choice.spec_tracks() == search.spec_tracks()
                &&& choice.spec_message() == id
            } else {
                r == Err::<SearchChoice, MessageError>(MessageError::Deleted())
            }
        },
    }
}

/// Whether the emote to add after so many others was found as it should: none once all are there, or
/// once the user has begun another search.
pub open spec fn emote_offered(
    choice: SearchChoice,
    c: ContextView,
    added: int,
    r: Option<AddMessageReactionTask>,
) -> bool {
    let emotes = search_emotes(choice.spec_tracks().len());
    let replaced = c.searches.contains_key(choice.spec_requester().0)
        && c.searches[choice.spec_requester().0].1 != choice.spec_uuid();
    match r {
        Some(task) => {
            &&& added < emotes.len() && !replaced
            &&& task.channel == c.channel
            &&& task.message == choice.spec_message()
            &&& task.reaction.shows(emotes[added].symbol())
        },
        None => added >= emotes.len() || replaced,
    }
}

/// Whether a choice among tracks was taken as it should: a number chooses its track, and anything
/// else none.
pub open spec fn choice_taken(
    tracks: Seq<Track>,
    reaction: Option<Reaction>,
    r: Result<Track, MessageError>,
) -> bool {
    match r {
        Ok(track) => reaction matches Some(chosen) && exists|n: int|
            #![trigger tracks[n]]
            {
                &&& 0 <= n < choices(tracks.len())
                &&& chosen.emoji.shows(EmoteAction::Number((n + 1) as usize).symbol())
                &&& track == tracks[n]
            },
        Err(e) => e == MessageError::Timeout() && (reaction matches Some(chosen)
            ==> chosen.emoji.shows(EmoteAction::Delete().symbol())),
    }
}

impl SearchChoice {
    pub closed spec fn spec_requester(self) -> UserId {
        self.requester
    }

    pub closed spec fn spec_uuid(self) -> u128 {
        self.uuid
    }

    pub closed spec fn spec_tracks(self) -> Seq<Track> {
        self.tracks@
    }

    pub closed spec fn spec_message(self) -> MessageId {
        self.message
    }

    /// The message that waits for a choice.
    pub fn message(&self) -> (r: MessageId)
        ensures
            r == self.spec_message(),
    {
        self.message
    }

    /// Who is to choose.
    pub fn requester(&self) -> (r: UserId)
        ensures
            r == self.spec_requester(),
    {
        self.requester
    }

    /// The emotes under the message.
    pub fn emotes(&self) -> (r: Vec<EmoteAction>)
        ensures
            r@ == search_emotes(self.spec_tracks().len()),
    {
        let mut r: Vec<EmoteAction> = Vec::new();
        let mut i: usize = 0;
        while i < self.tracks.len() && i < SEARCH_CHOICES
            invariant
                i <= choices(self.tracks@.len()),
                r@ == Seq::new(i as nat, |j: int| EmoteAction::Number((j + 1) as usize)),
            decreases self.tracks.len() - i,
        {
            r.push(EmoteAction::Number(i + 1));
            i += 1;
            assert(r@ =~= Seq::new(i as nat, |j: int| EmoteAction::Number((j + 1) as usize)));
        }
        r.push(EmoteAction::Delete());
        r
    }

    /// Whether a reaction counts as a choice.
    pub fn accepts(&self, emoji: &ReactionType) -> (r: bool)
        ensures
            r == is_among(*emoji, search_emotes(self.spec_tracks().len())),
    {
        let emotes = self.emotes();
        shows_any(emoji, &emotes)
    }

    /// The emote to add next, after so many were added: none once all are there, or once the user
    /// has begun another search.
    pub fn next_emote(&self, context: &Context, added: usize) -> (r: Option<AddMessageReactionTask>)
        ensures
            emote_offered(*self, context@, added as int, r),
    {
        let emotes = self.emotes();
        if added >= emotes.len() || context.has_other_search(self.requester, self.uuid) {
            return None;
        }
        Some(
            AddMessageReactionTask {
                channel: context.channel(),
                message: self.message,
                reaction: emotes[added].reaction(),
            },
        )
    }

    /// Takes the user's choice, or that none came in time. The message is to be deleted, and the
    /// search is over. A number chooses its track; anything else chooses none, which counts as no
    /// choice in time.
    pub fn choose_track(&self, context: &mut Context, reaction: Option<Reaction>) -> (r: Result<
        Track,
        MessageError,
    >)
        requires
            reaction matches Some(chosen) ==> is_among(
                chosen.emoji,
                search_emotes(self.spec_tracks().len()),
            ),
        ensures
            final(context)@ == old(context)@.search_ended(
                self.spec_requester(),
                self.spec_uuid(),
                self.spec_message(),
            ),
            choice_taken(self.spec_tracks(), reaction, r),
    {
        let mut track: Option<Track> = None;
        if let Some(chosen) = &reaction {
            proof {
                let emotes = search_emotes(self.tracks@.len());
                let i = choose|i: int|
                    0 <= i < emotes.len() && chosen.emoji.shows((#[trigger] emotes[i]).symbol());
                assert(emotes[i].has_emote());
                assert forall|action: EmoteAction|
                    action.has_emote() && chosen.emoji.shows(
                        #[trigger] action.symbol(),
                    ) implies action == emotes[i] by {
                    law_emotes_are_distinct(action, emotes[i]);
                }
            }
            if let Ok(action) = EmoteAction::try_from_reaction(chosen) {
                if let EmoteAction::Number(n) = action {
                    track = Some(self.tracks[n - 1].clone());
                    assert(track == Some(self.spec_tracks()[n - 1]));
                }
            }
        }
        context.end_search(self.requester, self.uuid, self.message);
        match track {
            Some(track) => Ok(track),
            None => Err(MessageError::Timeout()),
        }
    }
}

/// A choice stands for one track: no emote under a search message chooses two.
pub proof fn law_choice_is_unique(emoji: ReactionType, tracks: nat, i: int, j: int)
    requires
        0 <= i < search_emotes(tracks).len(),
        0 <= j < search_emotes(tracks).len(),
        emoji.shows(search_emotes(tracks)[i].symbol()),
        emoji.shows(search_emotes(tracks)[j].symbol()),
    ensures
        i == j,
{
    law_emotes_are_distinct(search_emotes(tracks)[i], search_emotes(tracks)[j]);
}

/// The emotes under the main message, in order.
pub open spec fn main_emotes() -> Seq<EmoteAction> {
    seq![
        EmoteAction::Prev(),
        EmoteAction::PlayPause(),
        EmoteAction::Next(),
        EmoteAction::LoopOne(),
        EmoteAction::LoopAll(),
        EmoteAction::Join(),
        EmoteAction::Leave(),
    ]
}

/// A length of time in whole seconds as it is shown: hours where there are any, minutes and
/// seconds, each with at least two digits.
pub open spec fn clock(secs: nat) -> Seq<char> {
    let hours = secs / 60 / 60;
    let minutes = secs / 60 % 60;
    (if hours > 0 {
        two_digits(hours) + ":"@
    } else {
        Seq::empty()
    }) + two_digits(minutes) + ":"@ + two_digits(secs % 60)
}

/// The three numbers that are shown of a length of time make up the whole of it.
pub proof fn law_clock_loses_no_second(secs: nat)
    ensures
        secs == (secs / 60 / 60) * 3600 + (secs / 60 % 60) * 60 + secs % 60,
        secs / 60 % 60 < 60,
        secs % 60 < 60,
{
}

/// A player as the main message shows it. The name is missing where the bot is not known or not
/// seen in the guild; the labels say whether the player runs and what it repeats.
pub struct Shown {
    pub name: Option<String>,
    pub state: PlayerState,
    /// How long ago the position was taken.
    pub elapsed: Duration,
    pub play_label: String,
    pub mode_label: String,
}

/// Where playback stands: a player that runs has moved on since the position was taken.
pub open spec fn position_nanos(shown: Shown, position: Duration) -> nat {
    if shown.state.play_state == PlayState::Play {
        duration_nanos(position) + duration_nanos(shown.elapsed)
    } else {
        duration_nanos(position)
    }
}

/// Whether where playback stands is a length of time at all.
pub open spec fn position_fits(shown: Shown) -> bool {
    shown.state.current matches Some((position, _)) ==> position_nanos(shown, position)
        <= max_nanos()
}

/// The line that names a player.
pub open spec fn player_header(shown: Shown, name: Seq<char>) -> Seq<char> {
    "["@ + name + "]"@ + if shown.state@.current is None && shown.state@.playlist.len() == 0 {
        " No Song in Playlist\r\n"@
    } else {
        " "@ + shown.play_label@ + shown.mode_label@ + "\r\n"@
    }
}

/// The line of the track that plays.
pub open spec fn current_line(shown: Shown, position: Duration, track: Track) -> Seq<char> {
    clipped(title_of(track, "No Track Name"@), SEARCH_TITLE_LIMIT as nat) + " ["@ + clock(
        position_nanos(shown, position) / 1_000_000_000,
    ) + "/"@ + (match track.info {
        Some(info) => clock(info.length as nat / 1000),
        None => "--:--"@,
    }) + "]\r\n"@
}

/// The line of a queued track, whose place counts from one there.
pub open spec fn queued_line(playlist: Seq<Track>, i: int) -> Seq<char> {
    "["@ + decimal((i + 1) as nat) + "] "@ + clipped(
        title_of(playlist[i], "No Track Name"@),
        SEARCH_TITLE_LIMIT as nat,
    ) + "\r\n"@
}

/// The lines of the first so many queued tracks.
pub open spec fn queued_lines(playlist: Seq<Track>, n: nat) -> Seq<char>
    decreases n,
{
    if n == 0 {
        Seq::empty()
    } else {
        queued_lines(playlist, (n - 1) as nat) + queued_line(playlist, n - 1)
    }
}

/// How many queued tracks are shown.
pub open spec fn shown_tracks(n: nat) -> nat {
    if n < 2 {
        n
    } else {
        2
    }
}

/// What the main message shows of a player: nothing where it has no name.
pub open spec fn player_block(shown: Shown) -> Seq<char> {
    match shown.name {
        None => Seq::empty(),
        Some(name) => player_header(shown, name@) + (match shown.state.current {
            Some((position, track)) => current_line(shown, position, track),
            None => Seq::empty(),
        }) + queued_lines(shown.state@.playlist, shown_tracks(shown.state@.playlist.len()))
            + "\r\n"@,
    }
}

/// What the main message shows of the players, in order.
pub open spec fn player_blocks(players: Seq<Shown>) -> Seq<char>
    decreases players.len(),
{
    if players.len() == 0 {
        Seq::empty()
    } else {
        player_blocks(players.drop_last()) + player_block(players.last())
    }
}

/// The text of the main message.
pub open spec fn main_text(players: Seq<Shown>) -> Seq<char> {
    "```cs\r\n"@ + player_blocks(players) + (if exists|i: int|
        0 <= i < players.len() && (#[trigger] players[i]).name is Some {
        Seq::empty()
    } else {
        "[No active Player]"@
    }) + "```"@
}

/// A reply of the outside world while a main message is made.
pub enum NewReply {
    /// Some bot that sees the guild.
    Bot(Option<UserId>),
    /// Whether there is a shard for the bot and the guild.
    Shard(UserId, bool),
    /// Discord took the message, or refused it.
    Sent(Result<MainMessage, String>),
}

/// What follows.
pub enum NewNext {
    FindShard(UserId),
    SendMessage(UserId),
    Done(Result<MainMessage, MessageError>),
}

/// What a reaction to the main message leads to.
pub enum ReactionNext {
    Ignore,
    /// The guild hears of the action, if the emote stands for one, and the reaction is taken away.
    Handle(Option<(EmoteAction, UserId)>, DeleteMessageReactionTask),
    /// The emotes are checked.
    EmoteCheck,
    /// The emotes are put up anew.
    Rebuild,
}

/// The main message of a guild, with the text it shows.
pub struct MainMessage {
    pub message: MessageId,
    pub channel: ChannelId,
    pub content: String,
}

/// How the making of a main message goes on.
pub open spec fn making_goes_on(guild: GuildId, reply: NewReply) -> NewNext {
    match reply {
        NewReply::Bot(Some(bot)) => NewNext::FindShard(bot),
        NewReply::Bot(None) => NewNext::Done(Err(MessageError::NoBot(guild))),
        NewReply::Shard(bot, true) => NewNext::SendMessage(bot),
        NewReply::Shard(bot, false) => NewNext::Done(Err(MessageError::NoShard(bot))),
        NewReply::Sent(Ok(message)) => NewNext::Done(Ok(message)),
        NewReply::Sent(Err(e)) => NewNext::Done(Err(MessageError::SerenityError(e))),
    }
}

/// Whether a reaction under the main message was taken as it should: what a user adds is taken away
/// again, and handled where it is an emote.
pub open spec fn reaction_taken(bots: Seq<Bot>, action: ReactionAction, r: ReactionNext) -> bool {
    match action {
        ReactionAction::Added(reaction) => match reaction.user_id {
            None => r is EmoteCheck,
            Some(user) => if has_bot(bots, user) {
                r is Ignore
            } else {
                &&& r matches ReactionNext::Handle(event, delete)
                &&& delete.channel == reaction.channel_id
                &&& delete.message == reaction.message_id
                &&& delete.user == user
                &&& delete.reaction == reaction.emoji
                &&& match event {
                    Some((emote, who)) => who == user && emote.has_emote() && reaction.emoji.shows(
                        emote.symbol(),
                    ),
                    None => forall|emote: EmoteAction|
                        emote.has_emote() ==> !reaction.emoji.shows(#[trigger] emote.symbol()),
                }
            },
        },
        ReactionAction::Removed(reaction) => match reaction.user_id {
            Some(user) if has_bot(bots, user) => r is Rebuild,
            _ => r is EmoteCheck,
        },
    }
}

/// Whether a message that shows a text is edited to show another exactly where the two differ.
pub open spec fn update_needed(shown: Seq<char>, content: Seq<char>, r: Option<String>) -> bool {
    match r {
        Some(text) => text@ == content && shown != content,
        None => shown == content,
    }
}

/// What a message shows after an attempt to edit it.
pub open spec fn content_after(shown: Seq<char>, content: Seq<char>, edited: bool) -> Seq<char> {
    if edited {
        content
    } else {
        shown
    }
}

/// Whether a message is still the main message after an attempt to edit it, given which message is
/// the official one.
pub open spec fn stays_main(message: MessageId, edited: bool, official: Option<MessageId>) -> bool {
    edited || official is None || official == Some(message)
}

impl MainMessage {
    /// The emotes under the main message, in order.
    pub fn emotes() -> (r: Vec<EmoteAction>)
        ensures
            r@ == main_emotes(),
    {
        let mut r: Vec<EmoteAction> = Vec::new();
        r.push(EmoteAction::Prev());
        r.push(EmoteAction::PlayPause());
        r.push(EmoteAction::Next());
        r.push(EmoteAction::LoopOne());
        r.push(EmoteAction::LoopAll());
        r.push(EmoteAction::Join());
        r.push(EmoteAction::Leave());
        assert(r@ =~= main_emotes());
        r
    }

    /// Makes a main message: some bot has to see the guild, it needs a shard, and Discord has to
    /// take the message. The first that fails ends it.
    pub fn new(guild: GuildId, reply: NewReply) -> (r: NewNext)
        ensures
            r == making_goes_on(guild, reply),
    {
        match reply {
            NewReply::Bot(Some(bot)) => NewNext::FindShard(bot),
            NewReply::Bot(None) => NewNext::Done(Err(MessageError::NoBot(guild))),
            NewReply::Shard(bot, found) => if found {
                NewNext::SendMessage(bot)
            } else {
                NewNext::Done(Err(MessageError::NoShard(bot)))
            },
            NewReply::Sent(Ok(message)) => NewNext::Done(Ok(message)),
            NewReply::Sent(Err(e)) => NewNext::Done(Err(MessageError::SerenityError(e))),
        }
    }

    /// What a reaction leads to. A reaction of a bot is passed over, and if one goes missing the
    /// emotes are put up anew. A user's reaction is taken away, and the guild hears of what it
    /// stands for. In all other cases the emotes are checked.
    pub fn run(bots: &BotMap, action: &ReactionAction) -> (r: ReactionNext)
        ensures
            reaction_taken(bots@, *action, r),
    {
        match action {
            ReactionAction::Added(reaction) => match reaction.user_id {
                None => ReactionNext::EmoteCheck,
                Some(user) => {
                    if bots.contains_id(&user) {
                        return ReactionNext::Ignore;
                    }
                    let event = match EmoteAction::try_from_reaction(reaction) {
                        Ok(emote) => Some((emote, user)),
                        Err(_) => None,
                    };
                    ReactionNext::Handle(
                        event,
                        DeleteMessageReactionTask {
                            channel: reaction.channel_id,
                            message: reaction.message_id,
                            user,
                            reaction: reaction.emoji.clone(),
                        },
                    )
                },
            },
            ReactionAction::Removed(reaction) => match reaction.user_id {
                Some(user) => if bots.contains_id(&user) {
                    ReactionNext::Rebuild
                } else {
                    ReactionNext::EmoteCheck
                },
                None => ReactionNext::EmoteCheck,
            },
        }
    }

    /// The message.
    pub fn message_id(&self) -> (r: MessageId)
        ensures
            r == self.message,
    {
        self.message
    }

    /// The channel of the message.
    pub fn channel_id(&self) -> (r: ChannelId)
        ensures
            r == self.channel,
    {
        self.channel
    }

    /// The text that the message is to be edited to, unless it shows that already.
    pub fn update(&self, content: &str) -> (r: Option<String>)
        ensures
            update_needed(self.content@, content@, r),
    {
        if str_eq(self.content.as_str(), content) {
            None
        } else {
            Some(content.to_owned())
        }
    }

    /// Takes what an edit came to. Returns whether the message is kept up to date further: it is
    /// not where an edit failed and another message has become the guild's main message.
    pub fn edited(
        &mut self,
        content: String,
        result: Result<(), String>,
        official: Option<MessageId>,
    ) -> (r: bool)
        ensures
            final(self).message == old(self).message,
            final(self).channel == old(self).channel,
            final(self).content@ == content_after(old(self).content@, content@, result is Ok),
            r == stays_main(old(self).message, result is Ok, official),
    {
        match result {
            Ok(_) => {
                self.content = content;
                true
            },
            Err(_) => match official {
                Some(message) => message == self.message,
                None => true,
            },
        }
    }

    /// Whether an emote is missing among the reactions that the message has.
    pub fn is_missing_emote(reactions: &Vec<ReactionType>) -> (r: bool)
        ensures
            r == misses_emote(reactions@),
    {
        let emotes = MainMessage::emotes();
        let mut i: usize = 0;
        while i < emotes.len()
            invariant
                emotes@ == main_emotes(),
                i <= emotes@.len(),
                forall|j: int| 0 <= j < i ==> has_reaction(reactions@, #[trigger] main_emotes()[j]),
            decreases emotes.len() - i,
        {
            let mut found = false;
            let mut k: usize = 0;
            while k < reactions.len()
                invariant
                    i < emotes@.len(),
                    emotes@ == main_emotes(),
                    k <= reactions@.len(),
                    found == exists|j: int|
                        0 <= j < k && (#[trigger] reactions@[j]).shows(
                            main_emotes()[i as int].symbol(),
                        ),
                decreases reactions.len() - k,
            {
                if reactions[k].unicode_eq(emotes[i].unicode()) {
                    found = true;
                    assert(reactions@[k as int].shows(main_emotes()[i as int].symbol()));
                }
                k += 1;
            }
            if !found {
                assert(!has_reaction(reactions@, main_emotes()[i as int]));
                return true;
            }
            i += 1;
        }
        false
    }

    /// A length of time as it is shown.
    pub fn duration_fmt(dur: &Duration) -> (r: String)
        ensures
            r@ == clock(duration_nanos(*dur) / 1_000_000_000),
    {
        let secs: u64 = dur.as_secs();
        let seconds: u64 = secs % 60;
        let minutes: u64 = (secs / 60) % 60;
        let hours: u64 = (secs / 60) / 60;
        let mut msg = "".to_owned();
        proof {
            reveal_strlit("");
        }
        if hours > 0 {
            push_two_digits(&mut msg, hours);
            msg.append(":");
        }
        push_two_digits(&mut msg, minutes);
        msg.append(":");
        push_two_digits(&mut msg, seconds);
        assert(msg@ =~= clock(secs as nat));
        msg
    }

    /// Appends the line that names a player.
    fn push_header(msg: &mut String, shown: &Shown, name: &str)
        ensures
            final(msg)@ == old(msg)@ + player_header(*shown, name@),
    {
        let ghost start = msg@;
        msg.append("[");
        msg.append(name);
        msg.append("]");
        if shown.state.current.is_none() && shown.state.playlist.is_empty() {
            msg.append(" No Song in Playlist\r\n");
        } else {
            msg.append(" ");
            msg.append(shown.play_label.as_str());
            msg.append(shown.mode_label.as_str());
            msg.append("\r\n");
        }
        assert(msg@ =~= start + player_header(*shown, name@));
    }

    /// Appends the line of the track that plays.
    fn push_current(msg: &mut String, shown: &Shown, position: &Duration, track: &Track)
        requires
            position_nanos(*shown, *position) <= max_nanos(),
        ensures
            final(msg)@ == old(msg)@ + current_line(*shown, *position, *track),
    {
        let ghost start = msg@;
        let at = if shown.state.play_state == PlayState::Play {
            position.checked_add(shown.elapsed).unwrap()
        } else {
            *position
        };
        push_title(msg, track, "No Track Name");
        msg.append(" [");
        msg.append(MainMessage::duration_fmt(&at).as_str());
        msg.append("/");
        match &track.info {
            Some(info) => {
                let length = Duration::from_millis(info.length);
                assert(duration_nanos(length) / 1_000_000_000 == info.length as nat / 1000);
                msg.append(MainMessage::duration_fmt(&length).as_str());
            },
            None => {
                msg.append("--:--");
            },
        }
        msg.append("]\r\n");
        assert(msg@ =~= start + current_line(*shown, *position, *track));
    }

    /// Appends the lines of the queued tracks that are shown.
    fn push_queued(msg: &mut String, shown: &Shown)
        ensures
            final(msg)@ == old(msg)@ + queued_lines(
                shown.state@.playlist,
                shown_tracks(shown.state@.playlist.len()),
            ),
    {
        let ghost playlist = shown.state@.playlist;
        let ghost start = msg@;
        let mut i: usize = 0;
        let n: usize = shown.state.playlist.len();
        assert(start =~= start + queued_lines(playlist, 0));
        while i < n && i < 2
            invariant
                n == playlist.len(),
                playlist == shown.state.playlist@,
                i <= shown_tracks(playlist.len()),
                msg@ == start + queued_lines(playlist, i as nat),
            decreases n - i,
        {
            let ghost before = msg@;
            if let Some(track) = shown.state.playlist.get(i) {
                msg.append("[");
                push_decimal(msg, (i + 1) as u64);
                msg.append("] ");
                push_title(msg, track, "No Track Name");
                msg.append("\r\n");
            }
            assert(msg@ =~= before + queued_line(playlist, i as int));
            i += 1;
            assert(msg@ =~= start + queued_lines(playlist, i as nat));
        }
    }

    /// Appends what the main message shows of a player that has a name.
    fn push_player(msg: &mut String, shown: &Shown, name: &str)
        requires
            position_fits(*shown),
            shown.name matches Some(n) && n@ == name@,
        ensures
            final(msg)@ == old(msg)@ + player_block(*shown),
    {
        let ghost start = msg@;
        MainMessage::push_header(msg, shown, name);
        if let Some((position, track)) = &shown.state.current {
            MainMessage::push_current(msg, shown, position, track);
        }
        MainMessage::push_queued(msg, shown);
        msg.append("\r\n");
        assert(msg@ =~= start + player_block(*shown));
    }

    /// The text of the main message.
    pub fn content(players: &Vec<Shown>) -> (r: String)
        requires
            forall|i: int| 0 <= i < players@.len() ==> position_fits(#[trigger] players@[i]),
        ensures
            r@ == main_text(players@),
    {
        let mut msg = "```cs\r\n".to_owned();
        let mut active = false;
        let mut i: usize = 0;
        assert(players@.take(0) =~= Seq::empty());
        assert(msg@ =~= "```cs\r\n"@ + player_blocks(players@.take(0)));
        while i < players.len()
            invariant
                forall|j: int| 0 <= j < players@.len() ==> position_fits(#[trigger] players@[j]),
                i <= players@.len(),
                active == exists|j: int| 0 <= j < i && (#[trigger] players@[j]).name is Some,
                msg@ == "```cs\r\n"@ + player_blocks(players@.take(i as int)),
            decreases players.len() - i,
        {
            let ghost before = msg@;
            if let Some(name) = &players[i].name {
                assert(players@[i as int].name is Some);
                active = true;
                MainMessage::push_player(&mut msg, &players[i], name.as_str());
            }
            proof {
                assert(players@.take(i + 1).drop_last() =~= players@.take(i as int));
                assert(msg@ =~= before + player_block(players@[i as int]));
            }
            i += 1;
            assert(msg@ =~= "```cs\r\n"@ + player_blocks(players@.take(i as int)));
        }
        assert(players@.take(i as int) =~= players@);
        if !active {
            msg.append("[No active Player]");
        }
        msg.append("```");
        assert(msg@ =~= main_text(players@));
        msg
    }
}

/// Whether some reaction shows the emote of an action.
pub open spec fn has_reaction(reactions: Seq<ReactionType>, action: EmoteAction) -> bool {
    exists|j: int| 0 <= j < reactions.len() && (#[trigger] reactions[j]).shows(action.symbol())
}

/// Whether an emote of the main message is missing among some reactions.
pub open spec fn misses_emote(reactions: Seq<ReactionType>) -> bool {
    exists|i: int|
        0 <= i < main_emotes().len() && !has_reaction(reactions, #[trigger] main_emotes()[i])
}

/// A reply of the outside world while the emotes under the main message are put up.
pub enum EmoteReply {
    /// The reactions that the message has, unless it could not be read.
    Fetched(Result<Vec<ReactionType>, String>),
    /// All reactions were taken away, or not.
    Cleared(Result<(), String>),
    /// The emote at a place was added, or not.
    Added(usize, Result<(), String>),
}

/// What follows.
pub enum EmoteNext {
    ClearAll,
    /// The emote at a place is added next.
    Add(usize, AddMessageReactionTask),
    Done,
}

impl MainMessage {
    /// The emote at a place, to be added.
    fn add_emote(&self, i: usize) -> (r: EmoteNext)
        ensures
            if i < main_emotes().len() {
                &&& r matches EmoteNext::Add(j, task)
                &&& j == i
                &&& task.channel == self.channel
                &&& task.message == self.message
                &&& task.reaction.shows(main_emotes()[i as int].symbol())
            } else {
                r is Done
            },
    {
        let emotes = MainMessage::emotes();
        if i < emotes.len() {
            EmoteNext::Add(
                i,
                AddMessageReactionTask {
                    channel: self.channel,
                    message: self.message,
                    reaction: emotes[i].reaction(),
                },
            )
        } else {
            EmoteNext::Done
        }
    }

    /// Checks the emotes: where one is missing, all reactions are taken away and the emotes added
    /// again, one after another. The first failure ends it.
    pub fn emote_check(&self, reply: EmoteReply) -> (r: EmoteNext)
        requires
            reply matches EmoteReply::Added(i, _) ==> i < main_emotes().len(),
        ensures
            self.emotes_checked(reply, r),
    {
        match reply {
            EmoteReply::Fetched(Ok(reactions)) => if MainMessage::is_missing_emote(&reactions) {
                EmoteNext::ClearAll
            } else {
                EmoteNext::Done
            },
            EmoteReply::Fetched(Err(_)) => EmoteNext::Done,
            EmoteReply::Cleared(Ok(_)) => self.add_emote(0),
            EmoteReply::Cleared(Err(_)) => EmoteNext::Done,
            EmoteReply::Added(i, Ok(_)) => self.add_emote(i + 1),
            EmoteReply::Added(_, Err(_)) => EmoteNext::Done,
        }
    }

    /// Puts the emotes up anew, whatever is there: it begins with taking all reactions away.
    pub fn rebuild_emotes(&self, reply: Option<EmoteReply>) -> (r: EmoteNext)
        requires
            reply matches Some(EmoteReply::Added(i, _)) ==> i < main_emotes().len(),
        ensures
            self.emotes_rebuilt(reply, r),
    {
        match reply {
            None => EmoteNext::ClearAll,
            Some(EmoteReply::Fetched(_)) => EmoteNext::ClearAll,
            Some(EmoteReply::Cleared(Ok(_))) => self.add_emote(0),
            Some(EmoteReply::Cleared(Err(_))) => EmoteNext::Done,
            Some(EmoteReply::Added(i, Ok(_))) => self.add_emote(i + 1),
            Some(EmoteReply::Added(_, Err(_))) => EmoteNext::Done,
        }
    }

    /// Whether a step in checking the emotes was taken as it should.
    pub open spec fn emotes_checked(self, reply: EmoteReply, r: EmoteNext) -> bool {
        match reply {
            EmoteReply::Fetched(Ok(reactions)) => if misses_emote(reactions@) {
                r is ClearAll
            } else {
                r is Done
            },
            EmoteReply::Fetched(Err(_)) => r is Done,
            EmoteReply::Cleared(result) => self.follows(r, result is Ok, 0),
            EmoteReply::Added(i, result) => self.follows(r, result is Ok, i + 1),
        }
    }

    /// Whether a step in putting the emotes up anew was taken as it should.
    pub open spec fn emotes_rebuilt(self, reply: Option<EmoteReply>, r: EmoteNext) -> bool {
        match reply {
            None => r is ClearAll,
            Some(EmoteReply::Fetched(_)) => r is ClearAll,
            Some(EmoteReply::Cleared(result)) => self.follows(r, result is Ok, 0),
            Some(EmoteReply::Added(i, result)) => self.follows(r, result is Ok, i + 1),
        }
    }

    /// What follows a step that went well or not: the emote at the next place, as long as there is
    /// one and nothing failed.
    pub open spec fn follows(self, r: EmoteNext, went_well: bool, next: int) -> bool {
        if went_well && next < main_emotes().len() {
            &&& r matches EmoteNext::Add(j, task)
            &&& j == next
            &&& task.channel == self.channel
            &&& task.message == self.message
            &&& task.reaction.shows(main_emotes()[next].symbol())
        } else {
            r is Done
        }
    }
}

/// The players are shown one after another: what is shown of two lists is what is shown of the
/// first and then what is shown of the second, and a single player is shown by its block.
pub proof fn law_every_player_is_shown(a: Seq<Shown>, b: Seq<Shown>, shown: Shown)
    ensures
        player_blocks(a + b) == player_blocks(a) + player_blocks(b),
        player_blocks(seq![shown]) == player_block(shown),
        player_blocks(Seq::empty()).len() == 0,
    decreases b.len(),
{
    let one = seq![shown];
    reveal_with_fuel(player_blocks, 2);
    assert(one.drop_last() =~= Seq::<Shown>::empty());
    assert(player_blocks(one) =~= player_block(shown));
    if b.len() == 0 {
        assert(a + b =~= a);
        assert(player_blocks(a) + player_blocks(b) =~= player_blocks(a));
    } else {
        assert((a + b).drop_last() =~= a + b.drop_last());
        assert((a + b).last() == b.last());
        law_every_player_is_shown(a, b.drop_last(), shown);
        assert(player_blocks(a + b) =~= player_blocks(a) + player_blocks(b));
    }
}

/// A player without a name is not shown. One with nothing to play says so under its name.
pub proof fn law_idle_player_says_so(shown: Shown)
    ensures
        shown.name is None ==> player_block(shown).len() == 0,
        shown.name matches Some(name) ==> (shown.state@.current is None
            && shown.state@.playlist.len() == 0 ==> player_block(shown) == "["@ + name@ + "]"@
            + " No Song in Playlist\r\n"@ + "\r\n"@),
{
    if let Some(name) = shown.name {
        if shown.state@.current is None && shown.state@.playlist.len() == 0 {
            assert(shown.state.current is None);
            assert(player_block(shown) =~= "["@ + name@ + "]"@ + " No Song in Playlist\r\n"@
                + "\r\n"@);
        }
    }
}

/// A player with something to play shows its name and labels, the track that plays with where it
/// stands and how long it is, and the first two that are queued.
pub proof fn law_busy_player_shows_its_tracks(shown: Shown)
    requires
        shown.name is Some,
        shown.state@.current is Some || shown.state@.playlist.len() > 0,
    ensures
        ({
            let queue = shown.state@.playlist;
            let title = "["@ + shown.name->0@ + "]"@ + (" "@ + shown.play_label@ + shown.mode_label@
                + "\r\n"@);
            let current = match shown.state.current {
                Some((position, track)) => clipped(title_of(track, "No Track Name"@), 40) + " ["@
                    + clock(
                    (duration_nanos(position) + if shown.state.play_state == PlayState::Play {
                        duration_nanos(shown.elapsed)
                    } else {
                        0
                    }) / 1_000_000_000,
                ) + "/"@ + (match track.info {
                    Some(info) => clock(info.length as nat / 1000),
                    None => "--:--"@,
                }) + "]\r\n"@,
                None => Seq::empty(),
            };
            let first = if queue.len() > 0 {
                "["@ + decimal(1) + "] "@ + clipped(title_of(queue[0], "No Track Name"@), 40)
                    + "\r\n"@
            } else {
                Seq::empty()
            };
            let second = if queue.len() > 1 {
                "["@ + decimal(2) + "] "@ + clipped(title_of(queue[1], "No Track Name"@), 40)
                    + "\r\n"@
            } else {
                Seq::empty()
            };
            player_block(shown) == title + current + (first + second) + "\r\n"@
        }),
{
    let queue = shown.state@.playlist;
    reveal_with_fuel(queued_lines, 3);
    if queue.len() == 0 {
        assert(queued_lines(queue, 0) =~= Seq::<char>::empty() + Seq::<char>::empty());
    } else if queue.len() == 1 {
        assert(queued_lines(queue, 1) =~= queued_line(queue, 0) + Seq::<char>::empty());
    } else {
        assert(queued_lines(queue, 1) =~= queued_line(queue, 0));
        assert(queued_lines(queue, 2) =~= queued_line(queue, 0) + queued_line(queue, 1));
    }
}

/// The lines of queued tracks follow one another in order, numbered from one.
pub proof fn law_queued_lines_are_in_order(playlist: Seq<Track>, n: nat)
    ensures
        queued_lines(playlist, 0).len() == 0,
        queued_lines(playlist, n + 1) == queued_lines(playlist, n) + ("["@ + decimal(n + 1) + "] "@
            + clipped(title_of(playlist[n as int], "No Track Name"@), 40) + "\r\n"@),
{
}

/// The main message is a code block around what is shown of the players. Where none has a name, it
/// says that there is none.
pub proof fn law_main_message_shows_the_players(players: Seq<Shown>)
    ensures
        (exists|i: int| 0 <= i < players.len() && (#[trigger] players[i]).name is Some)
            ==> main_text(players) == "```cs\r\n"@ + player_blocks(players) + "```"@,
        (forall|i: int| 0 <= i < players.len() ==> (#[trigger] players[i]).name is None)
            ==> main_text(players) == "```cs\r\n"@ + "[No active Player]"@ + "```"@,
    decreases players.len(),
{
    if exists|i: int| 0 <= i < players.len() && (#[trigger] players[i]).name is Some {
        assert(main_text(players) =~= "```cs\r\n"@ + player_blocks(players) + "```"@);
    } else {
        lemma_unnamed_players_are_not_shown(players);
        assert(main_text(players) =~= "```cs\r\n"@ + "[No active Player]"@ + "```"@);
    }
}

proof fn lemma_unnamed_players_are_not_shown(players: Seq<Shown>)
    requires
        forall|i: int| 0 <= i < players.len() ==> (#[trigger] players[i]).name is None,
    ensures
        player_blocks(players).len() == 0,
    decreases players.len(),
{
    if players.len() > 0 {
        let before = players.drop_last();
        assert forall|i: int| 0 <= i < before.len() implies (#[trigger] before[i]).name is None by {
            assert(players[i].name is None);
        }
        lemma_unnamed_players_are_not_shown(before);
        assert(players[players.len() - 1].name is None);
    }
}

/// Below an hour minutes and seconds are shown, and from an hour on the hours before them.
pub proof fn law_clock_shows_hours_minutes_seconds(hours: nat, minutes: nat, seconds: nat)
    requires
        minutes < 60,
        seconds < 60,
    ensures
        ({
            let low = two_digits(minutes) + ":"@ + two_digits(seconds);
            clock(hours * 3600 + minutes * 60 + seconds) == if hours > 0 {
                two_digits(hours) + ":"@ + low
            } else {
                low
            }
        }),
{
    let secs = hours * 3600 + minutes * 60 + seconds;
    assert(secs / 60 == hours * 60 + minutes);
    assert(secs % 60 == seconds);
    assert(secs / 60 / 60 == hours);
    assert(secs / 60 % 60 == minutes);
    let low = two_digits(minutes) + ":"@ + two_digits(seconds);
    if hours > 0 {
        assert(clock(secs) =~= two_digits(hours) + ":"@ + low);
    } else {
        assert(clock(secs) =~= low);
    }
}

/// A player that runs stands where it was seen and as much further as time has passed; one that
/// does not stands where it was seen.
pub proof fn law_only_running_players_move(shown: Shown, position: Duration)
    ensures
        shown.state.play_state == PlayState::Play ==> position_nanos(shown, position)
            == duration_nanos(position) + duration_nanos(shown.elapsed),
        shown.state.play_state == PlayState::Pause ==> position_nanos(shown, position)
            == duration_nanos(position),
{
}

/// A search message names what was searched for and by whom, and then the tracks on offer, one on
/// each line and numbered from one.
pub proof fn law_search_message_lists_the_tracks(
    tracks: Seq<Track>,
    query: Seq<char>,
    name: Seq<char>,
    n: nat,
)
    ensures
        search_lines(tracks, 0).len() == 0,
        search_lines(tracks, n + 1) == search_lines(tracks, n) + (decimal(n + 1) + ": "@ + clipped(
            title_of(tracks[n as int], "Missing Name"@),
            40,
        ) + "\r\n"@),
        search_text(tracks, query, name) == "```"@ + "cs"@ + "\n"@ + ("["@ + clipped(query, 40)
            + "] @"@ + name + "\r\n"@ + search_lines(
            tracks,
            if tracks.len() < 10 {
                tracks.len()
            } else {
                10
            },
        )) + "\n```"@,
{
}

/// A track is called by its title, or by what stands in where nothing is known of it.
pub proof fn law_tracks_are_called_by_their_titles(track: Track, missing: Seq<char>)
    ensures
        track.info matches Some(info) ==> title_of(track, missing) == info.title@,
        track.info is None ==> title_of(track, missing) == missing,
{
}

/// Under a search message stand the numbers from one on, one for each track on offer and ten at
/// most, and last the emote that deletes.
pub proof fn law_search_emotes_count_the_tracks(tracks: nat)
    ensures
        ({
            let offered: nat = if tracks < 10 {
                tracks
            } else {
                10
            };
            &&& search_emotes(tracks).len() == offered + 1
            &&& search_emotes(tracks)[offered as int] == EmoteAction::Delete()
            &&& forall|i: int|
                0 <= i < offered ==> #[trigger] search_emotes(tracks)[i] == EmoteAction::Number(
                    (i + 1) as usize,
                )
        }),
{
}

/// The emotes under the main message, from first to last.
pub proof fn law_main_message_has_seven_emotes()
    ensures
        main_emotes().len() == 7,
        main_emotes()[0] == EmoteAction::Prev(),
        main_emotes()[1] == EmoteAction::PlayPause(),
        main_emotes()[2] == EmoteAction::Next(),
        main_emotes()[3] == EmoteAction::LoopOne(),
        main_emotes()[4] == EmoteAction::LoopAll(),
        main_emotes()[5] == EmoteAction::Join(),
        main_emotes()[6] == EmoteAction::Leave(),
{
}

/// Each action has its own emote: a number shows its digit, ten the key cap for ten, and no larger
/// number has one.
pub proof fn law_emotes_show_their_actions(n: usize)
    ensures
        EmoteAction::PlayPause().symbol() == "⏯"@,
        EmoteAction::Next().symbol() == "⏭"@,
        EmoteAction::Prev().symbol() == "⏮"@,
        EmoteAction::Join().symbol() == "📥"@,
        EmoteAction::Leave().symbol() == "📤"@,
        EmoteAction::Delete().symbol() == "❌"@,
        EmoteAction::LoopOne().symbol() == "🔂"@,
        EmoteAction::LoopAll().symbol() == "🔁"@,
        EmoteAction::Nothing().symbol() == "無"@,
        n < 10 ==> EmoteAction::Number(n).symbol().len() > 0 && EmoteAction::Number(
            n,
        ).symbol()[0] as nat == '0' as nat + n,
        n == 10 ==> EmoteAction::Number(n).symbol() == "🔟"@,
        n > 10 ==> EmoteAction::Number(n).symbol() == ""@,
        EmoteAction::Number(n).has_emote() <==> n <= 10,
{
    if n <= 10 {
        lemma_number_emote(n);
    }
}

/// A reaction is among two lists of emotes where it is among the first or among the second, and it
/// is among a single one where it shows it.
pub proof fn law_reactions_are_among_their_emotes(
    emoji: ReactionType,
    a: Seq<EmoteAction>,
    b: Seq<EmoteAction>,
    action: EmoteAction,
)
    ensures
        is_among(emoji, a + b) <==> is_among(emoji, a) || is_among(emoji, b),
        is_among(emoji, seq![action]) <==> emoji.shows(action.symbol()),
        !is_among(emoji, Seq::empty()),
{
    let all = a + b;
    if is_among(emoji, a) {
        let i = choose|i: int| 0 <= i < a.len() && emoji.shows((#[trigger] a[i]).symbol());
        assert(emoji.shows(all[i].symbol()));
    }
    if is_among(emoji, b) {
        let i = choose|i: int| 0 <= i < b.len() && emoji.shows((#[trigger] b[i]).symbol());
        assert(all[a.len() + i] == b[i]);
        assert(emoji.shows(all[a.len() + i].symbol()));
    }
    if is_among(emoji, all) {
        let i = choose|i: int| 0 <= i < all.len() && emoji.shows((#[trigger] all[i]).symbol());
        if i < a.len() {
            assert(emoji.shows(a[i].symbol()));
        } else {
            assert(emoji.shows(b[i - a.len()].symbol()));
        }
    }
    assert(seq![action][0] == action);
}

/// Some reaction of two lists shows an emote where one of the first or one of the second does.
pub proof fn law_emotes_are_found_among_reactions(
    action: EmoteAction,
    a: Seq<ReactionType>,
    b: Seq<ReactionType>,
    emoji: ReactionType,
)
    ensures
        has_reaction(a + b, action) <==> has_reaction(a, action) || has_reaction(b, action),
        has_reaction(seq![emoji], action) <==> emoji.shows(action.symbol()),
        !has_reaction(Seq::empty(), action),
{
    let all = a + b;
    if has_reaction(a, action) {
        let i = choose|i: int| 0 <= i < a.len() && (#[trigger] a[i]).shows(action.symbol());
        assert(all[i].shows(action.symbol()));
    }
    if has_reaction(b, action) {
        let i = choose|i: int| 0 <= i < b.len() && (#[trigger] b[i]).shows(action.symbol());
        assert(all[a.len() + i].shows(action.symbol()));
    }
    if has_reaction(all, action) {
        let i = choose|i: int| 0 <= i < all.len() && (#[trigger] all[i]).shows(action.symbol());
        if i < a.len() {
            assert(a[i].shows(action.symbol()));
        } else {
            assert(b[i - a.len()].shows(action.symbol()));
        }
    }
    assert(seq![emoji][0] == emoji);
}

/// As long as nothing fails, the emotes of the main message are added one after another, on that
/// message; a failure ends it, and so does the last one.
pub proof fn law_emotes_follow_one_another(main: MainMessage, r: EmoteNext, next: int)
    requires
        0 <= next,
    ensures
        main.follows(r, false, next) <==> r is Done,
        next >= 7 ==> (main.follows(r, true, next) <==> r is Done),
        next < 7 ==> (main.follows(r, true, next) <==> (r matches EmoteNext::Add(j, task) && j == next
            && task.channel == main.channel && task.message == main.message && task.reaction.shows(
            main_emotes()[next].symbol(),
        ))),
{
}

/// A main message is made by some bot that sees the guild, through its shard, and the one that
/// Discord took is the one that comes out; each thing that is missing has its error.
pub proof fn law_main_messages_are_made(
    guild: GuildId,
    bot: UserId,
    message: MainMessage,
    error: String,
)
    ensures
        making_goes_on(guild, NewReply::Bot(Some(bot))) == NewNext::FindShard(bot),
        making_goes_on(guild, NewReply::Bot(None)) == NewNext::Done(Err(MessageError::NoBot(guild))),
        making_goes_on(guild, NewReply::Shard(bot, true)) == NewNext::SendMessage(bot),
        making_goes_on(guild, NewReply::Shard(bot, false)) == NewNext::Done(
            Err(MessageError::NoShard(bot)),
        ),
        making_goes_on(guild, NewReply::Sent(Ok(message))) == NewNext::Done(Ok(message)),
        making_goes_on(guild, NewReply::Sent(Err(error))) == NewNext::Done(
            Err(MessageError::SerenityError(error)),
        ),
{
}

/// A user's reaction is taken away again, and is the action whose emote it shows; what a bot adds
/// stays, and what a bot loses is put up anew.
pub proof fn law_reactions_of_users_are_handled(
    bots: Seq<Bot>,
    reaction: Reaction,
    user: UserId,
    emote: EmoteAction,
    r: ReactionNext,
)
    requires
        reaction.user_id == Some(user),
    ensures
        reaction_taken(bots, ReactionAction::Added(reaction), r) && has_bot(bots, user) ==> r
            is Ignore,
        reaction_taken(bots, ReactionAction::Added(reaction), r) && !has_bot(bots, user) ==> {
            &&& r matches ReactionNext::Handle(event, delete)
            &&& delete.channel == reaction.channel_id && delete.message == reaction.message_id
            &&& delete.user == user && delete.reaction == reaction.emoji
            &&& emote.has_emote() && reaction.emoji.shows(emote.symbol()) ==> event == Some(
                (emote, user),
            )
        },
        reaction_taken(bots, ReactionAction::Removed(reaction), r) && has_bot(bots, user) ==> r
            is Rebuild,
        reaction_taken(bots, ReactionAction::Removed(reaction), r) && !has_bot(bots, user) ==> r
            is EmoteCheck,
{
    if reaction_taken(bots, ReactionAction::Added(reaction), r) && !has_bot(bots, user)
        && emote.has_emote() && reaction.emoji.shows(emote.symbol()) {
        if let ReactionNext::Handle(Some((shown, _)), _) = r {
            law_emotes_are_distinct(shown, emote);
        }
    }
}

/// A reaction of nobody known has the emotes checked.
pub proof fn law_unknown_reactions_have_the_emotes_checked(
    bots: Seq<Bot>,
    reaction: Reaction,
    r: ReactionNext,
)
    requires
        reaction.user_id is None,
    ensures
        reaction_taken(bots, ReactionAction::Added(reaction), r) ==> r is EmoteCheck,
        reaction_taken(bots, ReactionAction::Removed(reaction), r) ==> r is EmoteCheck,
{
}

/// A message is edited exactly where it shows something else, and then to what it should show.
pub proof fn law_messages_are_edited_where_they_differ(
    shown: Seq<char>,
    content: Seq<char>,
    r: Option<String>,
)
    requires
        update_needed(shown, content, r),
    ensures
        r is Some <==> shown != content,
        r matches Some(text) ==> text@ == content,
{
}

/// After an edit that went well a message shows the new text, after one that did not the old. It is
/// given up only where an edit failed and another message is the main one.
pub proof fn law_failed_edits_keep_the_text(
    shown: Seq<char>,
    content: Seq<char>,
    message: MessageId,
    official: MessageId,
)
    ensures
        content_after(shown, content, true) == content,
        content_after(shown, content, false) == shown,
        stays_main(message, true, Some(official)),
        stays_main(message, true, None),
        stays_main(message, false, None),
        stays_main(message, false, Some(official)) <==> official == message,
{
}

/// Reactions miss an emote exactly where one of the seven is shown by none of them.
pub proof fn law_missing_emotes_are_noticed(reactions: Seq<ReactionType>, i: int)
    ensures
        0 <= i < 7 && !has_reaction(reactions, main_emotes()[i]) ==> misses_emote(reactions),
        (forall|k: int| 0 <= k < 7 ==> has_reaction(reactions, #[trigger] main_emotes()[k]))
            ==> !misses_emote(reactions),
        misses_emote(Seq::empty()),
{
    assert(!has_reaction(Seq::empty(), main_emotes()[0]));
}

/// Emotes are put up anew exactly where one is missing: all reactions are taken away first, and then
/// the first emote comes. Where nothing is missing, or the message cannot be read, nothing is done.
pub proof fn law_missing_emotes_are_put_up(
    main: MainMessage,
    reactions: Vec<ReactionType>,
    error: String,
    r: EmoteNext,
)
    ensures
        main.emotes_checked(EmoteReply::Fetched(Ok(reactions)), r) && misses_emote(reactions@) ==> r
            is ClearAll,
        main.emotes_checked(EmoteReply::Fetched(Ok(reactions)), r) && !misses_emote(reactions@) ==> r
            is Done,
        main.emotes_checked(EmoteReply::Fetched(Err(error)), r) ==> r is Done,
        main.emotes_rebuilt(None, r) ==> r is ClearAll,
        main.emotes_checked(EmoteReply::Cleared(Ok(())), r) || main.emotes_rebuilt(
            Some(EmoteReply::Cleared(Ok(()))),
            r,
        ) ==> (r matches EmoteNext::Add(i, task) && i == 0 && task.channel == main.channel
            && task.message == main.message && task.reaction.shows(EmoteAction::Prev().symbol())),
        main.emotes_checked(EmoteReply::Cleared(Err(error)), r) || main.emotes_rebuilt(
            Some(EmoteReply::Cleared(Err(error))),
            r,
        ) ==> r is Done,
{
}

/// After each emote that was added the next one follows, until all seven are there; a failure ends
/// it.
pub proof fn law_next_emote_follows(main: MainMessage, i: usize, error: String, r: EmoteNext)
    requires
        i < 7,
    ensures
        main.emotes_checked(EmoteReply::Added(i, Ok(())), r) || main.emotes_rebuilt(
            Some(EmoteReply::Added(i, Ok(()))),
            r,
        ) ==> if i < 6 {
            r matches EmoteNext::Add(j, task) && j == i + 1 && task.channel == main.channel
                && task.message == main.message && task.reaction.shows(
                main_emotes()[i + 1].symbol(),
            )
        } else {
            r is Done
        },
        main.emotes_checked(EmoteReply::Added(i, Err(error)), r) || main.emotes_rebuilt(
            Some(EmoteReply::Added(i, Err(error))),
            r,
        ) ==> r is Done,
{
}

/// A search whose message was sent while the search still stands waits for a choice among its
/// tracks, under that message. One that was replaced, or without a message, is over, and what was
/// sent is deleted.
pub proof fn law_sent_searches_wait_for_a_choice(
    search: SearchMessage,
    before: ContextView,
    after: ContextView,
    message: Option<MessageId>,
    r: Result<SearchChoice, MessageError>,
)
    requires
        search_recorded(search, before, after, message, r),
    ensures
        ({
            let user = search.spec_requester().0;
            let stands = before.searches.contains_key(user) && before.searches[user].1
                == search.spec_uuid();
            &&& r is Ok <==> message is Some && stands
            &&& r matches Ok(choice) ==> choice.spec_tracks() == search.spec_tracks()
                && choice.spec_requester() == search.spec_requester() && choice.spec_uuid()
                == search.spec_uuid() && Some(choice.spec_message()) == message
                && after.searches[user] == (message, search.spec_uuid()) && after.pool == before.pool
            &&& r matches Err(e) ==> e == MessageError::Deleted() && after.searches
                == before.searches
            &&& message is None ==> after == before
            &&& message is Some && !stands ==> after.pool == before.pool.push(message->0)
        }),
{
}

/// The emotes of a search are added one after another, under its message, as long as the user has
/// not begun another search.
pub proof fn law_choices_are_offered(
    choice: SearchChoice,
    c: ContextView,
    added: int,
    r: Option<AddMessageReactionTask>,
)
    requires
        0 <= added,
        emote_offered(choice, c, added, r),
    ensures
        ({
            let n = choice.spec_tracks().len();
            let offered: nat = if n < 10 {
                n
            } else {
                10
            };
            let user = choice.spec_requester().0;
            let replaced = c.searches.contains_key(user) && c.searches[user].1
                != choice.spec_uuid();
            &&& r is Some <==> added <= offered && !replaced
            &&& r matches Some(task) ==> task.channel == c.channel && task.message
                == choice.spec_message() && task.reaction.shows(
                if added < offered {
                    EmoteAction::Number((added + 1) as usize)
                } else {
                    EmoteAction::Delete()
                }.symbol(),
            )
        }),
{
}

/// Whoever chooses a number gets the track at that place; whoever chooses nothing, or to delete, gets
/// none.
pub proof fn law_numbers_choose_their_tracks(
    tracks: Seq<Track>,
    chosen: Reaction,
    n: int,
    r: Result<Track, MessageError>,
)
    requires
        0 <= n < tracks.len(),
        n < 10,
    ensures
        choice_taken(tracks, Some(chosen), r) && chosen.emoji.shows(
            EmoteAction::Number((n + 1) as usize).symbol(),
        ) ==> r == Ok::<Track, MessageError>(tracks[n]),
        choice_taken(tracks, Some(chosen), r) && chosen.emoji.shows(EmoteAction::Delete().symbol())
            ==> r == Err::<Track, MessageError>(MessageError::Timeout()),
        choice_taken(tracks, None, r) ==> r == Err::<Track, MessageError>(MessageError::Timeout()),
{
    if choice_taken(tracks, Some(chosen), r) {
        let number = EmoteAction::Number((n + 1) as usize);
        if let Ok(track) = r {
            let k = choose|k: int|
                #![trigger tracks[k]]
                {
                    &&& 0 <= k < choices(tracks.len())
                    &&& chosen.emoji.shows(EmoteAction::Number((k + 1) as usize).symbol())
                    &&& track == tracks[k]
                };
            let other = EmoteAction::Number((k + 1) as usize);
            if chosen.emoji.shows(number.symbol()) {
                law_emotes_are_distinct(other, number);
            }
            if chosen.emoji.shows(EmoteAction::Delete().symbol()) {
                law_emotes_are_distinct(other, EmoteAction::Delete());
            }
        } else if chosen.emoji.shows(number.symbol()) {
            law_emotes_are_distinct(number, EmoteAction::Delete());
        }
    }
}

} // verus!
