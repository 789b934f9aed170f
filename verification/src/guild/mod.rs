//! One guild: its players, its messages and what its events lead to.
//!
//! An event that needs the outside world is taken in steps. Each step says what to do next, and
//! what that came to goes into the step after it.
use crate::bots::{has_bot, Bot, BotMap};
use crate::config::Config;
use crate::context::{Context, ContextView};
use crate::discord::{Message, VoiceState};
use crate::guild::message_manager::{EmoteAction, MainMessage, MessageError};
use crate::guild::player_manager::{
    report_handled, Call, PlayerManager, PlayerMapError, PlayerRequest,
};
use crate::guild::scheduler::GuildScheduler;
use crate::ids::{ChannelId, ClientId, GuildId, MessageId, UserId};
use crate::lavalink_handler::LavalinkEvent;
use crate::player::{reported_nanos, Playback, PlayerModel, PlayerView};
use crate::task_handle::all_routes;
use crate::time::max_nanos;
use crate::track::Track;
use url::Url;
use vstd::prelude::*;

pub mod message_manager;
pub mod player_manager;
pub mod scheduler;

verus! {

/// How messages are deleted: collected in a pool and deleted together, or each on its own.
#[derive(Clone, Copy, Debug, PartialEq, Eq, Structural)]
pub enum Upkeep {
    Pooled,
    Direct,
}

/// How long a user's message stays before it is pooled, in milliseconds.
pub const DELETE_MESSAGE_DELAY_MILLIS: u64 = 500;

/// How long to wait before another attempt at a main message, in seconds.
pub const MAIN_MESSAGE_RETRY_SECS: u64 = 5;

/// How many messages are asked for at once where they are pooled.
pub const POOLED_PAGE: u64 = 100;

/// How many messages are asked for at once where each is deleted on its own.
pub const DIRECT_PAGE: u64 = 200;

/// How long after a guild was set up its channel is cleared where each message is deleted on its
/// own, in seconds.
pub const DIRECT_CLEAR_DELAY_SECS: u64 = 5;

/// How often messages are asked for where each is deleted on its own.
pub const DIRECT_ROUNDS: u8 = 5;

/// A deletion to be carried out.
#[derive(Clone, Copy, Debug, PartialEq, Eq, Structural)]
pub enum DeleteNext {
    /// The pool is to be deleted.
    Pool(ChannelId),
    /// After so many milliseconds the message goes into the pool, which is then to be deleted.
    PoolLater(ChannelId, MessageId, u64),
    /// The message is to be deleted.
    Direct(ChannelId, MessageId),
}

/// Why a guild could not be set up.
#[derive(Debug, Clone, Copy)]
pub enum ReciprocityGuildError {
    GuildNotInConfig(GuildId),
}

/// One guild: what it keeps, how it deletes messages, its players and its queues.
pub struct ReciprocityGuild {
    pub context: Context,
    pub upkeep: Upkeep,
    pub players: PlayerManager,
    pub scheduler: GuildScheduler,
}

/// `Url::parse`: whether a text is an absolute URL.
pub uninterp spec fn parses_as_url(s: Seq<char>) -> bool;

/// `Url::parse`: whether it takes the text as a URL.
#[verifier::external_body]
fn is_url(s: &str) -> (r: bool)
    ensures
        r == parses_as_url(s@),
{
    Url::parse(s).is_ok()
}

/// Where the handling of a user's message stands. The channel is the user's voice channel.
pub enum MessagePhase {
    LookingUp,
    CheckingBot(ChannelId),
    Joining(ChannelId),
    LookingAgain(ChannelId),
    Leaving(ChannelId),
    Searching(ChannelId),
    /// The bot that searched and the tracks that it found wait for a shard.
    FindingShard(ChannelId, UserId, Vec<Track>),
    Choosing(ChannelId),
    Queueing(ChannelId),
    Over,
}

/// What a step in the handling of a user's message came to.
pub enum MessageReply {
    /// The user's voice state.
    Voice(Option<VoiceState>),
    /// Whether a bot is in the channel.
    BotThere(bool),
    Joined(Result<(), PlayerMapError>),
    /// The channel was left, or not.
    Left,
    /// The bot that searched, and what it found.
    Found(Result<(UserId, Vec<Track>), PlayerMapError>),
    /// Whether there is a shard for the bot and the guild.
    Shard(bool),
    Chosen(Result<Track, MessageError>),
    /// The tracks were queued, or not.
    Queued,
}

/// What to do next for a user's message.
pub enum MessageNext {
    LookUpVoice(UserId),
    CheckBot(ChannelId),
    Join(ChannelId),
    Leave(ChannelId),
    Search(ChannelId),
    FindShard(UserId),
    /// The user chooses among the tracks.
    Choose(Vec<Track>),
    QueueOne(ChannelId, Track),
    QueueAll(ChannelId, Vec<Track>),
    Done,
}

impl MessagePhase {
    /// Whether a reply is one that the phase waits for.
    pub open spec fn awaits(self, reply: MessageReply) -> bool {
        match self {
            MessagePhase::LookingUp => reply is Voice,
            MessagePhase::CheckingBot(_) => reply is BotThere,
            MessagePhase::Joining(_) => reply is Joined,
            MessagePhase::LookingAgain(_) => reply is Voice,
            MessagePhase::Leaving(_) => reply is Left,
            MessagePhase::Searching(_) => reply is Found,
            MessagePhase::FindingShard(_, _, _) => reply is Shard,
            MessagePhase::Choosing(_) => reply is Chosen,
            MessagePhase::Queueing(_) => reply is Queued,
            MessagePhase::Over => false,
        }
    }

    /// The user's voice channel, once it is known.
    pub open spec fn channel(self) -> Option<ChannelId> {
        match self {
            MessagePhase::LookingUp => None,
            MessagePhase::CheckingBot(channel) => Some(channel),
            MessagePhase::Joining(channel) => Some(channel),
            MessagePhase::LookingAgain(channel) => Some(channel),
            MessagePhase::Leaving(channel) => Some(channel),
            MessagePhase::Searching(channel) => Some(channel),
            MessagePhase::FindingShard(channel, _, _) => Some(channel),
            MessagePhase::Choosing(channel) => Some(channel),
            MessagePhase::Queueing(channel) => Some(channel),
            MessagePhase::Over => None,
        }
    }

    /// An upper bound on the steps that are left.
    pub open spec fn steps_left(self) -> nat {
        match self {
            MessagePhase::LookingUp => 8,
            MessagePhase::CheckingBot(_) => 7,
            MessagePhase::Joining(_) => 6,
            MessagePhase::LookingAgain(_) => 5,
            MessagePhase::Leaving(_) => 1,
            MessagePhase::Searching(_) => 4,
            MessagePhase::FindingShard(_, _, _) => 3,
            MessagePhase::Choosing(_) => 2,
            MessagePhase::Queueing(_) => 1,
            MessagePhase::Over => 0,
        }
    }
}

/// Whether a voice state puts a user into a channel.
pub open spec fn is_in(state: Option<VoiceState>, channel: ChannelId) -> bool {
    state matches Some(s) && s.channel_id == Some(channel)
}

/// The channel that a voice state puts a user into, if any.
pub open spec fn voice_channel_of(state: Option<VoiceState>) -> Option<ChannelId> {
    match state {
        Some(s) => s.channel_id,
        None => None,
    }
}

/// How the handling of a user's message goes on from a phase once a reply came, given whether the
/// message is a URL. What finds no continuation is over.
pub open spec fn message_step(
    phase: MessagePhase,
    author: UserId,
    bots: Seq<Bot>,
    reply: MessageReply,
    url: bool,
) -> (MessagePhase, MessageNext) {
    match (phase, reply) {
        (MessagePhase::LookingUp, MessageReply::Voice(state)) => match voice_channel_of(state) {
            Some(ch) => (MessagePhase::CheckingBot(ch), MessageNext::CheckBot(ch)),
            None => (MessagePhase::Over, MessageNext::Done),
        },
        (MessagePhase::CheckingBot(ch), MessageReply::BotThere(there)) => if there {
            (MessagePhase::LookingAgain(ch), MessageNext::LookUpVoice(author))
        } else {
            (MessagePhase::Joining(ch), MessageNext::Join(ch))
        },
        (MessagePhase::Joining(ch), MessageReply::Joined(result)) => if result is Ok || result->Err_0
            is PlayerAlreadyExists {
            (MessagePhase::LookingAgain(ch), MessageNext::LookUpVoice(author))
        } else {
            (MessagePhase::Over, MessageNext::Done)
        },
        (MessagePhase::LookingAgain(ch), MessageReply::Voice(state)) => if is_in(state, ch) {
            (MessagePhase::Searching(ch), MessageNext::Search(ch))
        } else {
            (MessagePhase::Leaving(ch), MessageNext::Leave(ch))
        },
        (MessagePhase::Searching(ch), MessageReply::Found(Ok((bot, songs)))) => if !has_bot(
            bots,
            bot,
        ) || songs@.len() == 0 {
            (MessagePhase::Over, MessageNext::Done)
        } else if url {
            (MessagePhase::Queueing(ch), MessageNext::QueueAll(ch, songs))
        } else {
            (MessagePhase::FindingShard(ch, bot, songs), MessageNext::FindShard(bot))
        },
        (MessagePhase::FindingShard(ch, _, songs), MessageReply::Shard(found)) => if found {
            (MessagePhase::Choosing(ch), MessageNext::Choose(songs))
        } else {
            (MessagePhase::Over, MessageNext::Done)
        },
        (MessagePhase::Choosing(ch), MessageReply::Chosen(Ok(track))) => (
            MessagePhase::Queueing(ch),
            MessageNext::QueueOne(ch, track),
        ),
        _ => (MessagePhase::Over, MessageNext::Done),
    }
}

/// A user's message while it is handled.
pub struct MessageFlow {
    author: UserId,
    content: String,
    phase: MessagePhase,
}

impl MessageFlow {
    pub closed spec fn spec_author(self) -> UserId {
        self.author
    }

    pub closed spec fn spec_content(self) -> Seq<char> {
        self.content@
    }

    pub closed spec fn spec_phase(self) -> MessagePhase {
        self.phase
    }

    /// Takes a reply, and says what to do next: see [`message_step`]. The text of the message
    /// decides whether all tracks are queued or the user chooses one.
    pub fn step(self, bots: &BotMap, reply: MessageReply) -> (r: (MessageFlow, MessageNext))
        requires
            self.spec_phase().awaits(reply),
        ensures
            (r.0.spec_phase(), r.1) == message_step(
                self.spec_phase(),
                self.spec_author(),
                bots@,
                reply,
                parses_as_url(self.spec_content()),
            ),
            r.0.spec_author() == self.spec_author(),
            r.0.spec_content() == self.spec_content(),
    {
        let url = is_url(self.content.as_str());
        self.step_with(bots, reply, url)
    }

    /// Takes a reply, and says what to do next: see [`message_step`].
    pub fn step_with(self, bots: &BotMap, reply: MessageReply, url: bool) -> (r: (
        MessageFlow,
        MessageNext,
    ))
        requires
            self.spec_phase().awaits(reply),
        ensures
            (r.0.spec_phase(), r.1) == message_step(
                self.spec_phase(),
                self.spec_author(),
                bots@,
                reply,
                url,
            ),
            r.0.spec_author() == self.spec_author(),
            r.0.spec_content() == self.spec_content(),
    {
        let author = self.author;
        let (phase, next) = match (self.phase, reply) {
            (MessagePhase::LookingUp, MessageReply::Voice(state)) => match voice_channel(&state) {
                Some(ch) => (MessagePhase::CheckingBot(ch), MessageNext::CheckBot(ch)),
                None => (MessagePhase::Over, MessageNext::Done),
            },
            (MessagePhase::CheckingBot(ch), MessageReply::BotThere(there)) => if there {
                (MessagePhase::LookingAgain(ch), MessageNext::LookUpVoice(author))
            } else {
                (MessagePhase::Joining(ch), MessageNext::Join(ch))
            },
            (MessagePhase::Joining(ch), MessageReply::Joined(result)) => match result {
                Ok(_) => (MessagePhase::LookingAgain(ch), MessageNext::LookUpVoice(author)),
                Err(PlayerMapError::PlayerAlreadyExists(_)) => (
                    MessagePhase::LookingAgain(ch),
                    MessageNext::LookUpVoice(author),
                ),
                Err(_) => (MessagePhase::Over, MessageNext::Done),
            },
            (MessagePhase::LookingAgain(ch), MessageReply::Voice(state)) => if voice_channel(&state)
                == Some(ch) {
                (MessagePhase::Searching(ch), MessageNext::Search(ch))
            } else {
                (MessagePhase::Leaving(ch), MessageNext::Leave(ch))
            },
            (MessagePhase::Searching(ch), MessageReply::Found(Ok((bot, songs)))) => if
                !bots.contains_id(&bot) || songs.len() == 0 {
                (MessagePhase::Over, MessageNext::Done)
            } else if url {
                (MessagePhase::Queueing(ch), MessageNext::QueueAll(ch, songs))
            } else {
                (MessagePhase::FindingShard(ch, bot, songs), MessageNext::FindShard(bot))
            },
            (MessagePhase::FindingShard(ch, _, songs), MessageReply::Shard(found)) => if found {
                (MessagePhase::Choosing(ch), MessageNext::Choose(songs))
            } else {
                (MessagePhase::Over, MessageNext::Done)
            },
            (MessagePhase::Choosing(ch), MessageReply::Chosen(Ok(track))) => (
                MessagePhase::Queueing(ch),
                MessageNext::QueueOne(ch, track),
            ),
            _ => (MessagePhase::Over, MessageNext::Done),
        };
        (MessageFlow { author, content: self.content, phase }, next)
    }
}

/// The channel that a voice state puts a user into, if any.
fn voice_channel(state: &Option<VoiceState>) -> (r: Option<ChannelId>)
    ensures
        r == voice_channel_of(*state),
{
    match state {
        Some(s) => s.channel_id,
        None => None,
    }
}

/// A search is made, and tracks are queued, only in the channel that the user was seen in twice.
pub proof fn law_queueing_needs_the_user_to_stay(
    phase: MessagePhase,
    author: UserId,
    bots: Seq<Bot>,
    reply: MessageReply,
    url: bool,
)
    requires
        phase.awaits(reply),
    ensures
        ({
            let (after, next) = message_step(phase, author, bots, reply, url);
            // The channel never changes once it is known.
            &&& phase.channel() is Some && after.channel() is Some ==> after.channel()
                == phase.channel()
            // A search is made only right after the user was seen in the channel again.
            &&& after is Searching ==> phase is LookingAgain && (reply matches MessageReply::Voice(s)
                && is_in(s, after.channel()->0))
            // Whatever comes after a search comes only from a search.
            &&& after is FindingShard || after is Choosing || after is Queueing ==> phase
                is Searching || phase is FindingShard || phase is Choosing
            // Only tracks that the search found are queued in the channel.
            &&& next is QueueOne || next is QueueAll ==> after is Queueing
        }),
{
}

/// Where the handling of a user's message stands after some replies.
pub open spec fn phase_after(
    author: UserId,
    bots: Seq<Bot>,
    replies: Seq<MessageReply>,
    url: bool,
) -> MessagePhase
    decreases replies.len(),
{
    if replies.len() == 0 {
        MessagePhase::LookingUp
    } else {
        message_step(
            phase_after(author, bots, replies.drop_last(), url),
            author,
            bots,
            replies.last(),
            url,
        ).0
    }
}

/// Whether a reply shows the user in a channel.
pub open spec fn shows_user_in(reply: MessageReply, channel: ChannelId) -> bool {
    reply matches MessageReply::Voice(state) && is_in(state, channel)
}

/// Whether two replies at different times show the user in a channel.
pub open spec fn seen_twice_in(replies: Seq<MessageReply>, channel: ChannelId) -> bool {
    exists|i: int, j: int|
        0 <= i < j < replies.len() && shows_user_in(#[trigger] replies[i], channel)
            && shows_user_in(#[trigger] replies[j], channel)
}

/// Whatever the replies, tracks are searched for, chosen and queued only for a channel in which the
/// user was seen at two times.
pub proof fn law_tracks_are_for_users_who_stay(
    author: UserId,
    bots: Seq<Bot>,
    replies: Seq<MessageReply>,
    url: bool,
    channel: ChannelId,
)
    ensures
        phase_after(author, bots, replies, url).channel() == Some(channel) ==> exists|i: int|
            0 <= i < replies.len() && shows_user_in(#[trigger] replies[i], channel),
        ({
            let phase = phase_after(author, bots, replies, url);
            phase.channel() == Some(channel) && (phase is Searching || phase is FindingShard
                || phase is Choosing || phase is Queueing)
        }) ==> seen_twice_in(replies, channel),
    decreases replies.len(),
{
    if replies.len() > 0 {
        let n = replies.len() - 1;
        let before = replies.drop_last();
        let phase = phase_after(author, bots, before, url);
        let after = phase_after(author, bots, replies, url);
        law_tracks_are_for_users_who_stay(author, bots, before, url, channel);
        if after.channel() == Some(channel) {
            if phase is LookingUp {
                assert(shows_user_in(replies[n], channel));
            } else {
                assert(phase.channel() == Some(channel));
                let i = choose|i: int|
                    0 <= i < before.len() && shows_user_in(#[trigger] before[i], channel);
                assert(replies[i] == before[i]);
                if phase is LookingAgain && after is Searching {
                    assert(shows_user_in(replies[n], channel));
                } else if seen_twice_in(before, channel) {
                    let (k, l) = choose|k: int, l: int|
                        0 <= k < l < before.len() && shows_user_in(#[trigger] before[k], channel)
                            && shows_user_in(#[trigger] before[l], channel);
                    assert(replies[k] == before[k] && replies[l] == before[l]);
                }
            }
        }
    }
}

/// The handling of a message comes to an end: every step leaves fewer steps.
pub proof fn law_message_handling_ends(
    phase: MessagePhase,
    author: UserId,
    bots: Seq<Bot>,
    reply: MessageReply,
    url: bool,
)
    requires
        phase.awaits(reply),
    ensures
        message_step(phase, author, bots, reply, url).0.steps_left() < phase.steps_left(),
        message_step(phase, author, bots, reply, url).1 is Done <==> message_step(
            phase,
            author,
            bots,
            reply,
            url,
        ).0 is Over,
{
}

/// What a change of somebody's voice state leads to.
pub enum VoiceNext {
    Ignore,
    /// The players leave a channel.
    Leave(ChannelId),
    /// It is found out whether anybody is left in a channel, after a deletion where there is one.
    CheckChannel(ChannelId, Option<DeleteNext>),
}

/// What an action on the main message leads to.
pub enum ActionNext {
    Ignore,
    Request(PlayerRequest),
    Join(ChannelId),
    Leave(ChannelId),
}

/// What an action asks for, of the player in a channel.
pub open spec fn action_request(event: EmoteAction, channel: ChannelId) -> ActionNext {
    match event {
        EmoteAction::PlayPause() => ActionNext::Request(PlayerRequest::PauseResume(channel)),
        EmoteAction::Next() => ActionNext::Request(PlayerRequest::Skip(channel)),
        EmoteAction::Prev() => ActionNext::Request(PlayerRequest::BackSkip(channel)),
        EmoteAction::Join() => ActionNext::Join(channel),
        EmoteAction::Leave() => ActionNext::Leave(channel),
        EmoteAction::Delete() => ActionNext::Request(PlayerRequest::ClearQueue(channel)),
        EmoteAction::LoopOne() => ActionNext::Request(
            PlayerRequest::Playback(Playback::OneLoop, channel),
        ),
        EmoteAction::LoopAll() => ActionNext::Request(
            PlayerRequest::Playback(Playback::AllLoop, channel),
        ),
        EmoteAction::Number(_) => ActionNext::Ignore,
        EmoteAction::Nothing() => ActionNext::Ignore,
    }
}

/// What a deleted message leads to.
#[derive(Clone, Copy, Debug, PartialEq, Eq, Structural)]
pub enum DeletedNext {
    Ignore,
    /// The main message is checked.
    CheckMain,
}

/// What a step in checking the main message came to.
pub enum CheckReply {
    Begin,
    /// Whether the main message still exists.
    Exists(bool),
    /// A new main message was made, or not.
    Created(Result<MainMessage, MessageError>),
}

/// What to do next for the main message.
pub enum CheckNext {
    /// It is found out whether the message still exists.
    FindOut(MessageId, ChannelId),
    /// The message that is gone is deleted to make sure, whoever serves it is stopped, and a new
    /// one is made.
    Replace(DeleteNext),
    Create,
    /// After so many seconds a new one is made.
    Retry(u64),
    Done(Option<MainMessage>),
}

/// What a step in clearing the channel came to.
pub enum ClearReply {
    /// Whether some bot sees the guild.
    Bot(bool),
    /// The messages in the channel, newest first, after so many rounds; or why there are none.
    Page(u8, Result<Vec<MessageId>, String>),
}

/// What to do next to clear the channel.
pub enum ClearNext {
    Done,
    /// So many messages are asked for.
    Fetch(u64),
    /// The pool is deleted, where something was put into it, and, where more is to follow, so many
    /// messages before the given one are asked for.
    DeletePool(Option<DeleteNext>, Option<(MessageId, u64)>),
    /// The messages are deleted, and, where another round is to follow, so many messages are asked
    /// for.
    DeleteAll(Vec<MessageId>, Option<(u8, u64)>),
}

/// Whether the channel is cleared and the main message checked again when a connection comes back.
pub open spec fn looks_again(upkeep: Upkeep) -> bool {
    upkeep == Upkeep::Pooled
}

/// After how many seconds the channel of a guild that was set up is cleared, if it is.
pub open spec fn first_clearing(upkeep: Upkeep) -> Option<u64> {
    if upkeep == Upkeep::Direct {
        Some(DIRECT_CLEAR_DELAY_SECS)
    } else {
        None
    }
}

/// Whether a message was begun with as it should: one in another channel, or of a bot, is passed
/// over. A user's message is deleted, and it is found out where the user is.
pub open spec fn message_begun(
    c: ContextView,
    upkeep: Upkeep,
    bots: Seq<Bot>,
    message: Message,
    r: Option<(MessageFlow, MessageNext, DeleteNext)>,
) -> bool {
    if message.channel_id != c.channel || has_bot(bots, message.author) {
        r is None
    } else {
        &&& r matches Some((flow, next, delete))
        &&& flow.spec_phase() == MessagePhase::LookingUp
        &&& flow.spec_author() == message.author
        &&& flow.spec_content() == message.content@
        &&& next == MessageNext::LookUpVoice(message.author)
        &&& delete == match upkeep {
            Upkeep::Pooled => DeleteNext::PoolLater(
                message.channel_id,
                message.id,
                DELETE_MESSAGE_DELAY_MILLIS,
            ),
            Upkeep::Direct => DeleteNext::Direct(message.channel_id, message.id),
        }
    }
}

/// Whether a message is the main message, in the guild's channel.
pub open spec fn concerns_main(c: ContextView, channel: ChannelId, message: MessageId) -> bool {
    channel == c.channel && (c.main matches Some((id, _)) && id == message)
}

/// Whether the deletion of a message was taken as it should.
pub open spec fn deletion_taken(
    c: ContextView,
    after: ContextView,
    channel: ChannelId,
    message: MessageId,
    r: DeletedNext,
) -> bool {
    if channel != c.channel {
        r == DeletedNext::Ignore && after == c
    } else if c.main matches Some((id, _)) && id == message {
        r == DeletedNext::CheckMain && after == c
    } else {
        &&& r == DeletedNext::Ignore
        &&& if c.is_search(message) {
            exists|user: u64| #[trigger]
                c.is_search_of(user, message) && after == (ContextView {
                    searches: c.searches.remove(user),
                    ..c
                })
        } else {
            after == c
        }
    }
}

/// Whether a change of somebody's voice state was taken as it should. Only who was in a channel
/// before matters.
pub open spec fn voice_change_taken(
    c: ContextView,
    after: ContextView,
    upkeep: Upkeep,
    bots: Seq<Bot>,
    old_state: Option<VoiceState>,
    new_state: VoiceState,
    r: VoiceNext,
) -> bool {
    let user = new_state.user_id;
    match voice_channel_of(old_state) {
        None => r is Ignore && after == c,
        Some(channel) => if has_bot(bots, user) {
            &&& after == c
            &&& r == if new_state.channel_id is Some {
                VoiceNext::Leave(channel)
            } else {
                VoiceNext::Ignore
            }
        } else {
            match (upkeep, c.search_message_of(user)) {
                (Upkeep::Pooled, Some(_)) => {
                    &&& after == c.search_dropped(user)
                    &&& r == VoiceNext::CheckChannel(channel, Some(DeleteNext::Pool(c.channel)))
                },
                (Upkeep::Direct, Some(message)) => {
                    &&& after == (ContextView { pool: c.pool, ..c.search_dropped(user) })
                    &&& r == VoiceNext::CheckChannel(
                        channel,
                        Some(DeleteNext::Direct(c.channel, message)),
                    )
                },
                (_, None) => {
                    &&& after == c.search_dropped(user)
                    &&& r == VoiceNext::CheckChannel(channel, None)
                },
            }
        },
    }
}

/// What follows once it is known whether anybody is left in a channel.
pub open spec fn after_check(channel: ChannelId, occupied: Option<bool>) -> VoiceNext {
    if occupied == Some(false) {
        VoiceNext::Leave(channel)
    } else {
        VoiceNext::Ignore
    }
}

/// What an action of a user leads to who is where a voice state says.
pub open spec fn action_taken(event: EmoteAction, state: Option<VoiceState>) -> ActionNext {
    match voice_channel_of(state) {
        Some(channel) => action_request(event, channel),
        None => ActionNext::Ignore,
    }
}

/// Whether a step in checking the main message was taken as it should.
pub open spec fn main_checked(
    c: ContextView,
    after: ContextView,
    upkeep: Upkeep,
    reply: CheckReply,
    r: CheckNext,
) -> bool {
    match reply {
        CheckReply::Begin => {
            &&& after == c
            &&& r == match c.main {
                Some((message, channel)) => CheckNext::FindOut(message, channel),
                None => CheckNext::Create,
            }
        },
        CheckReply::Exists(true) => r == CheckNext::Done(None) && after == c,
        CheckReply::Exists(false) => match (c.main, upkeep) {
            (None, _) => r is Create && after == c,
            (Some((message, channel)), Upkeep::Pooled) => {
                &&& r == CheckNext::Replace(DeleteNext::Pool(channel))
                &&& after == c.pooled(Some(message))
            },
            (Some((message, channel)), Upkeep::Direct) => {
                &&& r == CheckNext::Replace(DeleteNext::Direct(channel, message))
                &&& after == c
            },
        },
        CheckReply::Created(Ok(made)) => {
            &&& r == CheckNext::Done(Some(made))
            &&& after == (ContextView { main: Some((made.message, made.channel)), ..c })
        },
        CheckReply::Created(Err(_)) => {
            &&& r == CheckNext::Retry(MAIN_MESSAGE_RETRY_SECS)
            &&& after == c
        },
    }
}

/// Whether a step in clearing the channel was taken as it should.
pub open spec fn clearing_stepped(
    c: ContextView,
    after: ContextView,
    upkeep: Upkeep,
    reply: ClearReply,
    r: ClearNext,
) -> bool {
    match reply {
        ClearReply::Bot(false) => r is Done && after == c,
        ClearReply::Bot(true) => {
            &&& after == c
            &&& r == ClearNext::Fetch(
                if upkeep == Upkeep::Pooled {
                    POOLED_PAGE
                } else {
                    DIRECT_PAGE
                },
            )
        },
        ClearReply::Page(_, Err(_)) => r is Done && after == c,
        ClearReply::Page(round, Ok(page)) => {
            let gone = unneeded_of(c, page@);
            if upkeep == Upkeep::Pooled {
                &&& after == page_cleared(c, page@)
                &&& r == page_next(c, page@)
            } else if gone.len() == 0 {
                r is Done && after == c
            } else {
                &&& after == c
                &&& r matches ClearNext::DeleteAll(messages, more)
                &&& messages@ == gone
                &&& more == if round + 1 < DIRECT_ROUNDS {
                    Some(((round + 1) as u8, DIRECT_PAGE))
                } else {
                    None
                }
            }
        },
    }
}

impl ReciprocityGuild {
    /// A guild that the configuration names a channel for. No bot has a player yet, and there is a
    /// queue for every kind of task.
    pub fn new(id: GuildId, bots: &BotMap, config: &Config, upkeep: Upkeep) -> (r: Result<
        ReciprocityGuild,
        ReciprocityGuildError,
    >)
        ensures
            match r {
                Ok(guild) => {
                    &&& exists|i: int|
                        #![trigger config.is_guild_at(i, id)]
                        {
                            &&& config.is_guild_at(i, id)
                            &&& guild.context@.channel.0 == config.guilds@[i].1.channel_id
                            &&& forall|j: int| 0 <= j < i ==> !config.is_guild_at(j, id)
                        }
                    &&& guild.context@ == (ContextView {
                        id,
                        channel: guild.context@.channel,
                        searches: Map::empty(),
                        main: None,
                        pool: Seq::empty(),
                    })
                    &&& guild.upkeep == upkeep
                    &&& guild.scheduler@ == all_routes()
                    &&& guild.players@.wf()
                    &&& guild.players@.guild == id
                    &&& guild.players@.index.unindexed()
                    &&& guild.players@.players == Map::<u64, PlayerModel>::empty()
                    &&& guild.players@.states == Seq::<PlayerView>::empty()
                    &&& forall|bot: u64| #[trigger]
                        guild.players@.index.entries.contains_key(bot) <==> has_bot(
                            bots@,
                            UserId(bot),
                        )
                },
                Err(e) => e == ReciprocityGuildError::GuildNotInConfig(id) && forall|i: int|
                    !config.is_guild_at(i, id),
            },
    {
        match config.channel_of(id) {
            Some(channel) => Ok(
                ReciprocityGuild {
                    context: Context::new(id, channel),
                    upkeep,
                    players: PlayerManager::new(id, bots),
                    scheduler: GuildScheduler::new(),
                },
            ),
            None => Err(ReciprocityGuildError::GuildNotInConfig(id)),
        }
    }

    /// The guild's players.
    pub fn get_player_manager(&self) -> (r: &PlayerManager)
        ensures
            *r == self.players,
    {
        &self.players
    }

    /// The guild's number.
    pub fn get_id(&self) -> (r: GuildId)
        ensures
            r == self.context@.id,
    {
        self.context.id()
    }

    /// Begins with a message. One in another channel, or of a bot, is passed over. A user's message
    /// is deleted, and it is found out where the user is.
    pub fn new_message(&self, bots: &BotMap, message: Message) -> (r: Option<
        (MessageFlow, MessageNext, DeleteNext),
    >)
        ensures
            message_begun(self.context@, self.upkeep, bots@, message, r),
    {
        if message.channel_id != self.context.channel() || bots.contains_id(&message.author) {
            return None;
        }
        let delete = match self.upkeep {
            Upkeep::Pooled => DeleteNext::PoolLater(
                message.channel_id,
                message.id,
                DELETE_MESSAGE_DELAY_MILLIS,
            ),
            Upkeep::Direct => DeleteNext::Direct(message.channel_id, message.id),
        };
        let flow = MessageFlow {
            author: message.author,
            content: message.content,
            phase: MessagePhase::LookingUp,
        };
        let next = MessageNext::LookUpVoice(message.author);
        Some((flow, next, delete))
    }

    /// Takes that a message was deleted. The main message is then checked; a search whose message
    /// it was is forgotten; other messages, and those in other channels, are of no concern.
    pub fn deleted_message(&mut self, channel: ChannelId, message: MessageId) -> (r: DeletedNext)
        ensures
            final(self).upkeep == old(self).upkeep,
            final(self).players == old(self).players,
            final(self).scheduler == old(self).scheduler,
            deletion_taken(old(self).context@, final(self).context@, channel, message, r),
    {
        if channel != self.context.channel() {
            return DeletedNext::Ignore;
        }
        if let Some((id, _)) = self.context.main_message() {
            if id == message {
                return DeletedNext::CheckMain;
            }
        }
        self.context.forget_message(message);
        DeletedNext::Ignore
    }

    /// Whether the emotes of the main message are to be checked after all reactions of a message
    /// were taken away.
    pub fn bulk_reaction_delete(&self, channel: ChannelId, message: MessageId) -> (r: bool)
        ensures
            r == concerns_main(self.context@, channel, message),
    {
        if channel != self.context.channel() {
            return false;
        }
        match self.context.main_message() {
            Some((id, _)) => id == message,
            None => false,
        }
    }

    /// Whether the channel is cleared and the main message checked after Discord's connection was
    /// resumed.
    pub fn resume(&self) -> (r: bool)
        ensures
            r == looks_again(self.upkeep),
    {
        match self.upkeep {
            Upkeep::Pooled => true,
            Upkeep::Direct => false,
        }
    }

    /// Whether the channel is cleared and the main message checked once a bot's cache is ready.
    pub fn cache_ready(&self) -> (r: bool)
        ensures
            r == looks_again(self.upkeep),
    {
        self.resume()
    }

    /// Whether the main message is checked and the channel cleared once the guild was set up, and
    /// after how many seconds the latter is.
    pub fn set_up(&self) -> (r: Option<u64>)
        ensures
            r == first_clearing(self.upkeep),
    {
        match self.upkeep {
            Upkeep::Pooled => None,
            Upkeep::Direct => Some(DIRECT_CLEAR_DELAY_SECS),
        }
    }

    /// Takes that somebody's voice state changed. Only who was in a channel before matters. Where
    /// a bot was moved elsewhere, the players leave the old channel. A user's search is dropped,
    /// and it is found out whether anybody is left in the old channel.
    pub fn voice_update(
        &mut self,
        bots: &BotMap,
        old_voice_state: &Option<VoiceState>,
        new_voice_state: &VoiceState,
    ) -> (r: VoiceNext)
        ensures
            final(self).upkeep == old(self).upkeep,
            final(self).players == old(self).players,
            final(self).scheduler == old(self).scheduler,
            voice_change_taken(
                old(self).context@,
                final(self).context@,
                old(self).upkeep,
                bots@,
                *old_voice_state,
                *new_voice_state,
                r,
            ),
    {
        let channel = match voice_channel(old_voice_state) {
            Some(channel) => channel,
            None => {
                return VoiceNext::Ignore;
            },
        };
        let user = new_voice_state.user_id;
        if bots.contains_id(&user) {
            return if new_voice_state.channel_id.is_some() {
                VoiceNext::Leave(channel)
            } else {
                VoiceNext::Ignore
            };
        }
        let delete = match self.upkeep {
            Upkeep::Pooled => if self.context.drop_search(user) {
                Some(DeleteNext::Pool(self.context.channel()))
            } else {
                None
            },
            Upkeep::Direct => match self.context.take_search(user) {
                Some(message) => Some(DeleteNext::Direct(self.context.channel(), message)),
                None => None,
            },
        };
        VoiceNext::CheckChannel(channel, delete)
    }

    /// What follows once it is known whether anybody is left in a channel: the players leave where
    /// nobody is. Without an answer they stay.
    pub fn channel_checked(channel: ChannelId, occupied: Option<bool>) -> (r: VoiceNext)
        ensures
            r == after_check(channel, occupied),
    {
        match occupied {
            Some(occupied) => if occupied {
                VoiceNext::Ignore
            } else {
                VoiceNext::Leave(channel)
            },
            None => VoiceNext::Ignore,
        }
    }

    /// Takes a report of a client, at `now` seconds after the Unix epoch, for the guild's players.
    /// Returns what to ask the client for, if anything.
    pub fn lavalink(&mut self, event: LavalinkEvent, client: ClientId, now: u64) -> (r: Option<Call>)
        requires
            old(self).players@.wf(),
            event matches LavalinkEvent::Update(update) ==> update.time as u64 <= now
                && reported_nanos(update, now) <= max_nanos(),
        ensures
            final(self).players@.wf(),
            final(self).context == old(self).context,
            final(self).upkeep == old(self).upkeep,
            final(self).scheduler == old(self).scheduler,
            report_handled(old(self).players@, final(self).players@, event, client, now, r),
    {
        match self.players.handle_player_event(event, client, now) {
            Ok(call) => call,
            Err(_) => None,
        }
    }

    /// Takes an action on the main message by a user who is where the voice state says. An action
    /// of a user who is in no voice channel is passed over.
    pub fn main_message_event(event: EmoteAction, state: &Option<VoiceState>) -> (r: ActionNext)
        ensures
            r == action_taken(event, *state),
    {
        let channel = match voice_channel(state) {
            Some(channel) => channel,
            None => {
                return ActionNext::Ignore;
            },
        };
        match event {
            EmoteAction::PlayPause() => ActionNext::Request(PlayerRequest::PauseResume(channel)),
            EmoteAction::Next() => ActionNext::Request(PlayerRequest::Skip(channel)),
            EmoteAction::Prev() => ActionNext::Request(PlayerRequest::BackSkip(channel)),
            EmoteAction::Join() => ActionNext::Join(channel),
            EmoteAction::Leave() => ActionNext::Leave(channel),
            EmoteAction::Delete() => ActionNext::Request(PlayerRequest::ClearQueue(channel)),
            EmoteAction::LoopOne() => ActionNext::Request(
                PlayerRequest::Playback(Playback::OneLoop, channel),
            ),
            EmoteAction::LoopAll() => ActionNext::Request(
                PlayerRequest::Playback(Playback::AllLoop, channel),
            ),
            EmoteAction::Number(_) => ActionNext::Ignore,
            EmoteAction::Nothing() => ActionNext::Ignore,
        }
    }

    /// Checks the main message. One that still exists stays; else it is deleted to make sure, and
    /// a new one is made, as often as it takes.
    pub fn check_main_message(&mut self, reply: CheckReply) -> (r: CheckNext)
        ensures
            final(self).upkeep == old(self).upkeep,
            final(self).players == old(self).players,
            final(self).scheduler == old(self).scheduler,
            main_checked(old(self).context@, final(self).context@, old(self).upkeep, reply, r),
    {
        match reply {
            CheckReply::Begin => match self.context.main_message() {
                Some((message, channel)) => CheckNext::FindOut(message, channel),
                None => CheckNext::Create,
            },
            CheckReply::Exists(exists_still) => {
                if exists_still {
                    return CheckNext::Done(None);
                }
                match self.context.main_message() {
                    None => CheckNext::Create,
                    Some((message, channel)) => match self.upkeep {
                        Upkeep::Pooled => {
                            self.context.pool_message(message);
                            CheckNext::Replace(DeleteNext::Pool(channel))
                        },
                        Upkeep::Direct => CheckNext::Replace(DeleteNext::Direct(channel, message)),
                    },
                }
            },
            CheckReply::Created(Ok(made)) => {
                self.context.set_main_message(made.message, made.channel);
                CheckNext::Done(Some(made))
            },
            CheckReply::Created(Err(_)) => CheckNext::Retry(MAIN_MESSAGE_RETRY_SECS),
        }
    }

    /// The messages of a page that are no longer needed, in order.
    fn unneeded(&self, page: &Vec<MessageId>) -> (r: Vec<MessageId>)
        ensures
            r@ == unneeded_of(self.context@, page@),
    {
        let mut r: Vec<MessageId> = Vec::new();
        let mut i: usize = 0;
        proof {
            reveal(Seq::filter);
            assert(page@.take(0) =~= Seq::empty());
        }
        while i < page.len()
            invariant
                i <= page@.len(),
                r@ == unneeded_of(self.context@, page@.take(i as int)),
            decreases page.len() - i,
        {
            proof {
                reveal(Seq::filter);
                assert(page@.take(i + 1).drop_last() =~= page@.take(i as int));
            }
            if !self.context.needs(page[i]) {
                r.push(page[i]);
            }
            i += 1;
        }
        assert(page@.take(i as int) =~= page@);
        r
    }

    /// Clears the channel of messages that are no longer needed, page by page. Where they are pooled,
    /// each page begins behind the oldest message of the one before, and the first page that is not
    /// full is the last; where each is deleted on its own, the newest are asked for again, until
    /// there are none or the rounds are over.
    pub fn clear_messages(&mut self, reply: ClearReply) -> (r: ClearNext)
        ensures
            final(self).upkeep == old(self).upkeep,
            final(self).players == old(self).players,
            final(self).scheduler == old(self).scheduler,
            clearing_stepped(old(self).context@, final(self).context@, old(self).upkeep, reply, r),
    {
        match reply {
            ClearReply::Bot(found) => if !found {
                ClearNext::Done
            } else {
                match self.upkeep {
                    Upkeep::Pooled => ClearNext::Fetch(POOLED_PAGE),
                    Upkeep::Direct => ClearNext::Fetch(DIRECT_PAGE),
                }
            },
            ClearReply::Page(_, Err(_)) => ClearNext::Done,
            ClearReply::Page(round, Ok(page)) => {
                let gone = self.unneeded(&page);
                match self.upkeep {
                    Upkeep::Pooled => {
                        let delete = if gone.len() > 0 {
                            Some(DeleteNext::Pool(self.context.channel()))
                        } else {
                            None
                        };
                        let more = if page.len() as u64 >= POOLED_PAGE {
                            Some((page[page.len() - 1], POOLED_PAGE))
                        } else {
                            None
                        };
                        self.context.pool_messages(gone);
                        if delete.is_none() && more.is_none() {
                            ClearNext::Done
                        } else {
                            ClearNext::DeletePool(delete, more)
                        }
                    },
                    Upkeep::Direct => {
                        if gone.len() == 0 {
                            return ClearNext::Done;
                        }
                        let more = if round < DIRECT_ROUNDS - 1 {
                            Some(((round + 1) as u8, DIRECT_PAGE))
                        } else {
                            None
                        };
                        ClearNext::DeleteAll(gone, more)
                    },
                }
            },
        }
    }
}

/// The messages of a page that are no longer needed, in order.
pub open spec fn unneeded_of(c: ContextView, page: Seq<MessageId>) -> Seq<MessageId> {
    page.filter(|m: MessageId| !c.is_needed(m))
}

/// What a guild keeps after a page was cleared: what is no longer needed waits to be deleted.
pub open spec fn page_cleared(c: ContextView, page: Seq<MessageId>) -> ContextView {
    ContextView { pool: c.pool + unneeded_of(c, page), ..c }
}

/// What follows a page: the pool is deleted where something was put into it, and the messages before
/// the oldest of a full page are asked for.
pub open spec fn page_next(c: ContextView, page: Seq<MessageId>) -> ClearNext {
    let delete = if unneeded_of(c, page).len() > 0 {
        Some(DeleteNext::Pool(c.channel))
    } else {
        None
    };
    let more = if page.len() >= POOLED_PAGE {
        Some((page.last(), POOLED_PAGE))
    } else {
        None
    };
    if delete is None && more is None {
        ClearNext::Done
    } else {
        ClearNext::DeletePool(delete, more)
    }
}

/// The messages of a channel, newest first, that come before one, or all of them.
pub open spec fn older(messages: Seq<MessageId>, before: Option<MessageId>) -> Seq<MessageId> {
    match before {
        Some(message) => messages.skip(messages.index_of(message) + 1),
        None => messages,
    }
}

/// The page that a channel gives for those messages: as many as are asked for, or all that are left.
pub open spec fn page_before(messages: Seq<MessageId>, before: Option<MessageId>) -> Seq<
    MessageId,
> {
    let left = older(messages, before);
    if left.len() < POOLED_PAGE {
        left
    } else {
        left.take(POOLED_PAGE as int)
    }
}

/// What a guild keeps once a channel with the given messages, newest first, was cleared from a place
/// on: each page is cleared, and the next one is the one that was asked for.
pub open spec fn channel_cleared(
    c: ContextView,
    messages: Seq<MessageId>,
    before: Option<MessageId>,
) -> ContextView
    decreases older(messages, before).len(),
    when messages.no_duplicates() && (before matches Some(message) ==> messages.contains(message))
{
    let page = page_before(messages, before);
    let after = page_cleared(c, page);
    proof {
        if page.len() >= POOLED_PAGE {
            lemma_next_page(messages, before);
        }
    }
    match page_next(c, page) {
        ClearNext::DeletePool(_, Some((oldest, _))) => channel_cleared(
            after,
            messages,
            Some(oldest),
        ),
        _ => after,
    }
}

/// The page before the oldest message of a full one begins where that one ended.
pub proof fn lemma_next_page(messages: Seq<MessageId>, before: Option<MessageId>)
    requires
        messages.no_duplicates(),
        before matches Some(message) ==> messages.contains(message),
        older(messages, before).len() >= POOLED_PAGE,
    ensures
        ({
            let oldest = page_before(messages, before).last();
            &&& messages.contains(oldest)
            &&& older(messages, Some(oldest)) == older(messages, before).skip(POOLED_PAGE as int)
        }),
{
    let start = match before {
        Some(message) => messages.index_of(message) + 1,
        None => 0,
    };
    assert(older(messages, before) =~= messages.skip(start));
    let oldest = page_before(messages, before).last();
    let i = start + POOLED_PAGE - 1;
    assert(messages[i] == oldest);
    assert(messages.index_of(oldest) == i);
    assert(older(messages, Some(oldest)) =~= older(messages, before).skip(POOLED_PAGE as int));
}

/// What is no longer needed does not depend on what waits to be deleted, and two lists have it one
/// after the other.
proof fn lemma_unneeded_in_parts(
    c: ContextView,
    pool: Seq<MessageId>,
    a: Seq<MessageId>,
    b: Seq<MessageId>,
)
    ensures
        unneeded_of(c, a + b) == unneeded_of(c, a) + unneeded_of(
            (ContextView { pool, ..c }),
            b,
        ),
{
    let d = ContextView { pool, ..c };
    let gone_c = |m: MessageId| !c.is_needed(m);
    let gone_d = |m: MessageId| !d.is_needed(m);
    assert forall|m: MessageId| c.is_needed(m) == d.is_needed(m) by {
        assert forall|user: u64| c.is_search_of(user, m) == d.is_search_of(user, m) by {}
        if c.is_search(m) {
            let user = choose|user: u64| c.is_search_of(user, m);
            assert(d.is_search_of(user, m));
        }
        if d.is_search(m) {
            let user = choose|user: u64| d.is_search_of(user, m);
            assert(c.is_search_of(user, m));
        }
    }
    assert(gone_c =~= gone_d);
    Seq::filter_distributes_over_add(a, b, gone_c);
}

/// Clearing from a place on puts into the pool what is no longer needed from there on.
proof fn lemma_channel_cleared(
    c: ContextView,
    messages: Seq<MessageId>,
    before: Option<MessageId>,
)
    requires
        messages.no_duplicates(),
        before matches Some(message) ==> messages.contains(message),
    ensures
        channel_cleared(c, messages, before) == (ContextView {
            pool: c.pool + unneeded_of(c, older(messages, before)),
            ..c
        }),
    decreases older(messages, before).len(),
{
    let left = older(messages, before);
    let page = page_before(messages, before);
    let after = page_cleared(c, page);
    if page.len() >= POOLED_PAGE {
        let oldest = page.last();
        let rest = older(messages, Some(oldest));
        lemma_next_page(messages, before);
        lemma_channel_cleared(after, messages, Some(oldest));
        assert(left =~= page + rest);
        lemma_unneeded_in_parts(c, after.pool, page, rest);
        assert(channel_cleared(c, messages, before).pool =~= c.pool + unneeded_of(c, left));
    }
}

/// Clearing reaches the whole channel: over its messages, newest first and each once, everything that
/// is no longer needed is put into the pool, once and in order, and nothing that is needed. As long
/// as something is put there, the pool is set to be deleted.
pub proof fn law_clearing_reaches_every_message(c: ContextView, messages: Seq<MessageId>)
    requires
        messages.no_duplicates(),
    ensures
        channel_cleared(c, messages, None) == (ContextView {
            pool: c.pool + unneeded_of(c, messages),
            ..c
        }),
        forall|m: MessageId|
            messages.contains(m) && !c.is_needed(m) ==> #[trigger] channel_cleared(
                c,
                messages,
                None,
            ).pool.contains(m),
        forall|m: MessageId|
            c.is_needed(m) && !c.pool.contains(m) ==> !#[trigger] channel_cleared(
                c,
                messages,
                None,
            ).pool.contains(m),
        forall|page: Seq<MessageId>|
            unneeded_of(c, page).len() > 0 ==> (#[trigger] page_next(
                c,
                page,
            ) matches ClearNext::DeletePool(delete, _) && delete == Some(
                DeleteNext::Pool(c.channel),
            )),
{
    lemma_channel_cleared(c, messages, None);
    let pool = channel_cleared(c, messages, None).pool;
    let gone = unneeded_of(c, messages);
    assert forall|m: MessageId| messages.contains(m) && !c.is_needed(m) implies #[trigger] pool.contains(
        m,
    ) by {
        law_clearing_spares_what_is_needed(c, messages, m);
        let i = gone.index_of(m);
        assert(pool[c.pool.len() + i] == m);
    }
    assert forall|m: MessageId| c.is_needed(m) && !c.pool.contains(m) implies !#[trigger] pool.contains(
        m,
    ) by {
        law_clearing_spares_what_is_needed(c, messages, m);
        if pool.contains(m) {
            let i = pool.index_of(m);
            if i < c.pool.len() {
                assert(c.pool[i] == m);
            } else {
                assert(gone[i - c.pool.len()] == m);
            }
        }
    }
}

/// Clearing the channel never deletes the main message or a search message, and deletes everything
/// else on the page.
pub proof fn law_clearing_spares_what_is_needed(
    c: ContextView,
    page: Seq<MessageId>,
    message: MessageId,
)
    ensures
        unneeded_of(c, page).contains(message) <==> page.contains(message) && !c.is_needed(message),
{
    let gone = |m: MessageId| !c.is_needed(m);
    broadcast use vstd::seq_lib::group_filter_ensures;

    if page.contains(message) && !c.is_needed(message) {
        let i = page.index_of(message);
        assert(gone(page[i]));
    }
    if unneeded_of(c, page).contains(message) {
        let i = unneeded_of(c, page).index_of(message);
        assert(gone(page.filter(gone)[i]));
        page.lemma_filter_contains_rev(gone, message);
    }
}

/// The handling of a message goes on wherever it can: a user in a voice channel gets a bot there,
/// and while the user is still there a search in that channel follows.
pub proof fn law_users_in_a_channel_get_a_search(
    author: UserId,
    bots: Seq<Bot>,
    url: bool,
    channel: ChannelId,
    state: Option<VoiceState>,
    joined: Result<(), PlayerMapError>,
)
    ensures
        (state matches Some(s) && s.channel_id == Some(channel)) ==> message_step(
            MessagePhase::LookingUp,
            author,
            bots,
            MessageReply::Voice(state),
            url,
        ) == (MessagePhase::CheckingBot(channel), MessageNext::CheckBot(channel)),
        (state is None || (state matches Some(s) && s.channel_id is None)) ==> message_step(
            MessagePhase::LookingUp,
            author,
            bots,
            MessageReply::Voice(state),
            url,
        ) == (MessagePhase::Over, MessageNext::Done),
        message_step(
            MessagePhase::CheckingBot(channel),
            author,
            bots,
            MessageReply::BotThere(true),
            url,
        ) == (MessagePhase::LookingAgain(channel), MessageNext::LookUpVoice(author)),
        message_step(
            MessagePhase::CheckingBot(channel),
            author,
            bots,
            MessageReply::BotThere(false),
            url,
        ) == (MessagePhase::Joining(channel), MessageNext::Join(channel)),
        (joined is Ok || (joined matches Err(e) && e is PlayerAlreadyExists)) ==> message_step(
            MessagePhase::Joining(channel),
            author,
            bots,
            MessageReply::Joined(joined),
            url,
        ) == (MessagePhase::LookingAgain(channel), MessageNext::LookUpVoice(author)),
        (joined matches Err(e) && !(e is PlayerAlreadyExists)) ==> message_step(
            MessagePhase::Joining(channel),
            author,
            bots,
            MessageReply::Joined(joined),
            url,
        ) == (MessagePhase::Over, MessageNext::Done),
        (state matches Some(s) && s.channel_id == Some(channel)) ==> message_step(
            MessagePhase::LookingAgain(channel),
            author,
            bots,
            MessageReply::Voice(state),
            url,
        ) == (MessagePhase::Searching(channel), MessageNext::Search(channel)),
        !(state matches Some(s) && s.channel_id == Some(channel)) ==> message_step(
            MessagePhase::LookingAgain(channel),
            author,
            bots,
            MessageReply::Voice(state),
            url,
        ) == (MessagePhase::Leaving(channel), MessageNext::Leave(channel)),
{
}

/// What a search finds is queued: all of it where the message is a URL, else what the user chooses
/// of it, in the channel that was searched for. Without tracks, or through a bot that is not known,
/// the handling is over, and so it is where there is no shard or no choice.
pub proof fn law_found_tracks_are_queued(
    author: UserId,
    bots: Seq<Bot>,
    channel: ChannelId,
    bot: UserId,
    songs: Vec<Track>,
    found: Result<(UserId, Vec<Track>), PlayerMapError>,
    track: Track,
    chosen: Result<Track, MessageError>,
    url: bool,
)
    ensures
        has_bot(bots, bot) && songs@.len() > 0 ==> {
            &&& message_step(
                MessagePhase::Searching(channel),
                author,
                bots,
                MessageReply::Found(Ok((bot, songs))),
                true,
            ) == (MessagePhase::Queueing(channel), MessageNext::QueueAll(channel, songs))
            &&& message_step(
                MessagePhase::Searching(channel),
                author,
                bots,
                MessageReply::Found(Ok((bot, songs))),
                false,
            ) == (MessagePhase::FindingShard(channel, bot, songs), MessageNext::FindShard(bot))
        },
        !has_bot(bots, bot) || songs@.len() == 0 ==> message_step(
            MessagePhase::Searching(channel),
            author,
            bots,
            MessageReply::Found(Ok((bot, songs))),
            url,
        ) == (MessagePhase::Over, MessageNext::Done),
        found is Err ==> message_step(
            MessagePhase::Searching(channel),
            author,
            bots,
            MessageReply::Found(found),
            url,
        ) == (MessagePhase::Over, MessageNext::Done),
        message_step(
            MessagePhase::FindingShard(channel, bot, songs),
            author,
            bots,
            MessageReply::Shard(true),
            url,
        ) == (MessagePhase::Choosing(channel), MessageNext::Choose(songs)),
        message_step(
            MessagePhase::FindingShard(channel, bot, songs),
            author,
            bots,
            MessageReply::Shard(false),
            url,
        ) == (MessagePhase::Over, MessageNext::Done),
        message_step(
            MessagePhase::Choosing(channel),
            author,
            bots,
            MessageReply::Chosen(Ok(track)),
            url,
        ) == (MessagePhase::Queueing(channel), MessageNext::QueueOne(channel, track)),
        chosen is Err ==> message_step(
            MessagePhase::Choosing(channel),
            author,
            bots,
            MessageReply::Chosen(chosen),
            url,
        ) == (MessagePhase::Over, MessageNext::Done),
        message_step(
            MessagePhase::Queueing(channel),
            author,
            bots,
            MessageReply::Queued,
            url,
        ) == (MessagePhase::Over, MessageNext::Done),
        message_step(
            MessagePhase::Leaving(channel),
            author,
            bots,
            MessageReply::Left,
            url,
        ) == (MessagePhase::Over, MessageNext::Done),
{
}

/// What is done next is what the phase waits for: each step's reply is one that can be taken.
pub proof fn law_replies_are_waited_for(
    phase: MessagePhase,
    author: UserId,
    bots: Seq<Bot>,
    reply: MessageReply,
    url: bool,
    answer: MessageReply,
)
    requires
        phase.awaits(reply),
    ensures
        ({
            let (after, next) = message_step(phase, author, bots, reply, url);
            match next {
                MessageNext::LookUpVoice(user) => user == author && (after.awaits(answer) <==> answer
                    is Voice),
                MessageNext::CheckBot(_) => after.awaits(answer) <==> answer is BotThere,
                MessageNext::Join(_) => after.awaits(answer) <==> answer is Joined,
                MessageNext::Leave(_) => after.awaits(answer) <==> answer is Left,
                MessageNext::Search(_) => after.awaits(answer) <==> answer is Found,
                MessageNext::FindShard(_) => after.awaits(answer) <==> answer is Shard,
                MessageNext::Choose(_) => after.awaits(answer) <==> answer is Chosen,
                MessageNext::QueueOne(_, _) => after.awaits(answer) <==> answer is Queued,
                MessageNext::QueueAll(_, _) => after.awaits(answer) <==> answer is Queued,
                MessageNext::Done => !after.awaits(answer),
            }
        }),
{
}

/// From the first look to the queue: the author of a message, seen in a channel, where a bot is or
/// joins, and seen there again, has what the search finds queued, or chooses of it.
pub proof fn law_messages_lead_to_tracks(
    author: UserId,
    bots: Seq<Bot>,
    channel: ChannelId,
    first: VoiceState,
    second: VoiceState,
    bot: UserId,
    songs: Vec<Track>,
    track: Track,
)
    requires
        first.channel_id == Some(channel),
        second.channel_id == Some(channel),
        has_bot(bots, bot),
        songs@.len() > 0,
    ensures
        ({
            let there = seq![
                MessageReply::Voice(Some(first)),
                MessageReply::BotThere(true),
                MessageReply::Voice(Some(second)),
            ];
            let joined = seq![
                MessageReply::Voice(Some(first)),
                MessageReply::BotThere(false),
                MessageReply::Joined(Ok(())),
                MessageReply::Voice(Some(second)),
            ];
            let found = MessageReply::Found(Ok((bot, songs)));
            &&& phase_after(author, bots, there, true) == MessagePhase::Searching(channel)
            &&& phase_after(author, bots, joined, true) == MessagePhase::Searching(channel)
            &&& phase_after(author, bots, there, false) == MessagePhase::Searching(channel)
            &&& phase_after(author, bots, joined, false) == MessagePhase::Searching(channel)
            &&& phase_after(author, bots, there.push(found), true) == MessagePhase::Queueing(channel)
            &&& phase_after(author, bots, joined.push(found), true) == MessagePhase::Queueing(channel)
            &&& phase_after(
                author,
                bots,
                there.push(found).push(MessageReply::Shard(true)).push(
                    MessageReply::Chosen(Ok(track)),
                ),
                false,
            ) == MessagePhase::Queueing(channel)
        }),
{
    let a = MessageReply::Voice(Some(first));
    let b = MessageReply::BotThere(true);
    let c = MessageReply::BotThere(false);
    let d = MessageReply::Joined(Ok(()));
    let e = MessageReply::Voice(Some(second));
    let found = MessageReply::Found(Ok((bot, songs)));
    let shard = MessageReply::Shard(true);
    let chosen = MessageReply::Chosen(Ok(track));
    lemma_search_is_reached(author, bots, channel, first, second, true);
    lemma_search_is_reached(author, bots, channel, first, second, false);
    lemma_one_reply_more(author, bots, seq![a, b, e], found, true);
    lemma_one_reply_more(author, bots, seq![a, c, d, e], found, true);
    lemma_one_reply_more(author, bots, seq![a, b, e], found, false);
    lemma_one_reply_more(author, bots, seq![a, b, e].push(found), shard, false);
    lemma_one_reply_more(author, bots, seq![a, b, e].push(found).push(shard), chosen, false);
}

proof fn lemma_search_is_reached(
    author: UserId,
    bots: Seq<Bot>,
    channel: ChannelId,
    first: VoiceState,
    second: VoiceState,
    url: bool,
)
    requires
        first.channel_id == Some(channel),
        second.channel_id == Some(channel),
    ensures
        phase_after(
            author,
            bots,
            seq![
                MessageReply::Voice(Some(first)),
                MessageReply::BotThere(true),
                MessageReply::Voice(Some(second)),
            ],
            url,
        ) == MessagePhase::Searching(channel),
        phase_after(
            author,
            bots,
            seq![
                MessageReply::Voice(Some(first)),
                MessageReply::BotThere(false),
                MessageReply::Joined(Ok(())),
                MessageReply::Voice(Some(second)),
            ],
            url,
        ) == MessagePhase::Searching(channel),
{
    let a = MessageReply::Voice(Some(first));
    let b = MessageReply::BotThere(true);
    let c = MessageReply::BotThere(false);
    let d = MessageReply::Joined(Ok(()));
    let e = MessageReply::Voice(Some(second));
    lemma_one_reply_more(author, bots, Seq::empty(), a, url);
    assert(Seq::empty().push(a) =~= seq![a]);
    lemma_one_reply_more(author, bots, seq![a], b, url);
    assert(seq![a].push(b) =~= seq![a, b]);
    lemma_one_reply_more(author, bots, seq![a, b], e, url);
    assert(seq![a, b].push(e) =~= seq![a, b, e]);
    lemma_one_reply_more(author, bots, seq![a], c, url);
    assert(seq![a].push(c) =~= seq![a, c]);
    lemma_one_reply_more(author, bots, seq![a, c], d, url);
    assert(seq![a, c].push(d) =~= seq![a, c, d]);
    lemma_one_reply_more(author, bots, seq![a, c, d], e, url);
    assert(seq![a, c, d].push(e) =~= seq![a, c, d, e]);
}

proof fn lemma_one_reply_more(
    author: UserId,
    bots: Seq<Bot>,
    replies: Seq<MessageReply>,
    reply: MessageReply,
    url: bool,
)
    ensures
        phase_after(author, bots, replies.push(reply), url) == message_step(
            phase_after(author, bots, replies, url),
            author,
            bots,
            reply,
            url,
        ).0,
{
    assert(replies.push(reply).drop_last() =~= replies);
}

/// Each action asks for what its emote stands for, in the channel of the user who chose it.
pub proof fn law_actions_ask_for_what_they_show(channel: ChannelId, number: EmoteAction)
    ensures
        action_request(EmoteAction::PlayPause(), channel) == ActionNext::Request(
            PlayerRequest::PauseResume(channel),
        ),
        action_request(EmoteAction::Next(), channel) == ActionNext::Request(
            PlayerRequest::Skip(channel),
        ),
        action_request(EmoteAction::Prev(), channel) == ActionNext::Request(
            PlayerRequest::BackSkip(channel),
        ),
        action_request(EmoteAction::Join(), channel) == ActionNext::Join(channel),
        action_request(EmoteAction::Leave(), channel) == ActionNext::Leave(channel),
        action_request(EmoteAction::Delete(), channel) == ActionNext::Request(
            PlayerRequest::ClearQueue(channel),
        ),
        action_request(EmoteAction::LoopOne(), channel) == ActionNext::Request(
            PlayerRequest::Playback(Playback::OneLoop, channel),
        ),
        action_request(EmoteAction::LoopAll(), channel) == ActionNext::Request(
            PlayerRequest::Playback(Playback::AllLoop, channel),
        ),
        number is Number || number is Nothing ==> action_request(number, channel)
            == ActionNext::Ignore,
{
}

/// A user's message in the guild's channel is handled and deleted; a bot's is not, and neither is
/// one elsewhere.
pub proof fn law_messages_of_users_are_handled(
    c: ContextView,
    upkeep: Upkeep,
    bots: Seq<Bot>,
    message: Message,
    r: Option<(MessageFlow, MessageNext, DeleteNext)>,
)
    requires
        message_begun(c, upkeep, bots, message, r),
    ensures
        r is Some <==> message.channel_id == c.channel && !has_bot(bots, message.author),
        r matches Some((flow, next, delete)) ==> {
            &&& flow.spec_phase() is LookingUp
            &&& flow.spec_author() == message.author
            &&& flow.spec_content() == message.content@
            &&& next == MessageNext::LookUpVoice(message.author)
            &&& upkeep == Upkeep::Pooled ==> delete == DeleteNext::PoolLater(
                message.channel_id,
                message.id,
                500,
            )
            &&& upkeep == Upkeep::Direct ==> delete == DeleteNext::Direct(
                message.channel_id,
                message.id,
            )
        },
{
}

/// The main message is checked exactly where it is the one that was deleted. A search loses its
/// message only where that was deleted, and then it is forgotten; nothing goes into the pool.
pub proof fn law_deleted_messages_are_forgotten(
    c: ContextView,
    after: ContextView,
    channel: ChannelId,
    message: MessageId,
    r: DeletedNext,
    user: u64,
)
    requires
        deletion_taken(c, after, channel, message, r),
    ensures
        r == DeletedNext::CheckMain <==> channel == c.channel && (c.main matches Some((id, _)) && id
            == message),
        r == DeletedNext::CheckMain || r == DeletedNext::Ignore,
        after.main == c.main && after.pool == c.pool && after.id == c.id && after.channel
            == c.channel,
        channel != c.channel ==> after == c,
        !(c.searches.contains_key(user) && c.searches[user].0 == Some(message)) ==> (
        after.searches.contains_key(user) <==> c.searches.contains_key(user))
            && after.searches[user] == c.searches[user],
        channel == c.channel && r == DeletedNext::Ignore && c.searches.contains_key(user)
            && c.searches[user].0 == Some(message) ==> exists|gone: u64| #[trigger]
            c.is_search_of(gone, message) && !after.searches.contains_key(gone),
{
    if channel == c.channel && r == DeletedNext::Ignore && c.searches.contains_key(user)
        && c.searches[user].0 == Some(message) {
        assert(c.is_search_of(user, message));
        assert(c.is_search(message));
    }
}

/// After a user left a channel, or moved, it is found out whether anybody is left there; the user's
/// search is forgotten, and its message deleted. A bot that was moved leaves the old channel. Who was
/// in no channel before is passed over.
pub proof fn law_left_channels_are_checked(
    c: ContextView,
    after: ContextView,
    upkeep: Upkeep,
    bots: Seq<Bot>,
    before: VoiceState,
    channel: ChannelId,
    state: VoiceState,
    r: VoiceNext,
    other: u64,
)
    requires
        before.channel_id == Some(channel),
        voice_change_taken(c, after, upkeep, bots, Some(before), state, r),
    ensures
        has_bot(bots, state.user_id) && state.channel_id is Some ==> r == VoiceNext::Leave(channel)
            && after == c,
        has_bot(bots, state.user_id) && state.channel_id is None ==> r == VoiceNext::Ignore && after
            == c,
        !has_bot(bots, state.user_id) ==> {
            &&& r matches VoiceNext::CheckChannel(ch, delete)
            &&& ch == channel
            &&& !after.searches.contains_key(state.user_id.0)
            &&& if c.searches.contains_key(state.user_id.0) && c.searches[state.user_id.0].0 is Some {
                let message = c.searches[state.user_id.0].0->0;
                match upkeep {
                    Upkeep::Pooled => delete == Some(DeleteNext::Pool(c.channel)) && after.pool
                        == c.pool.push(message),
                    Upkeep::Direct => delete == Some(DeleteNext::Direct(c.channel, message))
                        && after.pool == c.pool,
                }
            } else {
                delete is None && after.pool == c.pool
            }
            &&& other != state.user_id.0 ==> (after.searches.contains_key(other)
                <==> c.searches.contains_key(other)) && after.searches[other] == c.searches[other]
            &&& after.main == c.main
        },
{
}

/// A change of a voice state that does not follow a channel changes nothing.
pub proof fn law_newcomers_change_nothing(
    c: ContextView,
    after: ContextView,
    upkeep: Upkeep,
    bots: Seq<Bot>,
    before: Option<VoiceState>,
    state: VoiceState,
    r: VoiceNext,
)
    requires
        before matches Some(s) ==> s.channel_id is None,
        voice_change_taken(c, after, upkeep, bots, before, state, r),
    ensures
        r == VoiceNext::Ignore,
        after == c,
{
}

/// The players leave a channel exactly where it is known that nobody is left in it.
pub proof fn law_empty_channels_are_left(channel: ChannelId)
    ensures
        after_check(channel, Some(false)) == VoiceNext::Leave(channel),
        after_check(channel, Some(true)) == VoiceNext::Ignore,
        after_check(channel, None) == VoiceNext::Ignore,
{
}

/// An action is for the channel that its user is in; a user who is in none asks for nothing.
pub proof fn law_actions_are_for_the_users_channel(
    event: EmoteAction,
    state: VoiceState,
    channel: ChannelId,
)
    ensures
        state.channel_id == Some(channel) ==> action_taken(event, Some(state)) == action_request(
            event,
            channel,
        ),
        state.channel_id is None ==> action_taken(event, Some(state)) == ActionNext::Ignore,
        action_taken(event, None) == ActionNext::Ignore,
{
}

/// Reactions that were all taken away concern the main message only in the guild's channel.
pub proof fn law_main_message_is_in_its_channel(
    c: ContextView,
    channel: ChannelId,
    message: MessageId,
)
    ensures
        concerns_main(c, channel, message) <==> channel == c.channel && c.main is Some && c.main->0
            .0 == message,
        c.main is None ==> !concerns_main(c, channel, message),
{
}

/// A main message that exists stays. One that does not is deleted and another is made, which is then
/// the main message; where that fails, it is tried again. The searches stay.
pub proof fn law_main_message_is_replaced(
    c: ContextView,
    after: ContextView,
    upkeep: Upkeep,
    reply: CheckReply,
    r: CheckNext,
)
    requires
        main_checked(c, after, upkeep, reply, r),
    ensures
        after.searches == c.searches && after.id == c.id && after.channel == c.channel,
        reply is Begin ==> after == c && (c.main matches Some((message, channel)) ==> r
            == CheckNext::FindOut(message, channel)) && (c.main is None ==> r == CheckNext::Create),
        reply == CheckReply::Exists(true) ==> after == c && r == CheckNext::Done(None),
        reply == CheckReply::Exists(false) ==> after.main == c.main && (c.main is None ==> r
            == CheckNext::Create && after == c) && (c.main matches Some((message, channel)) ==> match upkeep {
            Upkeep::Pooled => r == CheckNext::Replace(DeleteNext::Pool(channel)) && after.pool
                == c.pool.push(message),
            Upkeep::Direct => r == CheckNext::Replace(DeleteNext::Direct(channel, message))
                && after.pool == c.pool,
        }),
        reply matches CheckReply::Created(Ok(made)) ==> r == CheckNext::Done(Some(made))
            && after.main == Some((made.message, made.channel)) && after.pool == c.pool,
        reply matches CheckReply::Created(Err(_)) ==> r == CheckNext::Retry(5) && after == c,
{
}

/// Clearing without a bot, or without an answer, does nothing. With one it deletes exactly those
/// messages of a page that are not needed.
pub proof fn law_clearing_deletes_what_is_not_needed(
    c: ContextView,
    after: ContextView,
    upkeep: Upkeep,
    reply: ClearReply,
    r: ClearNext,
    message: MessageId,
)
    requires
        clearing_stepped(c, after, upkeep, reply, r),
    ensures
        reply == ClearReply::Bot(false) ==> r is Done && after == c,
        reply == ClearReply::Bot(true) && upkeep == Upkeep::Pooled ==> r == ClearNext::Fetch(100)
            && after == c,
        reply == ClearReply::Bot(true) && upkeep == Upkeep::Direct ==> r == ClearNext::Fetch(200)
            && after == c,
        reply matches ClearReply::Page(_, Err(_)) ==> r is Done && after == c,
        after.searches == c.searches && after.main == c.main,
        reply matches ClearReply::Page(round, Ok(page)) ==> {
            &&& upkeep == Upkeep::Pooled && page@.contains(message) && !c.is_needed(message)
                ==> after.pool.contains(message)
            &&& upkeep == Upkeep::Pooled ==> after.pool == c.pool + unneeded_of(c, page@) && r
                == page_next(c, page@)
            &&& upkeep == Upkeep::Direct && page@.contains(message) && !c.is_needed(message) ==> (
            r matches ClearNext::DeleteAll(messages, _) && messages@.contains(message))
            &&& upkeep == Upkeep::Direct ==> after == c && (
            r matches ClearNext::DeleteAll(messages, more) ==> messages@.len() > 0 && (
            messages@.contains(message) ==> page@.contains(message) && !c.is_needed(message)) && (
            round < 4 ==> more == Some(((round + 1) as u8, 200u64))) && (round >= 4 ==> more is None))
        },
{
    if let ClearReply::Page(_, Ok(page)) = reply {
        let gone = unneeded_of(c, page@);
        law_clearing_spares_what_is_needed(c, page@, message);
        if gone.contains(message) {
            let k = choose|k: int| 0 <= k < gone.len() && gone[k] == message;
            assert((c.pool + gone)[c.pool.len() + k] == message);
        }
    }
}

/// A voice state says itself which channel its user is in.
pub proof fn law_voice_states_name_the_channel(state: VoiceState, channel: ChannelId)
    ensures
        voice_channel_of(Some(state)) == state.channel_id,
        voice_channel_of(None) is None,
        is_in(Some(state), channel) <==> state.channel_id == Some(channel),
        !is_in(None, channel),
{
}

/// A guild that pools its deletions looks again whenever a connection comes back, and not when it is
/// set up; one that deletes directly is cleared five seconds after it was set up, and only then.
pub proof fn law_each_guild_is_cleared_in_its_time()
    ensures
        looks_again(Upkeep::Pooled),
        !looks_again(Upkeep::Direct),
        first_clearing(Upkeep::Direct) == Some(5u64),
        first_clearing(Upkeep::Pooled) is None,
{
}

/// What follows a page of pooled deletions: the pool is deleted where the page held something that is
/// not needed, and the messages before its last are asked for where it is full. Without either it is
/// over.
pub proof fn law_pages_follow_one_another(c: ContextView, page: Seq<MessageId>)
    ensures
        ({
            let some = exists|i: int|
                0 <= i < page.len() && !c.is_needed(#[trigger] page[i]);
            let delete = if some {
                Some(DeleteNext::Pool(c.channel))
            } else {
                None
            };
            &&& page.len() < 100 && !some ==> page_next(c, page) is Done
            &&& page.len() < 100 && some ==> page_next(c, page) == ClearNext::DeletePool(delete, None)
            &&& page.len() >= 100 ==> page_next(c, page) == ClearNext::DeletePool(
                delete,
                Some((page[page.len() - 1], 100u64)),
            )
        }),
{
    let gone = unneeded_of(c, page);
    if gone.len() > 0 {
        law_clearing_spares_what_is_needed(c, page, gone[0]);
        let i = choose|i: int| 0 <= i < page.len() && page[i] == gone[0];
        assert(!c.is_needed(page[i]));
    }
    if exists|i: int| 0 <= i < page.len() && !c.is_needed(#[trigger] page[i]) {
        let i = choose|i: int| 0 <= i < page.len() && !c.is_needed(#[trigger] page[i]);
        law_clearing_spares_what_is_needed(c, page, page[i]);
        assert(page.contains(page[i]));
    }
}

} // verus!
