//! The players of one guild, found by looking through all of them.
//!
//! Requests cover joining and leaving as well. A request for a channel without a player is met by
//! doing nothing.
use crate::guild::player_manager::{lemma_same_items, moved_to, shuffled};
use crate::ids::{ChannelId, ClientId, GuildId, UserId};
use crate::lavalink_handler::LavalinkEvent;
use crate::lavalink_supervisor::{client_of, LavalinkSupervisor};
use crate::player::{
    emptied, flipped, moved_back, moved_on, next_track, reported_nanos, skipped, toggle_of,
    with_mode, LavalinkCommand, LavalinkError, PlayState, Playback, Player, PlayerError, PlayerModel,
    PlayerView, Tracks,
};
use crate::time::max_nanos;
use crate::track::Track;
use vstd::prelude::*;

verus! {

/// What a guild's players can be asked for, by voice channel.
pub enum PlayerRequest {
    Join(ChannelId),
    Leave(ChannelId),
    Skip(ChannelId),
    BackSkip(ChannelId),
    ClearQueue(ChannelId),
    Playback(Playback, ChannelId),
    PauseResume(ChannelId),
}

impl PlayerRequest {
    /// The channel that a request is about.
    pub open spec fn channel(self) -> ChannelId {
        match self {
            PlayerRequest::Join(channel) => channel,
            PlayerRequest::Leave(channel) => channel,
            PlayerRequest::Skip(channel) => channel,
            PlayerRequest::BackSkip(channel) => channel,
            PlayerRequest::ClearQueue(channel) => channel,
            PlayerRequest::Playback(_, channel) => channel,
            PlayerRequest::PauseResume(channel) => channel,
        }
    }

    /// The channel that the request is about.
    pub fn get_channel(&self) -> (r: ChannelId)
        ensures
            r == self.channel(),
    {
        match self {
            PlayerRequest::Join(channel) => *channel,
            PlayerRequest::Leave(channel) => *channel,
            PlayerRequest::Skip(channel) => *channel,
            PlayerRequest::BackSkip(channel) => *channel,
            PlayerRequest::ClearQueue(channel) => *channel,
            PlayerRequest::Playback(_, channel) => *channel,
            PlayerRequest::PauseResume(channel) => *channel,
        }
    }
}

/// Why a guild's players could not do what was asked.
#[derive(Debug)]
pub enum PlayerMapError {
    BotMissingInSupervisor(UserId),
    NoPlayerFound(ChannelId),
    /// Whoever searched went away without a result.
    SearchSenderDropped(),
    PlayerError(PlayerError),
    NoFreeBot(),
}

/// What follows a request.
pub enum RequestNext {
    Done,
    /// Some bot is to join the channel.
    Join(ChannelId),
    /// The player is given up and to be disconnected.
    Disconnect(Player),
    /// Lavalink is to be asked for something. What it comes to matters only where the reply pauses
    /// or resumes the player, at the given place.
    Ask(usize, LavalinkCommand, bool),
}

/// What follows a report or an error.
pub enum EventNext {
    Done,
    /// Lavalink is to be asked for something, for the player at the given place.
    Ask(usize, LavalinkCommand),
    /// The player is given up and to be disconnected.
    Disconnect(Player),
    /// The bot's client is to be replaced.
    Renew(UserId),
}

/// The players of one guild: every bot, with its player if it has one.
pub struct PlayerManager {
    guild: GuildId,
    players: Vec<(UserId, Option<Player>)>,
}

/// The players as they are seen from outside.
pub type Slots = Seq<(UserId, Option<PlayerModel>)>;

impl View for PlayerManager {
    type V = Slots;

    closed spec fn view(&self) -> Slots {
        self.players@.map_values(|slot: (UserId, Option<Player>)| model(slot))
    }
}

/// A bot with its player as it is seen from outside.
pub open spec fn model(slot: (UserId, Option<Player>)) -> (UserId, Option<PlayerModel>) {
    (
        slot.0,
        match slot.1 {
            Some(player) => Some(player@),
            None => None,
        },
    )
}

/// Whether the player at a place is in a channel.
pub open spec fn is_in_channel(slots: Slots, i: int, channel: ChannelId) -> bool {
    0 <= i < slots.len() && (slots[i].1 matches Some(player) && player.channel == channel)
}

/// Whether the player at a place plays through a client.
pub open spec fn has_client(slots: Slots, i: int, client: ClientId) -> bool {
    0 <= i < slots.len() && (slots[i].1 matches Some(player) && player.lavalink == client)
}

/// Whether a place is the first whose player is in a channel.
pub open spec fn first_in_channel(slots: Slots, i: int, channel: ChannelId) -> bool {
    is_in_channel(slots, i, channel) && forall|j: int|
        0 <= j < i ==> !#[trigger] is_in_channel(slots, j, channel)
}

/// Whether a place is the first whose player plays through a client.
pub open spec fn first_with_client(slots: Slots, i: int, client: ClientId) -> bool {
    has_client(slots, i, client) && forall|j: int|
        0 <= j < i ==> !#[trigger] has_client(slots, j, client)
}

/// After the player at a place came to a state.
pub open spec fn with_state(slots: Slots, i: int, state: PlayerView) -> Slots {
    slots.update(i, (slots[i].0, Some(PlayerModel { state, ..slots[i].1->0 })))
}

/// After the player at a place was given up.
pub open spec fn without_player(slots: Slots, i: int) -> Slots {
    slots.update(i, (slots[i].0, None))
}

/// A player's state once it took a request that is neither for joining nor for leaving, before
/// Lavalink was asked for anything.
pub open spec fn effect_of(request: PlayerRequest, v: PlayerView) -> PlayerView {
    match request {
        PlayerRequest::Skip(_) => skipped(v),
        PlayerRequest::BackSkip(_) => moved_back(v),
        PlayerRequest::ClearQueue(_) => emptied(v),
        PlayerRequest::Playback(asked, _) => with_mode(v, asked),
        _ => v,
    }
}

/// Whether the player at a place took a request as it should: on leaving it is given up; else its
/// state changes, and Lavalink is asked for what the request needs.
pub open spec fn request_taken(
    before: Slots,
    after: Slots,
    i: int,
    request: PlayerRequest,
    next: RequestNext,
) -> bool {
    let player = before[i].1->0;
    match request {
        PlayerRequest::Leave(_) => {
            &&& next matches RequestNext::Disconnect(p) && p@ == player
            &&& after == without_player(before, i)
        },
        _ => {
            &&& after == with_state(before, i, effect_of(request, player.state))
            &&& next == match request {
                PlayerRequest::PauseResume(_) => RequestNext::Ask(
                    i as usize,
                    toggle_of(player.state),
                    true,
                ),
                PlayerRequest::Skip(_) => RequestNext::Ask(
                    i as usize,
                    LavalinkCommand::Stop,
                    false,
                ),
                PlayerRequest::BackSkip(_) => RequestNext::Ask(
                    i as usize,
                    LavalinkCommand::Stop,
                    false,
                ),
                _ => RequestNext::Done,
            }
        },
    }
}

/// Whether the player at a place took a report as it should.
pub open spec fn report_taken(
    before: Slots,
    after: Slots,
    i: int,
    event: LavalinkEvent,
    now: u64,
    next: EventNext,
) -> bool {
    let state = before[i].1->0.state;
    match event {
        LavalinkEvent::Update(update) => {
            &&& next is Done
            &&& exists|moved: PlayerView| #[trigger]
                moved_to(state, moved, update, now) && after == with_state(before, i, moved)
        },
        LavalinkEvent::Start(_) => next is Done && after == before,
        LavalinkEvent::Finish(_) => {
            &&& after == with_state(before, i, moved_on(state))
            &&& next == EventNext::Ask(
                i as usize,
                match next_track(state) {
                    Some(track) => LavalinkCommand::Play(track),
                    None => LavalinkCommand::Stop,
                },
            )
        },
    }
}

/// The bots that are listed.
pub open spec fn listed(slots: Slots) -> Seq<UserId> {
    slots.map_values(|s: (UserId, Option<PlayerModel>)| s.0)
}

impl PlayerManager {
    pub closed spec fn spec_guild(self) -> GuildId {
        self.guild
    }

    /// The bots of a guild, none of which has a player.
    pub fn new(guild: GuildId, bots: &Vec<UserId>) -> (r: PlayerManager)
        ensures
            r.spec_guild() == guild,
            r@ == bots@.map_values(|bot: UserId| (bot, None::<PlayerModel>)),
    {
        let mut players: Vec<(UserId, Option<Player>)> = Vec::new();
        let mut i: usize = 0;
        while i < bots.len()
            invariant
                i <= bots@.len(),
                players@.len() == i,
                forall|j: int|
                    0 <= j < i ==> #[trigger] players@[j] == (bots@[j], None::<Player>),
            decreases bots.len() - i,
        {
            players.push((bots[i], None));
            i += 1;
        }
        let r = PlayerManager { guild, players };
        assert(r@ =~= bots@.map_values(|bot: UserId| (bot, None::<PlayerModel>)));
        r
    }

    /// The place of the first player in a channel.
    pub fn get_player_channel(&self, channel: ChannelId) -> (r: Option<usize>)
        ensures
            match r {
                Some(i) => first_in_channel(self@, i as int, channel),
                None => forall|i: int| !#[trigger] is_in_channel(self@, i, channel),
            },
    {
        let mut i: usize = 0;
        while i < self.players.len()
            invariant
                i <= self.players@.len(),
                forall|j: int| 0 <= j < i ==> !#[trigger] is_in_channel(self@, j, channel),
            decreases self.players.len() - i,
        {
            if let Some(player) = &self.players[i].1 {
                if player.get_channel() == channel {
                    assert(is_in_channel(self@, i as int, channel));
                    return Some(i);
                }
            }
            i += 1;
        }
        None
    }

    /// The place of the first player that plays through a client.
    pub fn get_player_lavalink(&self, lavalink: ClientId) -> (r: Option<usize>)
        ensures
            match r {
                Some(i) => first_with_client(self@, i as int, lavalink),
                None => forall|i: int| !#[trigger] has_client(self@, i, lavalink),
            },
    {
        let mut i: usize = 0;
        while i < self.players.len()
            invariant
                i <= self.players@.len(),
                forall|j: int| 0 <= j < i ==> !#[trigger] has_client(self@, j, lavalink),
            decreases self.players.len() - i,
        {
            if let Some(player) = &self.players[i].1 {
                if player.get_lavalink() == lavalink {
                    assert(has_client(self@, i as int, lavalink));
                    return Some(i);
                }
            }
            i += 1;
        }
        None
    }

    /// Whether some player is in a channel.
    pub fn has_player(&self, channel: ChannelId) -> (r: bool)
        ensures
            r == exists|i: int| #[trigger] is_in_channel(self@, i, channel),
    {
        match self.get_player_channel(channel) {
            Some(i) => {
                assert(is_in_channel(self@, i as int, channel));
                true
            },
            None => false,
        }
    }

    /// Takes the player at a place out.
    fn take_player(&mut self, i: usize) -> (r: Option<Player>)
        requires
            i < old(self)@.len(),
        ensures
            final(self)@ == without_player(old(self)@, i as int),
            match r {
                Some(player) => old(self)@[i as int].1 == Some(player@),
                None => old(self)@[i as int].1 is None,
            },
            final(self).spec_guild() == old(self).spec_guild(),
    {
        let bot = self.players[i].0;
        let mut slot: (UserId, Option<Player>) = (bot, None);
        std::mem::swap(&mut slot, &mut self.players[i]);
        assert(self@ =~= without_player(old(self)@, i as int));
        slot.1
    }

    /// Puts a player in at a place.
    fn put_player(&mut self, i: usize, player: Player)
        requires
            i < old(self)@.len(),
        ensures
            final(self)@ == old(self)@.update(i as int, (old(self)@[i as int].0, Some(player@))),
            final(self).spec_guild() == old(self).spec_guild(),
    {
        let bot = self.players[i].0;
        self.players[i] = (bot, Some(player));
        assert(self@ =~= old(self)@.update(i as int, (old(self)@[i as int].0, Some(player@))));
    }

    /// Asks the players for something. A request to join goes to some free bot. Every other request
    /// goes to the first player in the channel, and is met by doing nothing where there is none.
    pub fn request(&mut self, request: PlayerRequest) -> (r: RequestNext)
        ensures
            final(self).spec_guild() == old(self).spec_guild(),
            request_handled(old(self)@, final(self)@, request, r),
    {
        if let PlayerRequest::Join(channel) = request {
            return RequestNext::Join(channel);
        }
        let i: usize = match self.get_player_channel(request.get_channel()) {
            Some(i) => i,
            None => {
                return RequestNext::Done;
            },
        };
        assert(first_in_channel(self@, i as int, request.channel()));
        let ghost before = self@;
        let mut player = self.take_player(i).unwrap();
        let next = match request {
            PlayerRequest::Join(_) => RequestNext::Done,
            PlayerRequest::Leave(_) => {
                return RequestNext::Disconnect(player);
            },
            PlayerRequest::Skip(_) => {
                let (_, command) = player.skip();
                RequestNext::Ask(i, command, false)
            },
            PlayerRequest::BackSkip(_) => {
                let (_, command) = player.back_skip();
                RequestNext::Ask(i, command, false)
            },
            PlayerRequest::ClearQueue(_) => {
                let _ = player.clear_queue();
                RequestNext::Done
            },
            PlayerRequest::Playback(playback, _) => {
                let _ = player.playback(playback);
                RequestNext::Done
            },
            PlayerRequest::PauseResume(_) => RequestNext::Ask(i, player.toggle_command(), true),
        };
        self.put_player(i, player);
        proof {
            let after = effect_of(request, before[i as int].1->0.state);
            assert(self@ =~= with_state(before, i as int, after));
        }
        next
    }

    /// Takes Lavalink's reply to what a request asked it for. A reply that pauses or resumes the
    /// player counts; others are passed over.
    pub fn answer(&mut self, i: usize, toggles: bool, reply: Result<(), LavalinkError>) -> (r: Result<
        (),
        PlayerMapError,
    >)
        requires
            i < old(self)@.len(),
        ensures
            final(self).spec_guild() == old(self).spec_guild(),
            reply_handled(old(self)@, final(self)@, i as int, toggles, reply, r),
    {
        if !toggles {
            return Ok(());
        }
        match reply {
            Err(e) => Err(PlayerMapError::PlayerError(PlayerError::Lavalink(e))),
            Ok(_) => {
                let ghost before = self@;
                match self.take_player(i) {
                    Some(mut player) => {
                        let _ = player.dynamic_pause_resume(Ok(()));
                        self.put_player(i, player);
                        assert(self@ =~= with_state(
                            before,
                            i as int,
                            flipped(before[i as int].1->0.state),
                        ));
                    },
                    None => {
                        assert(self@ =~= before);
                    },
                }
                Ok(())
            },
        }
    }

    /// What leaving a channel comes to.
    pub fn left(result: Result<(), PlayerError>) -> (r: Result<(), PlayerMapError>)
        ensures
            match result {
                Ok(_) => r is Ok,
                Err(e) => r == Err::<(), PlayerMapError>(PlayerMapError::PlayerError(e)),
            },
    {
        match result {
            Ok(_) => Ok(()),
            Err(e) => Err(PlayerMapError::PlayerError(e)),
        }
    }

    /// Whom to search with for a channel: the place of the first player there, and its client.
    pub fn search(&self, channel: ChannelId) -> (r: Result<(usize, ClientId), PlayerMapError>)
        ensures
            match r {
                Ok((i, client)) => first_in_channel(self@, i as int, channel) && client
                    == self@[i as int].1->0.lavalink,
                Err(e) => e == PlayerMapError::NoPlayerFound(channel) && forall|i: int|
                    !#[trigger] is_in_channel(self@, i, channel),
            },
    {
        match self.get_player_channel(channel) {
            None => Err(PlayerMapError::NoPlayerFound(channel)),
            Some(i) => match &self.players[i].1 {
                Some(player) => Ok((i, player.get_lavalink())),
                None => Err(PlayerMapError::NoPlayerFound(channel)),
            },
        }
    }

    /// What a search comes to, or that whoever searched went away.
    pub fn searched(reply: Option<Result<Tracks, LavalinkError>>) -> (r: Result<
        Vec<Track>,
        PlayerMapError,
    >)
        ensures
            r == search_result(reply),
    {
        match reply {
            None => Err(PlayerMapError::SearchSenderDropped()),
            Some(reply) => match Player::search(reply) {
                Ok(tracks) => Ok(tracks),
                Err(e) => Err(PlayerMapError::PlayerError(e)),
            },
        }
    }

    /// The bots in the order in which they are tried when a channel is to be joined:
    /// each once, in an order that chance decides.
    pub fn join_order(&self) -> (r: Vec<UserId>)
        requires
            distinct_bots(self@),
        ensures
            r@.no_duplicates(),
            forall|bot: UserId| r@.contains(bot) <==> is_bot(self@, bot),
    {
        let mut bots: Vec<UserId> = Vec::new();
        let mut i: usize = 0;
        while i < self.players.len()
            invariant
                i <= self.players@.len(),
                bots@.len() == i,
                forall|j: int| 0 <= j < i ==> #[trigger] bots@[j] == self@[j].0,
            decreases self.players.len() - i,
        {
            bots.push(self.players[i].0);
            i += 1;
        }
        let ghost plain = bots@;
        let r = shuffled(bots);
        proof {
            assert forall|j: int, k: int| 0 <= j < plain.len() && 0 <= k < plain.len() && j
                != k implies plain[j] != plain[k] by {
                assert(self@[j].0 != self@[k].0);
            }
            lemma_same_items(plain, r@);
            assert forall|bot: UserId| r@.contains(bot) <==> is_bot(self@, bot) by {
                if plain.contains(bot) {
                    let j = plain.index_of(bot);
                    assert(self@[j].0 == bot);
                }
                if is_bot(self@, bot) {
                    let j = choose|j: int| 0 <= j < self@.len() && (#[trigger] self@[j]).0 == bot;
                    assert(plain[j] == bot);
                }
            }
        }
        r
    }

    /// Whether a bot has a player.
    fn is_busy(&self, bot: UserId) -> (r: bool)
        ensures
            r == busy(self@, bot),
    {
        let mut i: usize = 0;
        while i < self.players.len()
            invariant
                i <= self.players@.len(),
                forall|j: int|
                    0 <= j < i ==> !((#[trigger] self@[j]).0 == bot && self@[j].1 is Some),
            decreases self.players.len() - i,
        {
            if self.players[i].0 == bot && self.players[i].1.is_some() {
                assert(self@[i as int].0 == bot && self@[i as int].1 is Some);
                return true;
            }
            i += 1;
        }
        false
    }

    /// Which bot joins a channel, and through which client: the first in the order that has no
    /// player, sees the guild and has a client.
    pub fn join_free_bot(
        &self,
        order: &Vec<UserId>,
        sees_guild: &Vec<bool>,
        supervisor: &LavalinkSupervisor,
    ) -> (r: Result<(UserId, ClientId), PlayerMapError>)
        requires
            order@.len() == sees_guild@.len(),
        ensures
            is_first_to_join(self@, order@, sees_guild@, supervisor@, r),
    {
        let mut i: usize = 0;
        while i < order.len()
            invariant
                i <= order@.len(),
                order@.len() == sees_guild@.len(),
                forall|j: int|
                    0 <= j < i ==> !can_join(
                        self@,
                        #[trigger] order@[j],
                        sees_guild@[j],
                        supervisor@,
                    ),
            decreases order.len() - i,
        {
            let bot = order[i];
            if sees_guild[i] && !self.is_busy(bot) {
                if let Some(client) = supervisor.request_current(bot) {
                    assert(order@[i as int] == bot);
                    return Ok((bot, client));
                }
            }
            i += 1;
        }
        Err(PlayerMapError::NoFreeBot())
    }

    /// Takes the player that the bot at a place got, or why it got none.
    pub fn joined(&mut self, i: usize, connected: Result<Player, PlayerError>) -> (r: Result<
        (),
        PlayerMapError,
    >)
        requires
            i < old(self)@.len(),
        ensures
            final(self).spec_guild() == old(self).spec_guild(),
            connection_handled(old(self)@, final(self)@, i as int, connected, r),
    {
        match connected {
            Ok(player) => {
                self.put_player(i, player);
                Ok(())
            },
            Err(e) => Err(PlayerMapError::PlayerError(e)),
        }
    }

    /// What an error of the player at a place leads to. Errors of Lavalink cost the player, which
    /// is to be disconnected; where there is none left, the bot's client is replaced.
    pub fn handle_error(&mut self, error: &PlayerError, i: usize) -> (r: EventNext)
        requires
            i < old(self)@.len(),
        ensures
            final(self).spec_guild() == old(self).spec_guild(),
            error_handled(old(self)@, final(self)@, *error, i as int, r),
    {
        if !error.is_lavalink_error() {
            return EventNext::Done;
        }
        let bot = self.players[i].0;
        match self.take_player(i) {
            Some(player) => EventNext::Disconnect(player),
            None => {
                assert(self@ =~= old(self)@);
                EventNext::Renew(bot)
            },
        }
    }

    /// What follows once a player was disconnected after an error: where that worked, the error is
    /// passed over; else the bot's client is replaced.
    pub fn disconnected(bot: UserId, worked: bool) -> (r: EventNext)
        ensures
            r == after_disconnect(bot, worked),
    {
        if worked {
            EventNext::Done
        } else {
            EventNext::Renew(bot)
        }
    }

    /// Takes a report of a client, at `now` seconds after the Unix epoch. It goes to the first
    /// player that plays through the client, if there is one.
    pub fn run(&mut self, event: LavalinkEvent, client: ClientId, now: u64) -> (r: EventNext)
        requires
            event matches LavalinkEvent::Update(update) ==> update.time as u64 <= now
                && reported_nanos(update, now) <= max_nanos(),
        ensures
            final(self).spec_guild() == old(self).spec_guild(),
            report_handled(old(self)@, final(self)@, event, client, now, r),
    {
        let i: usize = match self.get_player_lavalink(client) {
            Some(i) => i,
            None => {
                return EventNext::Done;
            },
        };
        assert(first_with_client(self@, i as int, client));
        let ghost before = self@;
        let mut player = self.take_player(i).unwrap();
        match event {
            LavalinkEvent::Update(update) => {
                let ghost state = player.state();
                let _ = player.update(update, now);
                let ghost after = player.state();
                self.put_player(i, player);
                proof {
                    assert(moved_to(state, after, update, now));
                    assert(self@ =~= with_state(before, i as int, after));
                }
                EventNext::Done
            },
            LavalinkEvent::Start(_) => {
                player.track_start();
                self.put_player(i, player);
                assert(self@ =~= before);
                EventNext::Done
            },
            LavalinkEvent::Finish(_) => {
                let (_, command) = player.track_end();
                self.put_player(i, player);
                assert(self@ =~= with_state(
                    before,
                    i as int,
                    moved_on(before[i as int].1->0.state),
                ));
                EventNext::Ask(i, command)
            },
        }
    }
}

/// Whether no bot is listed twice.
pub open spec fn distinct_bots(slots: Slots) -> bool {
    forall|i: int, j: int|
        0 <= i < slots.len() && 0 <= j < slots.len() && i != j ==> (#[trigger] slots[i]).0 != (
        #[trigger] slots[j]).0
}

/// Whether a bot is listed.
pub open spec fn is_bot(slots: Slots, bot: UserId) -> bool {
    exists|i: int| 0 <= i < slots.len() && (#[trigger] slots[i]).0 == bot
}

/// Whether a bot has a player.
pub open spec fn busy(slots: Slots, bot: UserId) -> bool {
    exists|i: int| 0 <= i < slots.len() && (#[trigger] slots[i]).0 == bot && slots[i].1 is Some
}

/// Whether a bot can join a channel: it has no player, sees the guild and has a client.
pub open spec fn can_join(
    slots: Slots,
    bot: UserId,
    sees_guild: bool,
    clients: Map<u64, Option<ClientId>>,
) -> bool {
    !busy(slots, bot) && sees_guild && client_of(clients, bot) is Some
}

/// Whatever a request does, no bot comes or goes.
pub proof fn law_bots_stay(slots: Slots, i: int, state: PlayerView)
    requires
        0 <= i < slots.len(),
    ensures
        listed(with_state(slots, i, state)) == listed(slots),
        listed(without_player(slots, i)) == listed(slots),
{
    assert(listed(with_state(slots, i, state)) =~= listed(slots));
    assert(listed(without_player(slots, i)) =~= listed(slots));
}

/// Whether the players took a request as they should: it goes to the first player in its channel, if
/// there is any.
pub open spec fn request_handled(
    before: Slots,
    after: Slots,
    request: PlayerRequest,
    r: RequestNext,
) -> bool {
    match request {
        PlayerRequest::Join(channel) => r == RequestNext::Join(channel) && after == before,
        _ => {
            &&& (forall|i: int| !#[trigger] is_in_channel(before, i, request.channel())) ==> r
                == RequestNext::Done && after == before
            &&& (exists|i: int| #[trigger] is_in_channel(before, i, request.channel())) ==> exists|
                i: int,
            | #[trigger]
                first_in_channel(before, i, request.channel()) && request_taken(
                    before,
                    after,
                    i,
                    request,
                    r,
                )
        },
    }
}

/// Whether the players took Lavalink's reply as they should.
pub open spec fn reply_handled(
    before: Slots,
    after: Slots,
    i: int,
    toggles: bool,
    reply: Result<(), LavalinkError>,
    r: Result<(), PlayerMapError>,
) -> bool {
    match (toggles, reply, before[i].1) {
        (false, _, _) => r is Ok && after == before,
        (true, Err(e), _) => r == Err::<(), PlayerMapError>(
            PlayerMapError::PlayerError(PlayerError::Lavalink(e)),
        ) && after == before,
        (true, Ok(_), Some(player)) => r is Ok && after == with_state(
            before,
            i,
            flipped(player.state),
        ),
        (true, Ok(_), None) => r is Ok && after == before,
    }
}

/// What a search comes to.
pub open spec fn search_result(reply: Option<Result<Tracks, LavalinkError>>) -> Result<
    Vec<Track>,
    PlayerMapError,
> {
    match reply {
        None => Err(PlayerMapError::SearchSenderDropped()),
        Some(Err(e)) => Err(PlayerMapError::PlayerError(PlayerError::Lavalink(e))),
        Some(Ok(found)) => if found.load_type@ == "LOAD_FAILED"@ {
            Err(PlayerMapError::PlayerError(PlayerError::SearchFailed(found.load_type)))
        } else {
            Ok(found.tracks)
        },
    }
}

/// Whether a bot is the first in an order that can join, or none is.
pub open spec fn is_first_to_join(
    slots: Slots,
    order: Seq<UserId>,
    sees_guild: Seq<bool>,
    clients: Map<u64, Option<ClientId>>,
    r: Result<(UserId, ClientId), PlayerMapError>,
) -> bool {
    match r {
        Ok((bot, client)) => exists|i: int|
            0 <= i < order.len() && #[trigger] order[i] == bot && can_join(
                slots,
                bot,
                sees_guild[i],
                clients,
            ) && client_of(clients, bot) == Some(client) && forall|j: int|
                0 <= j < i ==> !can_join(slots, #[trigger] order[j], sees_guild[j], clients),
        Err(e) => e == PlayerMapError::NoFreeBot() && forall|j: int|
            0 <= j < order.len() ==> !can_join(
                slots,
                #[trigger] order[j],
                sees_guild[j],
                clients,
            ),
    }
}

/// Whether the players took that a bot connected, or did not, as they should.
pub open spec fn connection_handled(
    before: Slots,
    after: Slots,
    i: int,
    connected: Result<Player, PlayerError>,
    r: Result<(), PlayerMapError>,
) -> bool {
    match connected {
        Ok(player) => r is Ok && after == before.update(i, (before[i].0, Some(player@))),
        Err(e) => r == Err::<(), PlayerMapError>(PlayerMapError::PlayerError(e)) && after == before,
    }
}

/// Whether the players took an error as they should: where it is Lavalink's, the player goes, or, where
/// there is none, the client is renewed.
pub open spec fn error_handled(
    before: Slots,
    after: Slots,
    error: PlayerError,
    i: int,
    r: EventNext,
) -> bool {
    if error is Lavalink {
        match before[i].1 {
            Some(player) => {
                &&& r matches EventNext::Disconnect(p) && p@ == player
                &&& after == without_player(before, i)
            },
            None => {
                &&& r == EventNext::Renew(before[i].0)
                &&& after == before
            },
        }
    } else {
        r is Done && after == before
    }
}

/// What follows an attempt to disconnect.
pub open spec fn after_disconnect(bot: UserId, worked: bool) -> EventNext {
    if worked {
        EventNext::Done
    } else {
        EventNext::Renew(bot)
    }
}

/// Whether the players took a report as they should: it goes to the first player that plays through
/// the client, if there is any.
pub open spec fn report_handled(
    before: Slots,
    after: Slots,
    event: LavalinkEvent,
    client: ClientId,
    now: u64,
    r: EventNext,
) -> bool {
    &&& (forall|i: int| !#[trigger] has_client(before, i, client)) ==> r is Done && after == before
    &&& (exists|i: int| #[trigger] has_client(before, i, client)) ==> exists|i: int| #[trigger]
        first_with_client(before, i, client) && report_taken(before, after, i, event, now, r)
}

/// A request without a player in its channel changes nothing, and neither does one to join, which is
/// passed on.
pub proof fn law_requests_need_a_player(
    before: Slots,
    after: Slots,
    request: PlayerRequest,
    channel: ChannelId,
    r: RequestNext,
)
    ensures
        request_handled(before, after, PlayerRequest::Join(channel), r) ==> r == RequestNext::Join(
            channel,
        ) && after == before,
        request_handled(before, after, request, r) && !(request is Join) && (forall|i: int|
            0 <= i < before.len() ==> !((#[trigger] before[i]).1 matches Some(p) && p.channel
                == request.channel())) ==> r == RequestNext::Done && after == before,
{
    if forall|i: int|
        0 <= i < before.len() ==> !((#[trigger] before[i]).1 matches Some(p) && p.channel
            == request.channel()) {
        assert forall|i: int| !#[trigger] is_in_channel(before, i, request.channel()) by {
            if 0 <= i < before.len() {
                assert(!(before[i].1 matches Some(p) && p.channel == request.channel()));
            }
        }
    }
}

/// A request is taken by the first player in its channel: it does what it is called, and the other
/// players stay.
pub proof fn law_first_player_takes_the_request(
    before: Slots,
    after: Slots,
    request: PlayerRequest,
    k: int,
    player: PlayerModel,
    other: int,
    r: RequestNext,
)
    requires
        request_handled(before, after, request, r),
        !(request is Join),
        0 <= k < before.len(),
        before[k].1 == Some(player),
        player.channel == request.channel(),
        forall|j: int|
            0 <= j < k ==> !((#[trigger] before[j]).1 matches Some(p) && p.channel
                == request.channel()),
    ensures
        after.len() == before.len(),
        0 <= other < before.len() && other != k ==> after[other] == before[other],
        after[k].0 == before[k].0,
        request is Leave ==> after[k].1 is None && (r matches RequestNext::Disconnect(p) && p@
            == player),
        !(request is Leave) ==> (after[k].1 matches Some(p) && p == (PlayerModel {
            state: p.state,
            ..player
        }) && (request is Skip ==> p.state == skipped(player.state)) && (request is BackSkip
            ==> p.state == moved_back(player.state)) && (request is ClearQueue ==> p.state
            == emptied(player.state)) && (request matches PlayerRequest::Playback(asked, _)
            ==> p.state == (PlayerView {
            playback: if player.state.playback == asked {
                Playback::Normal
            } else {
                asked
            },
            ..player.state
        })) && (request is PauseResume ==> p.state == player.state)),
        request is Skip || request is BackSkip ==> r == RequestNext::Ask(
            k as usize,
            LavalinkCommand::Stop,
            false,
        ),
        request is PauseResume ==> r == RequestNext::Ask(
            k as usize,
            if player.state.play_state == PlayState::Play {
                LavalinkCommand::Pause
            } else {
                LavalinkCommand::Resume
            },
            true,
        ),
        request is ClearQueue || request is Playback ==> r == RequestNext::Done,
{
    assert(is_in_channel(before, k, request.channel()));
    let i = choose|i: int| #[trigger]
        first_in_channel(before, i, request.channel()) && request_taken(
            before,
            after,
            i,
            request,
            r,
        );
    if i < k {
        assert(!(before[i].1 matches Some(p) && p.channel == request.channel()));
    }
    assert(i == k);
}

/// Every request is for the channel that it names.
pub proof fn law_requests_name_their_channel(
    request: PlayerRequest,
    channel: ChannelId,
    asked: Playback,
)
    ensures
        (request == PlayerRequest::Join(channel) || request == PlayerRequest::Leave(channel)
            || request == PlayerRequest::Skip(channel) || request == PlayerRequest::BackSkip(channel)
            || request == PlayerRequest::ClearQueue(channel) || request == PlayerRequest::Playback(
            asked,
            channel,
        ) || request == PlayerRequest::PauseResume(channel)) ==> request.channel() == channel,
{
}

/// A report is taken by the first player that plays through the client, and by no other: at the end of
/// a track that does not repeat, the client is asked for the first of the playlist.
pub proof fn law_first_player_takes_the_report(
    before: Slots,
    after: Slots,
    event: LavalinkEvent,
    client: ClientId,
    now: u64,
    k: int,
    player: PlayerModel,
    other: int,
    r: EventNext,
)
    requires
        report_handled(before, after, event, client, now, r),
        0 <= k < before.len(),
        before[k].1 == Some(player),
        player.lavalink == client,
        forall|j: int|
            0 <= j < k ==> !((#[trigger] before[j]).1 matches Some(p) && p.lavalink == client),
    ensures
        after.len() == before.len(),
        0 <= other < before.len() && other != k ==> after[other] == before[other],
        event is Start ==> after == before && r is Done,
        event is Update ==> r is Done,
        event is Finish ==> after[k] == (before[k].0, Some(
            PlayerModel { state: moved_on(player.state), ..player },
        )),
        event is Finish && player.state.playback == Playback::Normal ==> r == EventNext::Ask(
            k as usize,
            if player.state.playlist.len() > 0 {
                LavalinkCommand::Play(player.state.playlist[0])
            } else {
                LavalinkCommand::Stop
            },
        ),
        event is Finish && player.state.playback == Playback::OneLoop ==> (
        player.state.current matches Some((_, track)) ==> r == EventNext::Ask(
            k as usize,
            LavalinkCommand::Play(track),
        )),
{
    assert(has_client(before, k, client));
    let i = choose|i: int| #[trigger]
        first_with_client(before, i, client) && report_taken(before, after, i, event, now, r);
    if i < k {
        assert(!(before[i].1 matches Some(p) && p.lavalink == client));
    }
    assert(i == k);
}

/// A report of a client that no player plays through changes nothing.
pub proof fn law_reports_need_a_player(
    before: Slots,
    after: Slots,
    event: LavalinkEvent,
    client: ClientId,
    now: u64,
    r: EventNext,
)
    requires
        report_handled(before, after, event, client, now, r),
        forall|i: int|
            0 <= i < before.len() ==> !((#[trigger] before[i]).1 matches Some(p) && p.lavalink
                == client),
    ensures
        r is Done,
        after == before,
{
    assert forall|i: int| !#[trigger] has_client(before, i, client) by {
        if 0 <= i < before.len() {
            assert(!(before[i].1 matches Some(p) && p.lavalink == client));
        }
    }
}

/// A toggle that Lavalink obeyed flips the player that it was for, and only that; one that it did not
/// obey is its error. Whatever else it answers changes nothing.
pub proof fn law_obeyed_toggles_flip_one_player(
    before: Slots,
    after: Slots,
    i: int,
    other: int,
    player: PlayerModel,
    error: LavalinkError,
    reply: Result<(), LavalinkError>,
    r: Result<(), PlayerMapError>,
)
    requires
        0 <= i < before.len(),
        before[i].1 == Some(player),
    ensures
        reply_handled(before, after, i, true, Ok(()), r) ==> r is Ok && after.len() == before.len()
            && after[i] == (before[i].0, Some(
            PlayerModel {
                state: PlayerView {
                    play_state: if player.state.play_state == PlayState::Play {
                        PlayState::Pause
                    } else {
                        PlayState::Play
                    },
                    ..player.state
                },
                ..player
            },
        )) && (0 <= other < before.len() && other != i ==> after[other] == before[other]),
        reply_handled(before, after, i, true, Err(error), r) ==> after == before && r == Err::<
            (),
            PlayerMapError,
        >(PlayerMapError::PlayerError(PlayerError::Lavalink(error))),
        reply_handled(before, after, i, false, reply, r) ==> after == before && r is Ok,
{
}

/// A search gives the tracks that were found, unless loading failed, Lavalink did, or nobody answered.
pub proof fn law_searches_give_what_was_found(found: Tracks, error: LavalinkError)
    ensures
        found.load_type@ != "LOAD_FAILED"@ ==> search_result(Some(Ok(found))) == Ok::<
            Vec<Track>,
            PlayerMapError,
        >(found.tracks),
        found.load_type@ == "LOAD_FAILED"@ ==> search_result(Some(Ok(found))) == Err::<
            Vec<Track>,
            PlayerMapError,
        >(PlayerMapError::PlayerError(PlayerError::SearchFailed(found.load_type))),
        search_result(Some(Err(error))) == Err::<Vec<Track>, PlayerMapError>(
            PlayerMapError::PlayerError(PlayerError::Lavalink(error)),
        ),
        search_result(None) == Err::<Vec<Track>, PlayerMapError>(
            PlayerMapError::SearchSenderDropped(),
        ),
{
}

/// A bot can join exactly where it has no player, sees the guild and has a client.
pub proof fn law_idle_bots_can_join(
    slots: Slots,
    bot: UserId,
    sees_guild: bool,
    clients: Map<u64, Option<ClientId>>,
    i: int,
)
    ensures
        0 <= i < slots.len() && slots[i].0 == bot && slots[i].1 is Some ==> !can_join(
            slots,
            bot,
            sees_guild,
            clients,
        ),
        (forall|k: int|
            0 <= k < slots.len() && (#[trigger] slots[k]).0 == bot ==> slots[k].1 is None)
            && sees_guild && clients.contains_key(bot.0) && clients[bot.0] is Some ==> can_join(
            slots,
            bot,
            sees_guild,
            clients,
        ),
        !sees_guild || !clients.contains_key(bot.0) || clients[bot.0] is None ==> !can_join(
            slots,
            bot,
            sees_guild,
            clients,
        ),
{
}

/// The first bot in an order that can join does, with its own client; joining fails only where none
/// can.
pub proof fn law_first_idle_bot_joins(
    slots: Slots,
    order: Seq<UserId>,
    sees_guild: Seq<bool>,
    clients: Map<u64, Option<ClientId>>,
    k: int,
    r: Result<(UserId, ClientId), PlayerMapError>,
)
    requires
        is_first_to_join(slots, order, sees_guild, clients, r),
    ensures
        0 <= k < order.len() && can_join(slots, order[k], sees_guild[k], clients) && (forall|j: int|
            0 <= j < k ==> !can_join(slots, #[trigger] order[j], sees_guild[j], clients)) ==> r
            == Ok::<(UserId, ClientId), PlayerMapError>((order[k], clients[order[k].0]->0)),
        (forall|j: int|
            0 <= j < order.len() ==> !can_join(slots, #[trigger] order[j], sees_guild[j], clients))
            ==> r == Err::<(UserId, ClientId), PlayerMapError>(PlayerMapError::NoFreeBot()),
{
    if 0 <= k < order.len() && can_join(slots, order[k], sees_guild[k], clients) && (forall|j: int|
        0 <= j < k ==> !can_join(slots, #[trigger] order[j], sees_guild[j], clients)) {
        if let Ok((bot, client)) = r {
            let i = choose|i: int|
                0 <= i < order.len() && #[trigger] order[i] == bot && can_join(
                    slots,
                    bot,
                    sees_guild[i],
                    clients,
                ) && client_of(clients, bot) == Some(client) && forall|j: int|
                    0 <= j < i ==> !can_join(slots, #[trigger] order[j], sees_guild[j], clients);
            if k < i {
                assert(!can_join(slots, order[k], sees_guild[k], clients));
            }
            if i < k {
                assert(!can_join(slots, order[i], sees_guild[i], clients));
            }
            assert(i == k);
        }
    }
}

/// A bot that connected has its player, and only it; one that did not has its error, and nothing
/// changes.
pub proof fn law_connected_bots_have_players(
    before: Slots,
    after: Slots,
    i: int,
    other: int,
    player: Player,
    error: PlayerError,
    r: Result<(), PlayerMapError>,
)
    requires
        0 <= i < before.len(),
    ensures
        connection_handled(before, after, i, Ok(player), r) ==> r is Ok && after.len() == before.len()
            && after[i] == (before[i].0, Some(player@)) && (0 <= other < before.len() && other != i
            ==> after[other] == before[other]),
        connection_handled(before, after, i, Err(error), r) ==> after == before && r == Err::<
            (),
            PlayerMapError,
        >(PlayerMapError::PlayerError(error)),
{
}

/// An error of Lavalink takes the player away, to be disconnected, or has the client renewed where
/// there is none; any other changes nothing. A disconnection that fails has the client renewed.
pub proof fn law_lavalink_errors_take_the_player(
    before: Slots,
    after: Slots,
    error: PlayerError,
    i: int,
    other: int,
    bot: UserId,
    r: EventNext,
)
    requires
        0 <= i < before.len(),
    ensures
        error_handled(before, after, error, i, r) && !(error is Lavalink) ==> r is Done && after
            == before,
        error_handled(before, after, error, i, r) && error is Lavalink ==> (before[i].1 matches Some(
            player,
        ) ==> (r matches EventNext::Disconnect(p) && p@ == player) && after.len() == before.len()
            && after[i] == (before[i].0, None::<PlayerModel>) && (0 <= other < before.len() && other
            != i ==> after[other] == before[other])) && (before[i].1 is None ==> r
            == EventNext::Renew(before[i].0) && after == before),
        after_disconnect(bot, true) == EventNext::Done,
        after_disconnect(bot, false) == EventNext::Renew(bot),
{
}

/// The bots that can be asked to join are exactly those that are listed.
pub proof fn law_listed_bots_are_the_bots(slots: Slots, bot: UserId)
    ensures
        is_bot(slots, bot) <==> listed(slots).contains(bot),
{
    if is_bot(slots, bot) {
        let i = choose|i: int| 0 <= i < slots.len() && (#[trigger] slots[i]).0 == bot;
        assert(listed(slots)[i] == bot);
    }
    if listed(slots).contains(bot) {
        let i = choose|i: int| 0 <= i < listed(slots).len() && listed(slots)[i] == bot;
        assert(slots[i].0 == bot);
    }
}

} // verus!
