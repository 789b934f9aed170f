//! The players of one guild.
//!
//! What Lavalink and the voice gateway do happens outside. A request changes the players, and says
//! what to ask Lavalink for; the reply is then handed back.
use crate::bots::{has_bot, ids_of, Bot, BotMap};
use crate::ids::{ChannelId, ClientId, GuildId, UserId};
use crate::lavalink_handler::{LavalinkEvent, PlayerUpdate};
use crate::lavalink_supervisor::{client_of, LavalinkSupervisor};
use crate::multi_key_map::{TripleHashMap, TripleView};
use crate::player::{
    draws, emptied, flipped, goes_back, moved_back, moved_on, next_track, playing, queued, repeats,
    reported_nanos, skipped, toggle_of, with_mode, with_track, LavalinkCommand, LavalinkError,
    PlayState, Playback, Player, PlayerError, PlayerModel, PlayerState, PlayerView, Tracks,
};
use crate::time::{duration_nanos, duration_secs, max_nanos};
use crate::track::{Track, MUSIC_QUEUE_LIMIT};
use rand::seq::SliceRandom;
use std::collections::HashMap;
use vstd::prelude::*;

verus! {

/// What a player can be asked for, by the voice channel it is in.
pub enum PlayerRequest {
    Skip(ChannelId),
    BackSkip(ChannelId),
    ClearQueue(ChannelId),
    Playback(Playback, ChannelId),
    PauseResume(ChannelId),
    Enqueue(Track, ChannelId),
}

impl PlayerRequest {
    /// The channel whose player is asked.
    pub open spec fn channel(self) -> ChannelId {
        match self {
            PlayerRequest::Skip(channel) => channel,
            PlayerRequest::BackSkip(channel) => channel,
            PlayerRequest::ClearQueue(channel) => channel,
            PlayerRequest::Playback(_, channel) => channel,
            PlayerRequest::PauseResume(channel) => channel,
            PlayerRequest::Enqueue(_, channel) => channel,
        }
    }

    /// The channel whose player is asked.
    pub fn get_channel(&self) -> (r: ChannelId)
        ensures
            r == self.channel(),
    {
        match self {
            PlayerRequest::Skip(channel) => *channel,
            PlayerRequest::BackSkip(channel) => *channel,
            PlayerRequest::ClearQueue(channel) => *channel,
            PlayerRequest::Playback(_, channel) => *channel,
            PlayerRequest::PauseResume(channel) => *channel,
            PlayerRequest::Enqueue(_, channel) => *channel,
        }
    }

    /// The player's state once it took the request, before Lavalink was asked for anything.
    pub open spec fn effect(self, v: PlayerView) -> PlayerView {
        match self {
            PlayerRequest::Skip(_) => skipped(v),
            PlayerRequest::BackSkip(_) => moved_back(v),
            PlayerRequest::ClearQueue(_) => emptied(v),
            PlayerRequest::Playback(asked, _) => with_mode(v, asked),
            PlayerRequest::PauseResume(_) => v,
            PlayerRequest::Enqueue(track, _) => with_track(v, track),
        }
    }

    /// Whether watchers are told of the state at once.
    pub open spec fn tells(self, v: PlayerView) -> bool {
        match self {
            PlayerRequest::Skip(_) => repeats(v),
            PlayerRequest::BackSkip(_) => goes_back(v),
            PlayerRequest::ClearQueue(_) => v.playlist.len() > 0,
            PlayerRequest::Playback(_, _) => true,
            PlayerRequest::PauseResume(_) => false,
            PlayerRequest::Enqueue(_, _) => v.playlist.len() < MUSIC_QUEUE_LIMIT,
        }
    }

    /// What Lavalink is asked for, if anything.
    pub open spec fn command(self, v: PlayerView) -> Option<LavalinkCommand> {
        match self {
            PlayerRequest::Skip(_) => Some(LavalinkCommand::Stop),
            PlayerRequest::BackSkip(_) => Some(LavalinkCommand::Stop),
            PlayerRequest::ClearQueue(_) => None,
            PlayerRequest::Playback(_, _) => None,
            PlayerRequest::PauseResume(_) => Some(toggle_of(v)),
            PlayerRequest::Enqueue(track, _) => if v.playlist.len() < MUSIC_QUEUE_LIMIT
                && v.current is None {
                Some(LavalinkCommand::Play(queued(v, track).playlist.first()))
            } else {
                None
            },
        }
    }

    /// The track that a full playlist refuses, if the request is for one.
    pub open spec fn refused(self, v: PlayerView) -> Option<Track> {
        match self {
            PlayerRequest::Enqueue(track, _) if v.playlist.len() >= MUSIC_QUEUE_LIMIT => Some(
                track,
            ),
            _ => None,
        }
    }
}

/// Why a guild's players could not do what was asked.
#[derive(Debug)]
pub enum PlayerMapError {
    NoPlayerFound(ChannelId),
    /// Whoever searched went away without a result.
    SearchSenderDropped(),
    PlayerError(PlayerError),
    NoFreeBot(),
    NoBotWithID(UserId, GuildId),
    PlayerAlreadyExists(UserId),
    NoLavalink(UserId),
}

impl PlayerMapError {
    /// Whether a Lavalink client is gone.
    pub open spec fn fatal(self) -> bool {
        self matches PlayerMapError::PlayerError(e) && e.fatal()
    }

    /// Whether a Lavalink client is gone, so that it has to be replaced.
    pub fn is_fatal(&self) -> (r: bool)
        ensures
            r == self.fatal(),
    {
        match self {
            PlayerMapError::PlayerError(e) => e.is_fatal(),
            _ => false,
        }
    }
}

/// An error with what it calls for: a player to disconnect, and a client to replace.
pub struct Failure {
    pub error: PlayerMapError,
    pub disconnect: Option<Player>,
    pub renew: Option<(UserId, ClientId)>,
}

impl Failure {
    /// An error that calls for nothing.
    pub open spec fn is_plain(self, error: PlayerMapError) -> bool {
        self.error == error && self.disconnect is None && self.renew is None
    }

    fn plain(error: PlayerMapError) -> (r: Failure)
        ensures
            r.is_plain(error),
    {
        Failure { error, disconnect: None, renew: None }
    }
}

/// What to ask a bot's Lavalink client for. With `toggles`, a good reply pauses or resumes the
/// player.
pub struct Call {
    pub bot: UserId,
    pub lavalink: ClientId,
    pub command: LavalinkCommand,
    pub toggles: bool,
}

/// What follows a request or an event.
pub enum RequestNext {
    Done(Result<(), Failure>),
    Ask(Call),
}

/// What happened while a voice channel is joined.
pub enum JoinReply {
    Begin,
    /// The bot at a place got a player in the channel, or not.
    Tried(usize, bool),
}

/// What follows.
pub enum JoinNext {
    /// The bot at a place tries to get a player in the channel.
    Try(usize),
    Done(Result<(), PlayerMapError>),
}

/// The players of a guild: all bots as main keys, indexed by client and by voice channel.
type PlayerIndex = TripleHashMap<u64, u64, u64, ()>;

/// The players of one guild.
pub struct PlayerManager {
    guild: GuildId,
    index: PlayerIndex,
    players: HashMap<u64, Player>,
    player_states: Vec<PlayerState>,
}

/// The contents of a [`PlayerManager`].
#[verifier::ext_equal]
pub struct ManagerView {
    pub guild: GuildId,
    pub index: TripleView<u64, u64, u64, ()>,
    /// The player of each bot that has one.
    pub players: Map<u64, PlayerModel>,
    /// What watchers were last told of each player, in the order in which the players came.
    pub states: Seq<PlayerView>,
}

/// What watchers see once they were told of a state: it takes the place of what they saw of the
/// same bot.
pub open spec fn published(states: Seq<PlayerView>, told: PlayerView) -> Seq<PlayerView> {
    states.map_values(
        |seen: PlayerView|
            if seen.bot == told.bot {
                told
            } else {
                seen
            },
    )
}

impl ManagerView {
    /// Every player belongs to a bot of the guild, and knows which.
    pub open spec fn wf(self) -> bool {
        forall|bot: u64| #[trigger]
            self.players.contains_key(bot) ==> self.index.entries.contains_key(bot)
                && self.players[bot].state.bot.0 == bot
    }

    /// The bot whose player is in a voice channel, if the index leads to one that has a player.
    pub open spec fn in_channel(self, channel: ChannelId) -> Option<u64> {
        match self.index.follow(self.index.two, channel.0) {
            Some((bot, _)) if self.players.contains_key(bot) => Some(bot),
            _ => None,
        }
    }

    /// The bot whose player plays through a client, if the index leads to one that has a player.
    pub open spec fn with_client(self, client: ClientId) -> Option<u64> {
        match self.index.follow(self.index.one, client.0) {
            Some((bot, _)) if self.players.contains_key(bot) => Some(bot),
            _ => None,
        }
    }

    /// After a bot's player came to a state, of which watchers were told or not.
    pub open spec fn set_state(self, bot: u64, state: PlayerView, told: bool) -> ManagerView {
        ManagerView {
            players: self.players.insert(bot, PlayerModel { state, ..self.players[bot] }),
            states: if told {
                published(self.states, state)
            } else {
                self.states
            },
            ..self
        }
    }

    /// After an error of a bot's client: where it is fatal, the bot loses its player, and with it
    /// what the player was found by.
    pub open spec fn after_error(self, error: PlayerMapError, bot: UserId) -> ManagerView {
        if error.fatal() && self.players.contains_key(bot.0) {
            ManagerView {
                index: self.index.unkeyed(bot.0),
                players: self.players.remove(bot.0),
                ..self
            }
        } else {
            self
        }
    }

    /// What an error of a bot's client calls for: where it is fatal, the player is disconnected
    /// and the client replaced.
    pub open spec fn calls_for(
        self,
        failure: Failure,
        error: PlayerMapError,
        bot: UserId,
        lavalink: ClientId,
    ) -> bool {
        &&& failure.error == error
        &&& if error.fatal() {
            &&& failure.renew == Some((bot, lavalink))
            &&& match failure.disconnect {
                Some(player) => self.players.contains_key(bot.0) && player@ == self.players[bot.0],
                None => !self.players.contains_key(bot.0),
            }
        } else {
            failure.renew is None && failure.disconnect is None
        }
    }
}

impl View for PlayerManager {
    type V = ManagerView;

    closed spec fn view(&self) -> ManagerView {
        ManagerView {
            guild: self.guild,
            index: self.index@,
            players: self.players@.map_values(|p: Player| p@),
            states: self.player_states@.map_values(|s: PlayerState| s@),
        }
    }
}

/// `SliceRandom::shuffle` with `rand::thread_rng`: the same items in some order, which chance
/// decides.
#[verifier::external_body]
pub(crate) fn shuffled(bots: Vec<UserId>) -> (r: Vec<UserId>)
    ensures
        r@.to_multiset() == bots@.to_multiset(),
{
    let mut r = bots;
    r.shuffle(&mut rand::thread_rng());
    r
}

impl PlayerManager {
    /// The players of a guild that no bot has joined yet.
    pub fn new(guild: GuildId, bots: &BotMap) -> (r: PlayerManager)
        ensures
            r@.wf(),
            r@.guild == guild,
            r@.index.unindexed(),
            forall|bot: u64| #[trigger]
                r@.index.entries.contains_key(bot) <==> has_bot(bots@, UserId(bot)),
            r@.players == Map::<u64, PlayerModel>::empty(),
            r@.states == Seq::<PlayerView>::empty(),
    {
        let mut index: PlayerIndex = TripleHashMap::new();
        let ids = bots.ids();
        let mut i: usize = 0;
        while i < ids.len()
            invariant
                ids@ == ids_of(bots@),
                i <= ids@.len(),
                index@.unindexed(),
                forall|bot: u64| #[trigger]
                    index@.entries.contains_key(bot) <==> exists|j: int|
                        0 <= j < i && (#[trigger] ids@[j]).0 == bot,
            decreases ids.len() - i,
        {
            let ghost before = index@;
            index.insert(ids[i].0, ());
            proof {
                assert forall|bot: u64| #[trigger] index@.entries.contains_key(bot) <==> exists|
                    j: int,
                |
                    0 <= j < i + 1 && (#[trigger] ids@[j]).0 == bot by {
                    if index@.entries.contains_key(bot) {
                        if bot == ids@[i as int].0 {
                        } else {
                            assert(before.entries.contains_key(bot));
                        }
                    }
                }
            }
            i += 1;
        }
        let r = PlayerManager { guild, index, players: HashMap::new(), player_states: Vec::new() };
        proof {
            assert(r@.players =~= Map::<u64, PlayerModel>::empty());
            assert(r@.states =~= Seq::<PlayerView>::empty());
            assert forall|bot: u64| #[trigger]
                r@.index.entries.contains_key(bot) <==> has_bot(bots@, UserId(bot)) by {
                if r@.index.entries.contains_key(bot) {
                    let j = choose|j: int| 0 <= j < ids@.len() && (#[trigger] ids@[j]).0 == bot;
                    assert(bots@[j].spec_id() == UserId(bot));
                }
                if has_bot(bots@, UserId(bot)) {
                    let j = choose|j: int|
                        0 <= j < bots@.len() && (#[trigger] bots@[j]).spec_id() == UserId(bot);
                    assert(ids@[j].0 == bot);
                }
            }
        }
        r
    }

    /// Tells watchers of a state.
    fn publish(&mut self, state: &PlayerState)
        ensures
            final(self)@ == (ManagerView {
                states: published(old(self)@.states, state@),
                ..old(self)@
            }),
    {
        let mut seen: Vec<PlayerState> = Vec::new();
        let mut i: usize = 0;
        let ghost states = self@.states;
        while i < self.player_states.len()
            invariant
                *self == *old(self),
                states == self@.states,
                i <= self.player_states@.len(),
                seen@.len() == i,
                forall|j: int|
                    0 <= j < i ==> (#[trigger] seen@[j])@ == published(states, state@)[j],
            decreases self.player_states.len() - i,
        {
            if self.player_states[i].bot == state.bot {
                seen.push(state.clone());
            } else {
                seen.push(self.player_states[i].clone());
            }
            i += 1;
        }
        self.player_states = seen;
        assert(self@.states =~= published(states, state@));
    }

    /// The bot whose player is in a voice channel.
    fn bot_of_channel(&self, channel: ChannelId) -> (r: Option<u64>)
        ensures
            r == self@.in_channel(channel),
    {
        match self.index.get_k2(&channel.0) {
            Some((bot, _)) => if self.players.contains_key(bot) {
                Some(*bot)
            } else {
                None
            },
            None => None,
        }
    }

    /// Whether some player is in a voice channel.
    pub fn bot_in_channel(&self, channel: &ChannelId) -> (r: bool)
        ensures
            r == (self@.in_channel(*channel) is Some),
    {
        self.bot_of_channel(*channel).is_some()
    }

    /// Puts a bot's player back after a command, and tells watchers where a state is given.
    fn put_back(&mut self, bot: u64, player: Player, told: Option<PlayerState>)
        ensures
            final(self)@ == (ManagerView {
                players: old(self)@.players.insert(bot, player@),
                states: match told {
                    Some(state) => published(old(self)@.states, state@),
                    None => old(self)@.states,
                },
                ..old(self)@
            }),
    {
        self.players.insert(bot, player);
        assert(self@.players =~= old(self)@.players.insert(bot, player@));
        if let Some(state) = told {
            self.publish(&state);
        }
    }

    /// Asks the player in a voice channel for something. The player takes the request at once; what
    /// Lavalink has to do is returned, and its reply goes to [`PlayerManager::answer`].
    pub fn request(&mut self, request: PlayerRequest) -> (r: RequestNext)
        requires
            old(self)@.wf(),
        ensures
            final(self)@.wf(),
            request_handled(old(self)@, final(self)@, request, r),
    {
        let channel = request.get_channel();
        let bot: u64 = match self.bot_of_channel(channel) {
            Some(bot) => bot,
            None => {
                return RequestNext::Done(
                    Err(Failure::plain(PlayerMapError::NoPlayerFound(channel))),
                );
            },
        };
        let ghost before = self@;
        let mut player = self.players.remove(&bot).unwrap();
        assert(player@ == before.players[bot]);
        assert(self@.players =~= before.players.remove(bot));
        let lavalink = player.get_lavalink();
        let mut ask: Option<LavalinkCommand> = None;
        let mut toggles = false;
        let mut told: Option<PlayerState> = None;
        let mut failed: Option<PlayerError> = None;
        match request {
            PlayerRequest::Skip(_) => {
                let (state, command) = player.skip();
                told = state;
                ask = Some(command);
            },
            PlayerRequest::BackSkip(_) => {
                let (state, command) = player.back_skip();
                told = state;
                ask = Some(command);
            },
            PlayerRequest::ClearQueue(_) => {
                told = player.clear_queue();
            },
            PlayerRequest::Playback(playback, _) => {
                told = Some(player.playback(playback));
            },
            PlayerRequest::PauseResume(_) => {
                ask = Some(player.toggle_command());
                toggles = true;
            },
            PlayerRequest::Enqueue(track, _) => match player.enqueue(track) {
                Err(e) => {
                    failed = Some(e);
                },
                Ok(None) => {
                    told = Some(player.get_state());
                },
                Ok(Some((_, command))) => {
                    told = Some(player.get_state());
                    ask = Some(command);
                },
            },
        }
        self.put_back(bot, player, told);
        assert(self@.players =~= before.set_state(
            bot,
            request.effect(before.players[bot].state),
            request.tells(before.players[bot].state),
        ).players);
        match failed {
            Some(e) => RequestNext::Done(Err(Failure::plain(PlayerMapError::PlayerError(e)))),
            None => match ask {
                Some(command) => RequestNext::Ask(
                    Call { bot: UserId(bot), lavalink, command, toggles },
                ),
                None => RequestNext::Done(Ok(())),
            },
        }
    }

    /// What an error of a bot's client leads to. Where the client is gone, the bot's player is
    /// given up, and the client is to be replaced.
    fn handle_error(&mut self, error: PlayerMapError, bot: UserId, lavalink: ClientId) -> (r:
        Failure)
        requires
            old(self)@.wf(),
        ensures
            final(self)@.wf(),
            final(self)@ == old(self)@.after_error(error, bot),
            old(self)@.calls_for(r, error, bot, lavalink),
    {
        if !error.is_fatal() {
            return Failure::plain(error);
        }
        let ghost before = self@;
        let player = self.players.remove(&bot.0);
        assert(self@.players =~= before.players.remove(bot.0));
        if player.is_some() {
            self.index.sub_k1_k2(&bot.0);
        } else {
            assert(before.players.remove(bot.0) =~= before.players);
        }
        Failure { error, disconnect: player, renew: Some((bot, lavalink)) }
    }

    /// Takes Lavalink's reply to a call.
    pub fn answer(&mut self, call: Call, reply: Result<(), LavalinkError>) -> (r: Result<
        (),
        Failure,
    >)
        requires
            old(self)@.wf(),
        ensures
            final(self)@.wf(),
            reply_handled(old(self)@, final(self)@, call, reply, r),
    {
        match reply {
            Err(e) => Err(
                self.handle_error(
                    PlayerMapError::PlayerError(PlayerError::Lavalink(e)),
                    call.bot,
                    call.lavalink,
                ),
            ),
            Ok(_) => {
                if call.toggles {
                    let ghost before = self@;
                    let player = self.players.remove(&call.bot.0);
                    assert(self@.players =~= before.players.remove(call.bot.0));
                    match player {
                        Some(mut player) => {
                            let told = match player.dynamic_pause_resume(Ok(())) {
                                Ok(state) => Some(state),
                                Err(_) => None,
                            };
                            self.put_back(call.bot.0, player, told);
                            assert(self@.players =~= before.set_state(
                                call.bot.0,
                                flipped(before.players[call.bot.0].state),
                                true,
                            ).players);
                        },
                        None => {
                            assert(before.players.remove(call.bot.0) =~= before.players);
                        },
                    }
                }
                Ok(())
            },
        }
    }

    /// Whom to search with for a voice channel: the bot whose player is there, and its client.
    pub fn search(&self, channel: ChannelId) -> (r: Result<(UserId, ClientId), PlayerMapError>)
        ensures
            r == searcher_in(self@, channel),
    {
        match self.bot_of_channel(channel) {
            Some(bot) => Ok((UserId(bot), self.players.get(&bot).unwrap().get_lavalink())),
            None => Err(PlayerMapError::NoPlayerFound(channel)),
        }
    }

    /// Takes what a search brought, or that whoever searched went away.
    pub fn searched(
        &mut self,
        bot: UserId,
        lavalink: ClientId,
        reply: Option<Result<Tracks, LavalinkError>>,
    ) -> (r: Result<(UserId, Vec<Track>), Failure>)
        requires
            old(self)@.wf(),
        ensures
            final(self)@.wf(),
            search_handled(old(self)@, final(self)@, bot, lavalink, reply, r),
    {
        match reply {
            None => Err(Failure::plain(PlayerMapError::SearchSenderDropped())),
            Some(reply) => match Player::search(reply) {
                Ok(tracks) => Ok((bot, tracks)),
                Err(e) => Err(self.handle_error(PlayerMapError::PlayerError(e), bot, lavalink)),
            },
        }
    }

    /// The bots in the order in which they are tried when a voice channel is to be joined: each
    /// once, in an order that chance decides.
    pub fn join(&self) -> (r: Vec<UserId>)
        ensures
            r@.no_duplicates(),
            forall|bot: UserId| r@.contains(bot) <==> self@.index.entries.contains_key(bot.0),
    {
        let listed = self.index.iter();
        let mut bots: Vec<UserId> = Vec::new();
        let mut i: usize = 0;
        while i < listed.len()
            invariant
                i <= listed@.len(),
                bots@.len() == i,
                forall|j: int| 0 <= j < i ==> (#[trigger] bots@[j]).0 == *listed@[j].0,
            decreases listed.len() - i,
        {
            bots.push(UserId(*listed[i].0));
            i += 1;
        }
        let ghost plain = bots@;
        let r = shuffled(bots);
        proof {
            assert forall|j: int, k: int| 0 <= j < plain.len() && 0 <= k < plain.len() && j
                != k implies plain[j] != plain[k] by {
                if j < k {
                    assert(*listed@[j].0 != *listed@[k].0);
                } else {
                    assert(*listed@[k].0 != *listed@[j].0);
                }
            }
            lemma_same_items(plain, r@);
            assert forall|bot: UserId| r@.contains(bot) <==> self@.index.entries.contains_key(
                bot.0,
            ) by {
                if plain.contains(bot) {
                    let j = plain.index_of(bot);
                    assert(self@.index.entries.contains_key(*listed@[j].0));
                }
                if self@.index.entries.contains_key(bot.0) {
                    let j = choose|j: int|
                        0 <= j < listed@.len() && *(#[trigger] listed@[j]).0 == bot.0;
                    assert(plain[j] == bot);
                }
            }
        }
        r
    }

    /// The first bot from a place in a list on that has no player.
    fn next_free(&self, bots: &Vec<UserId>, from: usize) -> (r: Option<usize>)
        ensures
            match r {
                Some(i) => is_next_free(self@, bots@, from as int, i as int),
                None => forall|j: int|
                    from <= j < bots@.len() ==> self@.players.contains_key((#[trigger] bots@[j]).0),
            },
    {
        let mut i: usize = from;
        while i < bots.len()
            invariant
                from <= i,
                forall|j: int|
                    from <= j < i && j < bots@.len() ==> self@.players.contains_key(
                        (#[trigger] bots@[j]).0,
                    ),
            decreases bots.len() - i,
        {
            if !self.players.contains_key(&bots[i].0) {
                return Some(i);
            }
            i += 1;
        }
        None
    }

    /// How a voice channel is joined, with the bots in the order that [`PlayerManager::join`] gave.
    /// The bots that have no player try, one after another, until one succeeds. Why one did not is
    /// passed over; where none did, no bot is free.
    pub fn join_step(&self, bots: &Vec<UserId>, reply: JoinReply) -> (r: JoinNext)
        requires
            reply matches JoinReply::Tried(i, _) ==> i < bots@.len(),
        ensures
            joining_goes_on(self@, bots@, reply, r),
    {
        let n: usize = bots.len();
        let from: usize = match reply {
            JoinReply::Begin => 0,
            JoinReply::Tried(i, joined) => {
                if joined {
                    return JoinNext::Done(Ok(()));
                }
                assert(i < n);
                i + 1
            },
        };
        match self.next_free(bots, from) {
            Some(i) => JoinNext::Try(i),
            None => JoinNext::Done(Err(PlayerMapError::NoFreeBot())),
        }
    }

    /// Why a bot cannot get a player, or the client that it is to play through. The bot has to be
    /// one of the guild's, without a player, with connections, with the guild in its cache, and
    /// with a client; the first that fails is the reason.
    pub fn add_player(
        &self,
        bot: UserId,
        bots: &BotMap,
        guild_cached: bool,
        supervisor: &LavalinkSupervisor,
    ) -> (r: Result<ClientId, PlayerMapError>)
        ensures
            r == addition_allowed(self@, bot, bots@, guild_cached, supervisor@),
    {
        if self.index.get(&bot.0).is_none() {
            return Err(PlayerMapError::NoBotWithID(bot, self.guild));
        }
        if self.players.contains_key(&bot.0) {
            return Err(PlayerMapError::PlayerAlreadyExists(bot));
        }
        if !bots.contains_id(&bot) || !guild_cached {
            return Err(PlayerMapError::NoBotWithID(bot, self.guild));
        }
        match supervisor.request_current(bot) {
            Some(client) => Ok(client),
            None => Err(PlayerMapError::NoLavalink(bot)),
        }
    }

    /// Takes the player that a bot of the guild got, or why it got none.
    pub fn player_added(
        &mut self,
        bot: UserId,
        lavalink: ClientId,
        connected: Result<Player, PlayerError>,
    ) -> (r: Result<(), Failure>)
        requires
            old(self)@.wf(),
            old(self)@.index.entries.contains_key(bot.0),
            connected matches Ok(player) ==> player.state().bot == bot,
        ensures
            final(self)@.wf(),
            addition_handled(old(self)@, final(self)@, bot, lavalink, connected, r),
    {
        match connected {
            Err(e) => Err(self.handle_error(PlayerMapError::PlayerError(e), bot, lavalink)),
            Ok(player) => {
                let ghost before = self@;
                let channel = player.get_channel();
                self.player_states.push(player.get_state());
                assert(self@.states =~= before.states.push(player@.state));
                self.put_back(bot.0, player, None);
                self.index.add_k1_k2(bot.0, lavalink.0, channel.0);
                Ok(())
            },
        }
    }

    /// Gives up the player in a voice channel. Its bot is no longer found by channel or client
    /// even where it turns out to have no player. The player is to be disconnected, and watchers
    /// no longer see it.
    pub fn leave(&mut self, channel: ChannelId) -> (r: Result<Player, PlayerMapError>)
        requires
            old(self)@.wf(),
        ensures
            final(self)@.wf(),
            leaving_handled(old(self)@, final(self)@, channel, r),
    {
        let bot: u64 = match self.index.get_k2(&channel.0) {
            Some((bot, _)) => *bot,
            None => {
                return Err(PlayerMapError::NoPlayerFound(channel));
            },
        };
        let ghost before = self@;
        self.index.sub_k1_k2(&bot);
        let player = self.players.remove(&bot);
        assert(self@.players =~= before.players.remove(bot));
        match player {
            None => {
                assert(before.players.remove(bot) =~= before.players);
                Err(PlayerMapError::NoPlayerFound(channel))
            },
            Some(player) => {
                self.forget_states(UserId(bot));
                Ok(player)
            },
        }
    }

    /// Hides a bot from watchers.
    fn forget_states(&mut self, bot: UserId)
        ensures
            final(self)@ == (ManagerView {
                states: without_bot(old(self)@.states, bot),
                ..old(self)@
            }),
    {
        let mut kept: Vec<PlayerState> = Vec::new();
        let mut i: usize = 0;
        let ghost states = self@.states;
        let ghost mut kept_views: Seq<PlayerView> = Seq::empty();
        assert(states.take(0) =~= Seq::empty());
        reveal(Seq::filter);
        while i < self.player_states.len()
            invariant
                *self == *old(self),
                states == self@.states,
                i <= self.player_states@.len(),
                kept_views == kept@.map_values(|s: PlayerState| s@),
                kept_views == without_bot(states.take(i as int), bot),
            decreases self.player_states.len() - i,
        {
            proof {
                reveal(Seq::filter);
                assert(states.take(i + 1).drop_last() =~= states.take(i as int));
                assert(states.take(i + 1).last() == self.player_states@[i as int]@);
            }
            if self.player_states[i].bot != bot {
                let state = self.player_states[i].clone();
                proof {
                    kept_views = kept_views.push(state@);
                }
                kept.push(state);
            }
            assert(kept_views =~= kept@.map_values(|s: PlayerState| s@));
            i += 1;
        }
        assert(states.take(i as int) =~= states);
        self.player_states = kept;
    }

    /// What watchers see of all players, in the order in which the players came.
    pub fn get_all_player_states(&self) -> (r: Vec<PlayerState>)
        ensures
            r@.map_values(|s: PlayerState| s@) == self@.states,
    {
        let mut r: Vec<PlayerState> = Vec::new();
        let mut i: usize = 0;
        while i < self.player_states.len()
            invariant
                i <= self.player_states@.len(),
                r@.len() == i,
                forall|j: int| 0 <= j < i ==> (#[trigger] r@[j])@ == self@.states[j],
            decreases self.player_states.len() - i,
        {
            r.push(self.player_states[i].clone());
            i += 1;
        }
        assert(r@.map_values(|s: PlayerState| s@) =~= self@.states);
        r
    }

    /// Takes a report of a client, at `now` seconds after the Unix epoch. It goes to the player
    /// that plays through the client; without one the report fails.
    pub fn handle_player_event(
        &mut self,
        event: LavalinkEvent,
        client: ClientId,
        now: u64,
    ) -> (r: Result<Option<Call>, ()>)
        requires
            old(self)@.wf(),
            event matches LavalinkEvent::Update(update) ==> update.time as u64 <= now
                && reported_nanos(update, now) <= max_nanos(),
        ensures
            final(self)@.wf(),
            r is Err <==> old(self)@.with_client(client) is None,
            report_handled(
                old(self)@,
                final(self)@,
                event,
                client,
                now,
                match r {
                    Ok(call) => call,
                    Err(_) => None,
                },
            ),
    {
        let bot: u64 = match self.index.get_k1(&client.0) {
            Some((bot, _)) => *bot,
            None => {
                return Err(());
            },
        };
        let ghost before = self@;
        let mut player = match self.players.remove(&bot) {
            Some(player) => player,
            None => {
                assert(self@.players =~= before.players);
                return Err(());
            },
        };
        assert(self@.players =~= before.players.remove(bot));
        let lavalink = player.get_lavalink();
        match event {
            LavalinkEvent::Update(update) => {
                let ghost old_state = player.state();
                let changed = player.update(update, now);
                let ghost new_state = player.state();
                let told = if changed {
                    Some(player.get_state())
                } else {
                    None
                };
                self.put_back(bot, player, told);
                proof {
                    assert(moved_to(old_state, new_state, update, now));
                    assert(self@ =~= before.set_state(bot, new_state, new_state != old_state));
                }
                Ok(None)
            },
            LavalinkEvent::Start(_) => {
                player.track_start();
                self.put_back(bot, player, None);
                assert(self@ =~= before);
                Ok(None)
            },
            LavalinkEvent::Finish(_) => {
                let (changed, command) = player.track_end();
                let told = if changed {
                    Some(player.get_state())
                } else {
                    None
                };
                self.put_back(bot, player, told);
                assert(self@ =~= before.set_state(
                    bot,
                    moved_on(before.players[bot].state),
                    ended_tells(before.players[bot].state),
                ));
                Ok(Some(Call { bot: UserId(bot), lavalink, command, toggles: false }))
            },
        }
    }
}

/// Whether a guild's players took a report of a client as they should: it goes to the player that
/// plays through the client. Where playback stands moves the position, the end of a track makes the
/// player move on and asks the client for what comes next, and its start changes nothing.
pub open spec fn report_handled(
    before: ManagerView,
    after: ManagerView,
    event: LavalinkEvent,
    client: ClientId,
    now: u64,
    call: Option<Call>,
) -> bool {
    match before.with_client(client) {
        None => after == before && call is None,
        Some(bot) => {
            let player = before.players[bot];
            match event {
                LavalinkEvent::Update(update) => {
                    &&& call is None
                    &&& exists|state: PlayerView|
                        #![trigger moved_to(player.state, state, update, now)]
                        moved_to(player.state, state, update, now) && after == before.set_state(
                            bot,
                            state,
                            state != player.state,
                        )
                },
                LavalinkEvent::Start(_) => after == before && call is None,
                LavalinkEvent::Finish(_) => {
                    &&& call == Some(
                        Call {
                            bot: UserId(bot),
                            lavalink: player.lavalink,
                            command: match next_track(player.state) {
                                Some(track) => LavalinkCommand::Play(track),
                                None => LavalinkCommand::Stop,
                            },
                            toggles: false,
                        },
                    )
                    &&& after == before.set_state(
                        bot,
                        moved_on(player.state),
                        ended_tells(player.state),
                    )
                },
            }
        },
    }
}

/// Whether watchers are told when a track ends.
pub open spec fn ended_tells(v: PlayerView) -> bool {
    v.current is Some && v.playback != Playback::OneLoop || draws(v)
}

/// Whether a report on where playback stands moves a player from one state to another: the
/// position becomes the reported one where the two differ by whole seconds, and nothing else
/// changes.
pub open spec fn moved_to(
    before: PlayerView,
    after: PlayerView,
    update: PlayerUpdate,
    now: u64,
) -> bool {
    match before.current {
        Some((position, track)) if duration_secs(position) != reported_nanos(update, now)
            / 1_000_000_000 => {
            &&& after == (PlayerView { current: after.current, ..before })
            &&& after.current matches Some((moved, same)) && duration_nanos(moved)
                == reported_nanos(update, now) && same == track
        },
        _ => after == before,
    }
}

/// What watchers see once a bot is hidden from them.
pub open spec fn without_bot(states: Seq<PlayerView>, bot: UserId) -> Seq<PlayerView> {
    states.filter(|s: PlayerView| s.bot != bot)
}


/// Whether a place is the first from another on whose bot has no player.
pub open spec fn is_next_free(m: ManagerView, bots: Seq<UserId>, from: int, i: int) -> bool {
    &&& from <= i < bots.len()
    &&& !m.players.contains_key(bots[i].0)
    &&& forall|j: int| from <= j < i ==> m.players.contains_key((#[trigger] bots[j]).0)
}

/// Whether joining goes on with the first bot from a place on that has no player, or ends where
/// there is none.
pub open spec fn goes_on_from(m: ManagerView, bots: Seq<UserId>, from: int, next: JoinNext) -> bool {
    match next {
        JoinNext::Try(i) => is_next_free(m, bots, from, i as int),
        JoinNext::Done(result) => {
            &&& result == Err::<(), PlayerMapError>(PlayerMapError::NoFreeBot())
            &&& forall|j: int|
                from <= j < bots.len() ==> m.players.contains_key((#[trigger] bots[j]).0)
        },
    }
}

/// What a search comes to.
pub open spec fn search_result(reply: Option<Result<Tracks, LavalinkError>>) -> Result<
    Vec<Track>,
    PlayerMapError,
> {
    match reply {
        None => Err(PlayerMapError::SearchSenderDropped()),
        Some(Err(e)) => Err(PlayerMapError::PlayerError(PlayerError::Lavalink(e))),
        Some(Ok(found)) => if found.load_type@ == "LOAD_FAILED"@ {
            Err(PlayerMapError::PlayerError(PlayerError::SearchFailed(found.load_type)))
        } else {
            Ok(found.tracks)
        },
    }
}

/// A list without repetition keeps its items and stays without repetition in any order.
pub proof fn lemma_same_items(a: Seq<UserId>, b: Seq<UserId>)
    requires
        a.no_duplicates(),
        a.to_multiset() == b.to_multiset(),
    ensures
        b.no_duplicates(),
        forall|x: UserId| a.contains(x) <==> b.contains(x),
{
    a.to_multiset_ensures();
    b.to_multiset_ensures();
    a.lemma_multiset_has_no_duplicates();
    b.lemma_multiset_has_no_duplicates_conv();
    assert forall|x: UserId| a.contains(x) <==> b.contains(x) by {
        assert(a.contains(x) <==> a.to_multiset().count(x) > 0);
        assert(b.contains(x) <==> b.to_multiset().count(x) > 0);
    }
}

/// Nobody is found by voice channel or by client in a guild that nothing is indexed in, and a player
/// that comes or goes changes nothing about that. As a guild starts out that way, its players are
/// never found by either.
pub proof fn law_nobody_is_found(
    m: ManagerView,
    channel: ChannelId,
    client: ClientId,
    bot: UserId,
    error: PlayerMapError,
)
    requires
        m.index.unindexed(),
    ensures
        m.in_channel(channel) is None,
        m.with_client(client) is None,
        m.index.rekeyed(bot.0, client.0, channel.0).unindexed(),
        m.after_error(error, bot).index.unindexed(),
{
}

/// Watchers see each bot as they were last told, in the order in which the players came: telling
/// them of one bot changes nothing about the others.
pub proof fn law_telling_of_one_keeps_the_others(
    states: Seq<PlayerView>,
    told: PlayerView,
    i: int,
)
    requires
        0 <= i < states.len(),
    ensures
        published(states, told).len() == states.len(),
        published(states, told)[i] == if states[i].bot == told.bot {
            told
        } else {
            states[i]
        },
        published(states, told)[i].bot == states[i].bot,
{
}

/// A bot that was hidden from watchers is seen no more, and the others still are.
pub proof fn law_hidden_bots_are_not_seen(states: Seq<PlayerView>, bot: UserId, state: PlayerView)
    ensures
        without_bot(states, bot).contains(state) <==> states.contains(state) && state.bot != bot,
{
    broadcast use vstd::seq_lib::group_filter_ensures;

    let kept = |s: PlayerView| s.bot != bot;
    if states.contains(state) && state.bot != bot {
        let i = states.index_of(state);
        assert(kept(states[i]));
    }
    if without_bot(states, bot).contains(state) {
        let i = without_bot(states, bot).index_of(state);
        assert(kept(states.filter(kept)[i]));
        states.lemma_filter_contains_rev(kept, state);
    }
}

/// Each request does to a player what it is called: which state it leaves, what Lavalink is asked
/// for, and whether watchers are told.
pub proof fn law_requests_do_what_they_say(v: PlayerView, channel: ChannelId, asked: Playback)
    ensures
        PlayerRequest::Skip(channel).effect(v) == skipped(v),
        PlayerRequest::Skip(channel).command(v) == Some(LavalinkCommand::Stop),
        PlayerRequest::Skip(channel).tells(v) <==> v.playback == Playback::OneLoop && v.current
            is Some,
        PlayerRequest::BackSkip(channel).effect(v) == moved_back(v),
        PlayerRequest::BackSkip(channel).command(v) == Some(LavalinkCommand::Stop),
        PlayerRequest::BackSkip(channel).tells(v) <==> v.current is Some || v.history.len() > 0,
        PlayerRequest::ClearQueue(channel).effect(v) == (PlayerView {
            playlist: Seq::empty(),
            ..v
        }),
        PlayerRequest::ClearQueue(channel).command(v) is None,
        PlayerRequest::ClearQueue(channel).tells(v) <==> v.playlist.len() > 0,
        PlayerRequest::Playback(asked, channel).effect(v) == (PlayerView {
            playback: if v.playback == asked {
                Playback::Normal
            } else {
                asked
            },
            ..v
        }),
        PlayerRequest::Playback(asked, channel).command(v) is None,
        PlayerRequest::Playback(asked, channel).tells(v),
        PlayerRequest::PauseResume(channel).effect(v) == v,
        PlayerRequest::PauseResume(channel).command(v) == Some(
            if v.play_state == PlayState::Play {
                LavalinkCommand::Pause
            } else {
                LavalinkCommand::Resume
            },
        ),
        !PlayerRequest::PauseResume(channel).tells(v),
{
    assert(PlayerRequest::ClearQueue(channel).effect(v).playlist =~= Seq::empty());
}

/// A track that is asked for goes behind the playlist, or is refused where that is full. Where
/// nothing is current, Lavalink is asked for the first of the playlist, or for the track itself
/// where there was none.
pub proof fn law_enqueued_tracks_are_played(v: PlayerView, channel: ChannelId, track: Track)
    ensures
        ({
            let request = PlayerRequest::Enqueue(track, channel);
            &&& v.playlist.len() >= 100 ==> request.refused(v) == Some(track)
                && request.effect(v) == v && request.command(v) is None && !request.tells(v)
            &&& v.playlist.len() < 100 ==> request.refused(v) is None && request.tells(v)
            &&& v.playlist.len() < 100 && v.current is Some ==> request.command(
                v,
            ) is None && request.effect(v) == (PlayerView {
                playlist: v.playlist.push(track),
                ..v
            })
            &&& v.playlist.len() < 100 && v.current is None ==> request.command(v)
                == Some(
                LavalinkCommand::Play(
                    if v.playlist.len() > 0 {
                        v.playlist[0]
                    } else {
                        track
                    },
                ),
            ) && request.effect(v).playlist == v.playlist.push(track).skip(1)
        }),
{
    let request = PlayerRequest::Enqueue(track, channel);
    if v.playlist.len() < 100 && v.current is None {
        assert(request.effect(v).playlist =~= v.playlist.push(track).skip(1));
    }
}

/// Nothing but a track is refused, and every request is for the channel that it names.
pub proof fn law_requests_name_their_channel(
    request: PlayerRequest,
    v: PlayerView,
    channel: ChannelId,
    asked: Playback,
    track: Track,
)
    ensures
        request.refused(v) is Some ==> request is Enqueue,
        (request == PlayerRequest::Skip(channel) || request == PlayerRequest::BackSkip(channel)
            || request == PlayerRequest::ClearQueue(channel) || request == PlayerRequest::Playback(
            asked,
            channel,
        ) || request == PlayerRequest::PauseResume(channel) || request == PlayerRequest::Enqueue(
            track,
            channel,
        )) ==> request.channel() == channel,
{
}

/// A report on where playback stands leaves the player at the reported second, and at the very
/// position that it was at where the second is the same. Nothing but the position changes.
pub proof fn law_position_follows_the_report(
    before: PlayerView,
    after: PlayerView,
    update: PlayerUpdate,
    now: u64,
)
    requires
        moved_to(before, after, update, now),
    ensures
        before.current is None ==> after == before,
        before.current matches Some((position, track)) ==> (after.current matches Some((moved, same))
            && same == track && duration_secs(moved) == reported_nanos(update, now) / 1_000_000_000
            && (duration_secs(position) == reported_nanos(update, now) / 1_000_000_000 ==> moved
            == position) && (duration_secs(position) != reported_nanos(update, now) / 1_000_000_000
            ==> duration_nanos(moved) == reported_nanos(update, now))),
        after.bot == before.bot,
        after.playlist == before.playlist,
        after.history == before.history,
        after.play_state == before.play_state,
        after.playback == before.playback,
{
}

/// Only the closed connection of a Lavalink client is fatal.
pub proof fn law_only_dead_clients_are_fatal(error: PlayerMapError)
    ensures
        error.fatal() <==> (error matches PlayerMapError::PlayerError(PlayerError::Lavalink(e)) && e
            is ConnectionClosed),
{
}

/// A new state of a player takes the place of the old one. Where it is played, all other players and
/// the index stay; watchers see it exactly where they are told.
pub proof fn law_new_states_are_kept(
    m: ManagerView,
    bot: u64,
    state: PlayerView,
    told: bool,
    other: u64,
)
    ensures
        m.set_state(bot, state, told).players.contains_key(bot),
        m.set_state(bot, state, told).players[bot] == (PlayerModel { state, ..m.players[bot] }),
        other != bot ==> (m.set_state(bot, state, told).players.contains_key(other)
            <==> m.players.contains_key(other)) && m.set_state(bot, state, told).players[other]
            == m.players[other],
        m.set_state(bot, state, told).index == m.index,
        m.set_state(bot, state, told).guild == m.guild,
        !told ==> m.set_state(bot, state, told).states == m.states,
        told ==> m.set_state(bot, state, told).states.len() == m.states.len() && forall|i: int|
            0 <= i < m.states.len() ==> #[trigger] m.set_state(bot, state, told).states[i]
                == if m.states[i].bot == state.bot {
                state
            } else {
                m.states[i]
            },
{
}

/// An error that is not fatal changes nothing and calls for nothing. A fatal one takes the bot's
/// player away, and only that, and calls for another client.
pub proof fn law_fatal_errors_take_the_player(
    m: ManagerView,
    error: PlayerMapError,
    bot: UserId,
    lavalink: ClientId,
    failure: Failure,
    other: u64,
)
    ensures
        !error.fatal() ==> m.after_error(error, bot) == m,
        error.fatal() ==> !m.after_error(error, bot).players.contains_key(bot.0),
        other != bot.0 ==> (m.after_error(error, bot).players.contains_key(other)
            <==> m.players.contains_key(other)) && m.after_error(error, bot).players[other]
            == m.players[other],
        m.after_error(error, bot).states == m.states,
        m.after_error(error, bot).guild == m.guild,
        m.calls_for(failure, error, bot, lavalink) ==> {
            &&& failure.error == error
            &&& error.fatal() ==> failure.renew == Some((bot, lavalink))
            &&& error.fatal() && m.players.contains_key(bot.0) ==> (failure.disconnect matches Some(
                player,
            ) && player@ == m.players[bot.0])
            &&& error.fatal() && !m.players.contains_key(bot.0) ==> failure.disconnect is None
            &&& !error.fatal() ==> failure.renew is None && failure.disconnect is None
        },
{
}

/// A player is found by its channel, and by its client, where the index leads to a bot that has a
/// player; else nobody is.
pub proof fn law_players_are_found_by_their_keys(
    m: ManagerView,
    channel: ChannelId,
    client: ClientId,
    bot: u64,
)
    ensures
        m.in_channel(channel) == Some(bot) ==> m.players.contains_key(bot),
        m.with_client(client) == Some(bot) ==> m.players.contains_key(bot),
        m.index.two.contains_key(channel.0) && m.index.two[channel.0] == bot
            && m.index.entries.contains_key(bot) && m.players.contains_key(bot) ==> m.in_channel(
            channel,
        ) == Some(bot),
        m.index.one.contains_key(client.0) && m.index.one[client.0] == bot
            && m.index.entries.contains_key(bot) && m.players.contains_key(bot) ==> m.with_client(
            client,
        ) == Some(bot),
        !m.index.two.contains_key(channel.0) ==> m.in_channel(channel) is None,
        !m.index.one.contains_key(client.0) ==> m.with_client(client) is None,
{
}

/// A report of a client goes to the player that plays through it and to no other. At the end of a
/// track that does not repeat, the client is asked for the first of the playlist.
pub proof fn law_reports_reach_their_player(
    before: ManagerView,
    after: ManagerView,
    event: LavalinkEvent,
    client: ClientId,
    now: u64,
    call: Option<Call>,
    other: u64,
)
    requires
        report_handled(before, after, event, client, now, call),
    ensures
        before.with_client(client) is None ==> after == before && call is None,
        before.with_client(client) matches Some(bot) ==> {
            &&& !(event is Finish) ==> call is None
            &&& event is Start ==> after == before
            &&& event is Finish ==> (call matches Some(c) && c.bot == UserId(bot) && c.lavalink
                == before.players[bot].lavalink && !c.toggles)
            &&& event is Finish && before.players[bot].state.playback == Playback::Normal ==> call->0
                .command == if before.players[bot].state.playlist.len() > 0 {
                LavalinkCommand::Play(before.players[bot].state.playlist[0])
            } else {
                LavalinkCommand::Stop
            }
            &&& event is Finish && before.players[bot].state.playback == Playback::OneLoop ==> (
            before.players[bot].state.current matches Some((_, track)) ==> call->0.command
                == LavalinkCommand::Play(track))
            &&& event is Finish ==> after.players[bot] == (PlayerModel {
                state: moved_on(before.players[bot].state),
                ..before.players[bot]
            })
            &&& other != bot ==> (after.players.contains_key(other)
                <==> before.players.contains_key(other)) && after.players[other]
                == before.players[other]
        },
        after.index == before.index,
        after.guild == before.guild,
{
}

/// Watchers are told of the end of a track exactly where the playlist or the history changes by it:
/// where something was current that does not repeat, or where a track is drawn.
pub proof fn law_ends_of_tracks_are_told(v: PlayerView)
    requires
        v.playlist.len() <= 100,
    ensures
        v.playback != Playback::OneLoop ==> (ended_tells(v) <==> v.current is Some
            || v.playlist.len() > 0),
        v.playback == Playback::OneLoop ==> (ended_tells(v) <==> v.current is None
            && v.playlist.len() > 0),
{
}

/// Joining tries the next bot that has no player, and ends without one only where every bot that is
/// left has a player.
pub proof fn law_joining_tries_free_bots(
    m: ManagerView,
    bots: Seq<UserId>,
    from: int,
    next: JoinNext,
    k: int,
)
    requires
        0 <= from,
        goes_on_from(m, bots, from, next),
        from <= k < bots.len(),
        !m.players.contains_key(bots[k].0),
    ensures
        next matches JoinNext::Try(i) && from <= i <= k && !m.players.contains_key(
            bots[i as int].0,
        ),
{
}

/// Where no bot is left without a player, joining ends with that error.
pub proof fn law_joining_ends_without_free_bots(
    m: ManagerView,
    bots: Seq<UserId>,
    from: int,
    next: JoinNext,
)
    requires
        0 <= from,
        goes_on_from(m, bots, from, next),
        forall|k: int| from <= k < bots.len() ==> m.players.contains_key((#[trigger] bots[k]).0),
    ensures
        next == JoinNext::Done(Err(PlayerMapError::NoFreeBot())),
{
    if let JoinNext::Try(i) = next {
        assert(m.players.contains_key(bots[i as int].0));
    }
}

/// A search gives the tracks that Lavalink found, unless it says that loading failed, or fails
/// itself, or never answers.
pub proof fn law_searches_give_what_was_found(found: Tracks, error: LavalinkError)
    ensures
        found.load_type@ != "LOAD_FAILED"@ ==> search_result(Some(Ok(found))) == Ok::<
            Vec<Track>,
            PlayerMapError,
        >(found.tracks),
        found.load_type@ == "LOAD_FAILED"@ ==> search_result(Some(Ok(found))) == Err::<
            Vec<Track>,
            PlayerMapError,
        >(PlayerMapError::PlayerError(PlayerError::SearchFailed(found.load_type))),
        search_result(Some(Err(error))) == Err::<Vec<Track>, PlayerMapError>(
            PlayerMapError::PlayerError(PlayerError::Lavalink(error)),
        ),
        search_result(None) == Err::<Vec<Track>, PlayerMapError>(
            PlayerMapError::SearchSenderDropped(),
        ),
{
}

/// Whether a guild's players took a request as they should.
pub open spec fn request_handled(
    before: ManagerView,
    after: ManagerView,
    request: PlayerRequest,
    r: RequestNext,
) -> bool {
    match before.in_channel(request.channel()) {
        None => {
            &&& r matches RequestNext::Done(Err(failure))
            &&& failure.is_plain(PlayerMapError::NoPlayerFound(request.channel()))
            &&& after == before
        },
        Some(bot) => {
            let player = before.players[bot];
            &&& after == before.set_state(
                bot,
                request.effect(player.state),
                request.tells(player.state),
            )
            &&& match (request.refused(player.state), request.command(player.state)) {
                (Some(track), _) => r matches RequestNext::Done(Err(failure)) && failure.is_plain(
                    PlayerMapError::PlayerError(PlayerError::PlaylistFull(track)),
                ),
                (None, Some(command)) => r == RequestNext::Ask(
                    Call {
                        bot: UserId(bot),
                        lavalink: player.lavalink,
                        command,
                        toggles: request is PauseResume,
                    },
                ),
                (None, None) => r == RequestNext::Done(Ok(())),
            }
        },
    }
}

/// Whether a guild's players took Lavalink's reply to a call as they should.
pub open spec fn reply_handled(
    before: ManagerView,
    after: ManagerView,
    call: Call,
    reply: Result<(), LavalinkError>,
    r: Result<(), Failure>,
) -> bool {
    match reply {
        Ok(_) => {
            &&& r is Ok
            &&& after == if call.toggles && before.players.contains_key(call.bot.0) {
                before.set_state(call.bot.0, flipped(before.players[call.bot.0].state), true)
            } else {
                before
            }
        },
        Err(e) => {
            let error = PlayerMapError::PlayerError(PlayerError::Lavalink(e));
            &&& r matches Err(failure) && before.calls_for(
                failure,
                error,
                call.bot,
                call.lavalink,
            )
            &&& after == before.after_error(error, call.bot)
        },
    }
}

/// The bot that searches for a channel, and its client.
pub open spec fn searcher_in(m: ManagerView, channel: ChannelId) -> Result<
    (UserId, ClientId),
    PlayerMapError,
> {
    match m.in_channel(channel) {
        Some(bot) => Ok((UserId(bot), m.players[bot].lavalink)),
        None => Err(PlayerMapError::NoPlayerFound(channel)),
    }
}

/// Whether a guild's players took what a search came to as they should.
pub open spec fn search_handled(
    before: ManagerView,
    after: ManagerView,
    bot: UserId,
    lavalink: ClientId,
    reply: Option<Result<Tracks, LavalinkError>>,
    r: Result<(UserId, Vec<Track>), Failure>,
) -> bool {
    match search_result(reply) {
        Ok(tracks) => {
            &&& r == Ok::<(UserId, Vec<Track>), Failure>((bot, tracks))
            &&& after == before
        },
        Err(error) => {
            &&& r matches Err(failure) && before.calls_for(failure, error, bot, lavalink)
            &&& after == before.after_error(error, bot)
        },
    }
}

/// Whether a step in joining a channel was taken as it should.
pub open spec fn joining_goes_on(
    m: ManagerView,
    bots: Seq<UserId>,
    reply: JoinReply,
    r: JoinNext,
) -> bool {
    match reply {
        JoinReply::Tried(_, true) => r == JoinNext::Done(Ok(())),
        JoinReply::Tried(i, false) => goes_on_from(m, bots, i + 1, r),
        JoinReply::Begin => goes_on_from(m, bots, 0, r),
    }
}

/// The client through which a bot may get a player, or why it may not.
pub open spec fn addition_allowed(
    m: ManagerView,
    bot: UserId,
    bots: Seq<Bot>,
    guild_cached: bool,
    clients: Map<u64, Option<ClientId>>,
) -> Result<ClientId, PlayerMapError> {
    if !m.index.entries.contains_key(bot.0) {
        Err(PlayerMapError::NoBotWithID(bot, m.guild))
    } else if m.players.contains_key(bot.0) {
        Err(PlayerMapError::PlayerAlreadyExists(bot))
    } else if !has_bot(bots, bot) || !guild_cached {
        Err(PlayerMapError::NoBotWithID(bot, m.guild))
    } else {
        match client_of(clients, bot) {
            Some(client) => Ok(client),
            None => Err(PlayerMapError::NoLavalink(bot)),
        }
    }
}

/// Whether a guild's players took that a player connected, or did not, as they should.
pub open spec fn addition_handled(
    before: ManagerView,
    after: ManagerView,
    bot: UserId,
    lavalink: ClientId,
    connected: Result<Player, PlayerError>,
    r: Result<(), Failure>,
) -> bool {
    match connected {
        Ok(player) => {
            &&& r is Ok
            &&& after == (ManagerView {
                index: before.index.rekeyed(bot.0, lavalink.0, player@.channel.0),
                players: before.players.insert(bot.0, player@),
                states: before.states.push(player@.state),
                ..before
            })
        },
        Err(e) => {
            let error = PlayerMapError::PlayerError(e);
            &&& r matches Err(failure) && before.calls_for(failure, error, bot, lavalink)
            &&& after == before.after_error(error, bot)
        },
    }
}

/// Whether the player in a channel was taken away as it should.
pub open spec fn leaving_handled(
    before: ManagerView,
    after: ManagerView,
    channel: ChannelId,
    r: Result<Player, PlayerMapError>,
) -> bool {
    match before.index.follow(before.index.two, channel.0) {
        None => {
            &&& r == Err::<Player, PlayerMapError>(PlayerMapError::NoPlayerFound(channel))
            &&& after == before
        },
        Some((bot, _)) => if before.players.contains_key(bot) {
            &&& r matches Ok(player) && player@ == before.players[bot]
            &&& after == (ManagerView {
                index: before.index.unkeyed(bot),
                players: before.players.remove(bot),
                states: without_bot(before.states, UserId(bot)),
                ..before
            })
        } else {
            &&& r == Err::<Player, PlayerMapError>(PlayerMapError::NoPlayerFound(channel))
            &&& after == (ManagerView { index: before.index.unkeyed(bot), ..before })
        },
    }
}

/// A request goes to the player in its channel and to no other; without one there, it fails and
/// changes nothing. What Lavalink is asked for is asked through that player's client.
pub proof fn law_requests_reach_the_player_in_the_channel(
    before: ManagerView,
    after: ManagerView,
    request: PlayerRequest,
    r: RequestNext,
    other: u64,
)
    requires
        request_handled(before, after, request, r),
    ensures
        before.in_channel(request.channel()) is None ==> after == before && (
        r matches RequestNext::Done(Err(failure)) && failure.error == PlayerMapError::NoPlayerFound(
            request.channel(),
        ) && failure.disconnect is None && failure.renew is None),
        before.in_channel(request.channel()) matches Some(bot) ==> {
            let state = before.players[bot].state;
            &&& after.players.contains_key(bot)
            &&& after.players[bot] == (PlayerModel {
                state: request.effect(state),
                ..before.players[bot]
            })
            &&& other != bot ==> (after.players.contains_key(other)
                <==> before.players.contains_key(other)) && after.players[other]
                == before.players[other]
            &&& request is Skip || request is BackSkip ==> r == RequestNext::Ask(
                Call {
                    bot: UserId(bot),
                    lavalink: before.players[bot].lavalink,
                    command: LavalinkCommand::Stop,
                    toggles: false,
                },
            )
            &&& request is PauseResume ==> r == RequestNext::Ask(
                Call {
                    bot: UserId(bot),
                    lavalink: before.players[bot].lavalink,
                    command: if state.play_state == PlayState::Play {
                        LavalinkCommand::Pause
                    } else {
                        LavalinkCommand::Resume
                    },
                    toggles: true,
                },
            )
            &&& request is ClearQueue || request is Playback ==> r == RequestNext::Done(Ok(()))
            &&& request matches PlayerRequest::Enqueue(track, _) ==> {
                &&& state.playlist.len() >= 100 ==> (r matches RequestNext::Done(
                    Err(failure),
                ) && failure.error == PlayerMapError::PlayerError(PlayerError::PlaylistFull(track)))
                &&& state.playlist.len() < 100 && state.current is Some ==> r
                    == RequestNext::Done(Ok(()))
                &&& state.playlist.len() < 100 && state.current is None ==> r
                    == RequestNext::Ask(
                    Call {
                        bot: UserId(bot),
                        lavalink: before.players[bot].lavalink,
                        command: LavalinkCommand::Play(
                            if state.playlist.len() > 0 {
                                state.playlist[0]
                            } else {
                                track
                            },
                        ),
                        toggles: false,
                    },
                )
            }
        },
        after.index == before.index,
        after.guild == before.guild,
{
}

/// A toggle that Lavalink obeyed flips the bot's player and tells the watchers; any other call that it
/// obeyed changes nothing. One that it did not is its error.
pub proof fn law_obeyed_toggles_flip_the_player(
    before: ManagerView,
    after: ManagerView,
    call: Call,
    error: LavalinkError,
    r: Result<(), Failure>,
)
    ensures
        reply_handled(before, after, call, Ok(()), r) ==> r is Ok && (!call.toggles ==> after
            == before) && (call.toggles && before.players.contains_key(call.bot.0)
            ==> after.players[call.bot.0].state == (PlayerView {
            play_state: if before.players[call.bot.0].state.play_state == PlayState::Play {
                PlayState::Pause
            } else {
                PlayState::Play
            },
            ..before.players[call.bot.0].state
        }) && after.states.len() == before.states.len()) && (!before.players.contains_key(call.bot.0)
            ==> after == before),
        reply_handled(before, after, call, Err(error), r) ==> (r matches Err(failure)
            && failure.error == PlayerMapError::PlayerError(PlayerError::Lavalink(error)) && (error
            is ConnectionClosed ==> failure.renew == Some((call.bot, call.lavalink))
            && !after.players.contains_key(call.bot.0)) && (!(error is ConnectionClosed)
            ==> failure.renew is None && after == before)),
{
}

/// A search is made through the client of the player in the channel; without one it fails.
pub proof fn law_searches_go_through_the_player(m: ManagerView, channel: ChannelId, bot: u64)
    ensures
        m.in_channel(channel) == Some(bot) ==> searcher_in(m, channel) == Ok::<
            (UserId, ClientId),
            PlayerMapError,
        >((UserId(bot), m.players[bot].lavalink)),
        m.in_channel(channel) is None ==> searcher_in(m, channel) == Err::<
            (UserId, ClientId),
            PlayerMapError,
        >(PlayerMapError::NoPlayerFound(channel)),
{
}

/// What was found comes with the bot that searched, and the players stay; a search that failed is its
/// error, and takes the player only where its client is dead.
pub proof fn law_found_tracks_come_with_the_bot(
    before: ManagerView,
    after: ManagerView,
    bot: UserId,
    lavalink: ClientId,
    found: Tracks,
    error: LavalinkError,
    r: Result<(UserId, Vec<Track>), Failure>,
)
    ensures
        search_handled(before, after, bot, lavalink, Some(Ok(found)), r) ==> after == before && (
        found.load_type@ != "LOAD_FAILED"@ ==> r == Ok::<(UserId, Vec<Track>), Failure>(
            (bot, found.tracks),
        )) && (found.load_type@ == "LOAD_FAILED"@ ==> (r matches Err(failure) && failure.error
            == PlayerMapError::PlayerError(PlayerError::SearchFailed(found.load_type))
            && failure.renew is None)),
        search_handled(before, after, bot, lavalink, None, r) ==> after == before && (
        r matches Err(failure) && failure.error == PlayerMapError::SearchSenderDropped()),
        search_handled(before, after, bot, lavalink, Some(Err(error)), r) ==> (r matches Err(failure)
            && failure.error == PlayerMapError::PlayerError(PlayerError::Lavalink(error)) && (error
            is ConnectionClosed ==> failure.renew == Some((bot, lavalink))) && (!(error
            is ConnectionClosed) ==> after == before)),
{
}

/// Joining is done once a bot got a player; until then the bots are tried in order, each at most once.
pub proof fn law_joining_goes_forward(
    m: ManagerView,
    bots: Seq<UserId>,
    tried: usize,
    r: JoinNext,
)
    ensures
        joining_goes_on(m, bots, JoinReply::Tried(tried, true), r) ==> r == JoinNext::Done(Ok(())),
        joining_goes_on(m, bots, JoinReply::Tried(tried, false), r) ==> r != JoinNext::Done(Ok(()))
            && (r matches JoinNext::Try(i) ==> tried < i < bots.len() && !m.players.contains_key(
            bots[i as int].0,
        )),
        joining_goes_on(m, bots, JoinReply::Begin, r) ==> r != JoinNext::Done(Ok(())) && (
        r matches JoinNext::Try(i) ==> i < bots.len() && !m.players.contains_key(bots[i as int].0)),
{
}

/// A bot may get a player exactly where it belongs to the guild and sees it, has none yet, and has a
/// client; each thing that is missing has its error.
pub proof fn law_players_are_for_bots_without_one(
    m: ManagerView,
    bot: UserId,
    bots: Seq<Bot>,
    guild_cached: bool,
    clients: Map<u64, Option<ClientId>>,
    client: ClientId,
)
    ensures
        addition_allowed(m, bot, bots, guild_cached, clients) == Ok::<ClientId, PlayerMapError>(
            client,
        ) <==> m.index.entries.contains_key(bot.0) && !m.players.contains_key(bot.0) && has_bot(
            bots,
            bot,
        ) && guild_cached && clients.contains_key(bot.0) && clients[bot.0] == Some(client),
        m.index.entries.contains_key(bot.0) && m.players.contains_key(bot.0) ==> addition_allowed(
            m,
            bot,
            bots,
            guild_cached,
            clients,
        ) == Err::<ClientId, PlayerMapError>(PlayerMapError::PlayerAlreadyExists(bot)),
        !m.index.entries.contains_key(bot.0) ==> addition_allowed(
            m,
            bot,
            bots,
            guild_cached,
            clients,
        ) == Err::<ClientId, PlayerMapError>(PlayerMapError::NoBotWithID(bot, m.guild)),
        m.index.entries.contains_key(bot.0) && !m.players.contains_key(bot.0) && (!has_bot(bots, bot)
            || !guild_cached) ==> addition_allowed(m, bot, bots, guild_cached, clients) == Err::<
            ClientId,
            PlayerMapError,
        >(PlayerMapError::NoBotWithID(bot, m.guild)),
        m.index.entries.contains_key(bot.0) && !m.players.contains_key(bot.0) && has_bot(bots, bot)
            && guild_cached && (!clients.contains_key(bot.0) || clients[bot.0] is None)
            ==> addition_allowed(m, bot, bots, guild_cached, clients) == Err::<
            ClientId,
            PlayerMapError,
        >(PlayerMapError::NoLavalink(bot)),
{
}

/// A player that connected is the bot's, and watchers see it last; the other players stay. One that
/// did not connect changes nothing, unless its client is dead.
pub proof fn law_connected_players_are_kept(
    before: ManagerView,
    after: ManagerView,
    bot: UserId,
    lavalink: ClientId,
    player: Player,
    error: PlayerError,
    r: Result<(), Failure>,
    other: u64,
)
    ensures
        addition_handled(before, after, bot, lavalink, Ok(player), r) ==> {
            &&& r is Ok
            &&& after.players.contains_key(bot.0) && after.players[bot.0] == player@
            &&& after.states == before.states + seq![player@.state]
            &&& other != bot.0 ==> (after.players.contains_key(other)
                <==> before.players.contains_key(other)) && after.players[other]
                == before.players[other]
            &&& after.guild == before.guild
        },
        addition_handled(before, after, bot, lavalink, Err(error), r) ==> {
            &&& r matches Err(failure) && failure.error == PlayerMapError::PlayerError(error)
            &&& !error.fatal() ==> after == before
            &&& after.states == before.states
        },
{
    if addition_handled(before, after, bot, lavalink, Ok(player), r) {
        assert(after.states =~= before.states + seq![player@.state]);
    }
}

/// The player in a channel is handed out and gone, and watchers no longer see its bot; the others
/// stay. Without a player there, it fails and no player goes.
pub proof fn law_leaving_takes_the_player(
    before: ManagerView,
    after: ManagerView,
    channel: ChannelId,
    r: Result<Player, PlayerMapError>,
    other: u64,
)
    requires
        leaving_handled(before, after, channel, r),
    ensures
        before.in_channel(channel) matches Some(bot) ==> {
            &&& r matches Ok(player) && player@ == before.players[bot]
            &&& !after.players.contains_key(bot)
            &&& forall|i: int|
                0 <= i < after.states.len() ==> (#[trigger] after.states[i]).bot != UserId(bot)
            &&& other != bot ==> (after.players.contains_key(other)
                <==> before.players.contains_key(other)) && after.players[other]
                == before.players[other]
        },
        before.in_channel(channel) is None ==> r == Err::<Player, PlayerMapError>(
            PlayerMapError::NoPlayerFound(channel),
        ) && after.players == before.players && after.states == before.states,
        after.guild == before.guild,
{
    broadcast use vstd::seq_lib::group_filter_ensures;

    if let Some(bot) = before.in_channel(channel) {
        let others = |s: PlayerView| s.bot != UserId(bot);
        assert(after.states == before.states.filter(others));
        assert forall|i: int| 0 <= i < after.states.len() implies (
        #[trigger] after.states[i]).bot != UserId(bot) by {
            assert(others(before.states.filter(others)[i]));
        }
    }
}

/// A player belongs to the bot that it is kept for, which is one of the guild's.
pub proof fn law_players_belong_to_their_bots(m: ManagerView, bot: u64)
    requires
        m.wf(),
        m.players.contains_key(bot),
    ensures
        m.players[bot].state.bot == UserId(bot),
        m.index.entries.contains_key(bot),
{
}

} // verus!
