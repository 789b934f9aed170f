//! One player: the queue of a bot in a voice channel, and what each command does to it.
//!
//! Lavalink and the voice gateway do the playing. Each command is split where it speaks to them:
//! the part before the call changes the state and says what to send, the part after it takes the
//! reply.
use crate::ids::{ChannelId, ClientId, GuildId, UserId};
use crate::lavalink_handler::PlayerUpdate;
use crate::text::str_eq;
use crate::time::{duration_nanos, duration_secs, max_nanos};
use crate::track::{Track, TrackQueue, MUSIC_QUEUE_LIMIT};
use std::time::Duration;
use vstd::prelude::*;

verus! {

/// Whether a player runs.
#[derive(Clone, Copy, Debug, PartialEq, Eq, Structural)]
pub enum PlayState {
    Play,
    Pause,
}

/// What happens when a track ends.
#[derive(Clone, Copy, Debug, PartialEq, Eq, Structural)]
pub enum Playback {
    /// The track goes to the history.
    Normal,
    /// The track goes to the end of the playlist.
    AllLoop,
    /// The track is played again.
    OneLoop,
}

/// Why a Lavalink call failed.
#[derive(Debug)]
pub enum LavalinkError {
    /// The websocket was already closed.
    ConnectionClosed,
    /// Any other websocket failure.
    Websocket(String),
    /// A header could not be built.
    InvalidHeaderValue(String),
    /// The HTTP request failed.
    Request(String),
}

/// Why the voice gateway could not join or leave.
#[derive(Debug)]
pub struct JoinError(pub String);

/// Why a player command failed.
#[derive(Debug)]
pub enum PlayerError {
    Lavalink(LavalinkError),
    SongbirdJoin(JoinError),
    SongbirdLeave(JoinError),
    NotInAVoiceChannel(),
    /// The track that found no room.
    PlaylistFull(Track),
    SearchFailed(String),
}

impl PlayerError {
    /// Whether Lavalink is to blame.
    pub fn is_lavalink_error(&self) -> (r: bool)
        ensures
            r == (self is Lavalink),
    {
        match self {
            PlayerError::Lavalink(_) => true,
            _ => false,
        }
    }

    /// Whether the connection to Lavalink is gone.
    pub open spec fn fatal(self) -> bool {
        self == PlayerError::Lavalink(LavalinkError::ConnectionClosed)
    }

    /// Whether the connection to Lavalink is gone, so that the client has to be replaced.
    pub fn is_fatal(&self) -> (r: bool)
        ensures
            r == self.fatal(),
    {
        match self {
            PlayerError::Lavalink(LavalinkError::ConnectionClosed) => true,
            _ => false,
        }
    }
}

/// The outcome of a command whose last step was a Lavalink call.
pub fn lavalink_reply(reply: Result<(), LavalinkError>) -> (r: Result<(), PlayerError>)
    ensures
        r == answered((), reply),
{
    match reply {
        Ok(_) => Ok(()),
        Err(e) => Err(PlayerError::Lavalink(e)),
    }
}

/// What a player shows of itself.
pub struct PlayerState {
    pub bot: UserId,
    /// The track that plays, with the position in it.
    pub current: Option<(Duration, Track)>,
    pub playlist: TrackQueue,
    pub history: TrackQueue,
    pub play_state: PlayState,
    pub playback: Playback,
}

/// The contents of a [`PlayerState`].
#[verifier::ext_equal]
pub struct PlayerView {
    pub bot: UserId,
    pub current: Option<(Duration, Track)>,
    pub playlist: Seq<Track>,
    pub history: Seq<Track>,
    pub play_state: PlayState,
    pub playback: Playback,
}

impl View for PlayerState {
    type V = PlayerView;

    open spec fn view(&self) -> PlayerView {
        PlayerView {
            bot: self.bot,
            current: self.current,
            playlist: self.playlist@,
            history: self.history@,
            play_state: self.play_state,
            playback: self.playback,
        }
    }
}

impl Clone for PlayerState {
    fn clone(&self) -> (r: Self)
        ensures
            r@ == self@,
    {
        PlayerState {
            bot: self.bot,
            current: match &self.current {
                Some((position, track)) => Some((*position, track.clone())),
                None => None,
            },
            playlist: self.playlist.clone(),
            history: self.history.clone(),
            play_state: self.play_state,
            playback: self.playback,
        }
    }
}

impl PlayerState {
    /// The state of a player that has not been asked for anything.
    pub fn new(bot: UserId) -> (r: Self)
        ensures
            r@ == fresh_player(bot),
    {
        PlayerState {
            bot,
            current: None,
            playlist: TrackQueue::new(),
            history: TrackQueue::new(),
            play_state: PlayState::Play,
            playback: Playback::Normal,
        }
    }
}

/// Nothing playing, nothing queued, nothing played.
pub open spec fn fresh_player(bot: UserId) -> PlayerView {
    PlayerView {
        bot,
        current: None,
        playlist: Seq::empty(),
        history: Seq::empty(),
        play_state: PlayState::Play,
        playback: Playback::Normal,
    }
}

/// The track that plays, if any.
pub open spec fn playing(v: PlayerView) -> Option<Track> {
    match v.current {
        Some((_, track)) => Some(track),
        None => None,
    }
}

/// A queue without its last track where it is full.
pub open spec fn with_room(q: Seq<Track>) -> Seq<Track> {
    if q.len() == MUSIC_QUEUE_LIMIT {
        q.drop_last()
    } else {
        q
    }
}

/// A queue after a track was put first; a full queue loses its last track.
pub open spec fn pushed_front(q: Seq<Track>, track: Track) -> Seq<Track> {
    seq![track] + with_room(q)
}

/// A queue after a track was put last; a full queue loses its last track.
pub open spec fn pushed_back(q: Seq<Track>, track: Track) -> Seq<Track> {
    with_room(q).push(track)
}

/// Puts a track first, at the cost of the last one where the queue is full.
fn displace_front(q: &mut TrackQueue, track: Track)
    ensures
        final(q)@ == pushed_front(old(q)@, track),
{
    if q.is_full() {
        let _ = q.pop_back();
    }
    let _ = q.push_front(track);
}

/// Puts a track last, at the cost of the last one where the queue is full.
fn displace_back(q: &mut TrackQueue, track: Track)
    ensures
        final(q)@ == pushed_back(old(q)@, track),
{
    if q.is_full() {
        let _ = q.pop_back();
    }
    let _ = q.push_back(track);
}

/// What Lavalink is to be told about a guild's player.
pub enum LavalinkCommand {
    Stop,
    Play(Track),
    Pause,
    Resume,
}

/// Which track comes next, if any: the current one again where it repeats, else the first of the
/// playlist, to whose end the current track went before where all tracks repeat.
pub open spec fn next_track(v: PlayerView) -> Option<Track> {
    if repeats(v) {
        Some(playing(v)->0)
    } else if playlist_on_end(v).len() > 0 {
        Some(playlist_on_end(v).first())
    } else {
        None
    }
}

/// The playlist once the current track has ended, before the next one is drawn.
pub open spec fn playlist_on_end(v: PlayerView) -> Seq<Track> {
    if v.playback == Playback::AllLoop && v.current is Some {
        pushed_back(v.playlist, playing(v)->0)
    } else {
        v.playlist
    }
}

/// The history once the current track has ended.
pub open spec fn history_on_end(v: PlayerView) -> Seq<Track> {
    if v.playback == Playback::Normal && v.current is Some {
        pushed_front(v.history, playing(v)->0)
    } else {
        v.history
    }
}

/// Whether the next track is drawn from the playlist.
pub open spec fn draws(v: PlayerView) -> bool {
    !repeats(v) && playlist_on_end(v).len() > 0
}

/// A player after it moved on to the next track. The track itself is handed to Lavalink, and
/// nothing is current any more.
pub open spec fn moved_on(v: PlayerView) -> PlayerView {
    PlayerView {
        current: None,
        playlist: if draws(v) {
            playlist_on_end(v).drop_first()
        } else {
            playlist_on_end(v)
        },
        history: history_on_end(v),
        play_state: if draws(v) {
            PlayState::Play
        } else {
            v.play_state
        },
        ..v
    }
}

/// A player after the current track and the one played longest ago went back to the playlist.
pub open spec fn moved_back(v: PlayerView) -> PlayerView {
    let kept = match v.current {
        Some((_, track)) => pushed_front(v.playlist, track),
        None => v.playlist,
    };
    PlayerView {
        current: None,
        playlist: if v.history.len() > 0 {
            pushed_front(kept, v.history.last())
        } else {
            kept
        },
        history: if v.history.len() > 0 {
            v.history.drop_last()
        } else {
            v.history
        },
        ..v
    }
}

/// Whether the current track repeats.
pub open spec fn repeats(v: PlayerView) -> bool {
    v.playback == Playback::OneLoop && v.current is Some
}

/// A player after a skip: a track that repeats went to the history, so that another one follows;
/// nothing else changed.
pub open spec fn skipped(v: PlayerView) -> PlayerView {
    if repeats(v) {
        PlayerView { current: None, history: pushed_front(v.history, playing(v)->0), ..v }
    } else {
        v
    }
}

/// Whether a backward skip changes anything.
pub open spec fn goes_back(v: PlayerView) -> bool {
    v.current is Some || v.history.len() > 0
}

/// A player after it was paused or resumed, whichever it was not.
pub open spec fn flipped(v: PlayerView) -> PlayerView {
    PlayerView {
        play_state: if v.play_state == PlayState::Play {
            PlayState::Pause
        } else {
            PlayState::Play
        },
        ..v
    }
}

/// What Lavalink is asked for when a player is paused or resumed, whichever it is not.
pub open spec fn toggle_of(v: PlayerView) -> LavalinkCommand {
    if v.play_state == PlayState::Play {
        LavalinkCommand::Pause
    } else {
        LavalinkCommand::Resume
    }
}

/// A player after its playlist was emptied.
pub open spec fn emptied(v: PlayerView) -> PlayerView {
    PlayerView { playlist: Seq::empty(), ..v }
}

/// A player after a mode was asked for.
pub open spec fn with_mode(v: PlayerView, asked: Playback) -> PlayerView {
    PlayerView { playback: toggled(v.playback, asked), ..v }
}

/// A player after a track went to the end of its playlist.
pub open spec fn queued(v: PlayerView, track: Track) -> PlayerView {
    PlayerView { playlist: v.playlist.push(track), ..v }
}

/// A player after it was asked for a track: it moves on at once where nothing is current, and a
/// full playlist takes nothing.
pub open spec fn with_track(v: PlayerView, track: Track) -> PlayerView {
    if v.playlist.len() >= MUSIC_QUEUE_LIMIT {
        v
    } else if v.current is Some {
        queued(v, track)
    } else {
        moved_on(queued(v, track))
    }
}

/// A reply of the outside world while a player connects.
pub enum ConnectReply {
    /// The voice gateway was asked to join.
    Joined(Result<(), JoinError>),
    /// Lavalink was asked for a session.
    SessionCreated(Result<(), LavalinkError>),
}

/// What follows such a reply.
pub enum ConnectNext {
    CreateSession,
    Ready(Player),
    Failed(PlayerError),
}

/// A reply of the outside world while a player disconnects.
pub enum DisconnectReply {
    /// Whether the voice gateway knows a call for the guild.
    Call(bool),
    /// The voice gateway was asked to leave the call.
    Removed(Result<(), JoinError>),
    /// Lavalink was asked to destroy its player.
    Destroyed(Result<(), LavalinkError>),
}

/// What follows such a reply.
pub enum DisconnectNext {
    RemoveCall,
    DestroyPlayer,
    Done(Result<(), PlayerError>),
}

/// What a search in Lavalink brought.
pub struct Tracks {
    pub load_type: String,
    pub tracks: Vec<Track>,
}

/// A bot's player in one voice channel.
pub struct Player {
    channel: ChannelId,
    guild: GuildId,
    lavalink: ClientId,
    player_state: PlayerState,
}

/// A player's place, client and state.
#[verifier::ext_equal]
pub struct PlayerModel {
    pub channel: ChannelId,
    pub guild: GuildId,
    pub lavalink: ClientId,
    pub state: PlayerView,
}

impl View for Player {
    type V = PlayerModel;

    closed spec fn view(&self) -> PlayerModel {
        PlayerModel {
            channel: self.channel,
            guild: self.guild,
            lavalink: self.lavalink,
            state: self.player_state@,
        }
    }
}

impl Player {
    pub open spec fn spec_channel(self) -> ChannelId {
        self@.channel
    }

    pub open spec fn spec_guild(self) -> GuildId {
        self@.guild
    }

    pub open spec fn spec_lavalink(self) -> ClientId {
        self@.lavalink
    }

    /// The contents of the player's state.
    pub open spec fn state(self) -> PlayerView {
        self@.state
    }

    /// What a command keeps: where the player is and through which client it plays.
    pub open spec fn same_place(self, other: Player) -> bool {
        &&& self.spec_channel() == other.spec_channel()
        &&& self.spec_guild() == other.spec_guild()
        &&& self.spec_lavalink() == other.spec_lavalink()
    }

    /// Connects a player: the gateway joins first, Lavalink then makes a session, and the player
    /// starts out fresh. The first failure ends it.
    pub fn new(
        bot: UserId,
        channel: ChannelId,
        guild: GuildId,
        lavalink: ClientId,
        reply: ConnectReply,
    ) -> (r: ConnectNext)
        ensures
            connecting_goes_on(bot, channel, guild, lavalink, reply, r),
    {
        match reply {
            ConnectReply::Joined(Ok(_)) => ConnectNext::CreateSession,
            ConnectReply::Joined(Err(e)) => ConnectNext::Failed(PlayerError::SongbirdJoin(e)),
            ConnectReply::SessionCreated(Ok(_)) => ConnectNext::Ready(
                Player { channel, guild, lavalink, player_state: PlayerState::new(bot) },
            ),
            ConnectReply::SessionCreated(Err(e)) => ConnectNext::Failed(PlayerError::Lavalink(e)),
        }
    }

    /// A player that goes on from a state.
    pub fn with_state(
        channel: ChannelId,
        guild: GuildId,
        lavalink: ClientId,
        state: PlayerState,
    ) -> (r: Player)
        ensures
            r@ == (PlayerModel { channel, guild, lavalink, state: state@ }),
    {
        Player { channel, guild, lavalink, player_state: state }
    }

    /// The client that the player plays through.
    pub fn get_lavalink(&self) -> (r: ClientId)
        ensures
            r == self.spec_lavalink(),
    {
        self.lavalink
    }

    /// The voice channel that the player is in.
    pub fn get_channel(&self) -> (r: ChannelId)
        ensures
            r == self.spec_channel(),
    {
        self.channel
    }

    /// The guild that the player is in.
    pub fn get_guild(&self) -> (r: GuildId)
        ensures
            r == self.spec_guild(),
    {
        self.guild
    }

    /// The bot that plays.
    pub fn get_bot(&self) -> (r: UserId)
        ensures
            r == self.state().bot,
    {
        self.player_state.bot
    }

    /// A copy of the player's state.
    pub fn get_state(&self) -> (r: PlayerState)
        ensures
            r@ == self.state(),
    {
        self.player_state.clone()
    }

    /// Takes Lavalink's reply to a request to resume. Watchers are to be told on success.
    pub fn resume(&mut self, reply: Result<(), LavalinkError>) -> (r: Result<
        PlayerState,
        PlayerError,
    >)
        ensures
            final(self).same_place(*old(self)),
            match reply {
                Ok(_) => r matches Ok(s) && s@ == final(self).state() && final(self).state() == (
                PlayerView { play_state: PlayState::Play, ..old(self).state() }),
                Err(e) => r == Err::<PlayerState, PlayerError>(PlayerError::Lavalink(e)) && *final(self) == *old(self),
            },
    {
        match reply {
            Ok(_) => {
                self.player_state.play_state = PlayState::Play;
                Ok(self.player_state.clone())
            },
            Err(e) => Err(PlayerError::Lavalink(e)),
        }
    }

    /// Takes Lavalink's reply to a request to pause. Watchers are to be told on success.
    pub fn pause(&mut self, reply: Result<(), LavalinkError>) -> (r: Result<
        PlayerState,
        PlayerError,
    >)
        ensures
            final(self).same_place(*old(self)),
            match reply {
                Ok(_) => r matches Ok(s) && s@ == final(self).state() && final(self).state() == (
                PlayerView { play_state: PlayState::Pause, ..old(self).state() }),
                Err(e) => r == Err::<PlayerState, PlayerError>(PlayerError::Lavalink(e)) && *final(self) == *old(self),
            },
    {
        match reply {
            Ok(_) => {
                self.player_state.play_state = PlayState::Pause;
                Ok(self.player_state.clone())
            },
            Err(e) => Err(PlayerError::Lavalink(e)),
        }
    }

    /// What a toggle asks Lavalink for: a running player is to be paused, a paused one resumed.
    pub fn toggle_command(&self) -> (r: LavalinkCommand)
        ensures
            r == toggle_of(self.state()),
    {
        match self.player_state.play_state {
            PlayState::Play => LavalinkCommand::Pause,
            PlayState::Pause => LavalinkCommand::Resume,
        }
    }

    /// Takes Lavalink's reply to the request that [`Player::toggle_command`] asks for: on success
    /// a running player is paused and a paused one runs.
    pub fn dynamic_pause_resume(&mut self, reply: Result<(), LavalinkError>) -> (r: Result<
        PlayerState,
        PlayerError,
    >)
        ensures
            final(self).same_place(*old(self)),
            match reply {
                Ok(_) => {
                    &&& r matches Ok(s) && s@ == final(self).state()
                    &&& final(self).state() == flipped(old(self).state())
                },
                Err(e) => r == Err::<PlayerState, PlayerError>(PlayerError::Lavalink(e)) && *final(self) == *old(self),
            },
    {
        match self.player_state.play_state {
            PlayState::Play => self.pause(reply),
            PlayState::Pause => self.resume(reply),
        }
    }

    /// The part of a skip before Lavalink is told to stop: see [`skipped`]. Watchers are to be told
    /// where a state is returned.
    pub fn skip(&mut self) -> (r: (Option<PlayerState>, LavalinkCommand))
        ensures
            final(self).same_place(*old(self)),
            final(self).state() == skipped(old(self).state()),
            r.0 is Some <==> repeats(old(self).state()),
            r.0 matches Some(s) ==> s@ == final(self).state(),
            r.1 is Stop,
    {
        let mut state: Option<PlayerState> = None;
        match self.player_state.playback {
            Playback::OneLoop => {
                if let Some((_, track)) = self.player_state.current.take() {
                    displace_front(&mut self.player_state.history, track);
                    state = Some(self.player_state.clone());
                }
            },
            _ => {},
        }
        (state, LavalinkCommand::Stop)
    }

    /// The part of a backward skip before Lavalink is told to stop: see [`moved_back`]. Watchers
    /// are to be told where a state is returned.
    pub fn back_skip(&mut self) -> (r: (Option<PlayerState>, LavalinkCommand))
        ensures
            final(self).same_place(*old(self)),
            final(self).state() == moved_back(old(self).state()),
            r.0 is Some <==> goes_back(old(self).state()),
            r.0 matches Some(s) ==> s@ == final(self).state(),
            r.1 is Stop,
    {
        let mut changed = false;
        if let Some((_, track)) = self.player_state.current.take() {
            displace_front(&mut self.player_state.playlist, track);
            changed = true;
        }
        if let Some(track) = self.player_state.history.pop_back() {
            displace_front(&mut self.player_state.playlist, track);
            changed = true;
        }
        if changed {
            (Some(self.player_state.clone()), LavalinkCommand::Stop)
        } else {
            (None, LavalinkCommand::Stop)
        }
    }

    /// The outcome of a skip in either direction: the state it left, unless Lavalink did not
    /// stop.
    pub fn stopped(state: Option<PlayerState>, reply: Result<(), LavalinkError>) -> (r: Result<
        Option<PlayerState>,
        PlayerError,
    >)
        ensures
            r == answered(state, reply),
    {
        match reply {
            Ok(_) => Ok(state),
            Err(e) => Err(PlayerError::Lavalink(e)),
        }
    }

    /// Moves on to the next track: see [`moved_on`] and [`next_track`]. Returns whether watchers
    /// are to be told, and what to tell Lavalink.
    pub fn play_next(&mut self) -> (r: (bool, LavalinkCommand))
        ensures
            final(self).same_place(*old(self)),
            final(self).state() == moved_on(old(self).state()),
            r.0 == (old(self).state().current is Some && old(self).state().playback
                != Playback::OneLoop || draws(old(self).state())),
            r.1 == (match next_track(old(self).state()) {
                Some(track) => LavalinkCommand::Play(track),
                None => LavalinkCommand::Stop,
            }),
    {
        let mut changed = false;
        match self.player_state.playback {
            Playback::Normal => {
                if let Some((_, track)) = self.player_state.current.take() {
                    displace_front(&mut self.player_state.history, track);
                    changed = true;
                }
            },
            Playback::AllLoop => {
                if let Some((_, track)) = self.player_state.current.take() {
                    displace_back(&mut self.player_state.playlist, track);
                    changed = true;
                }
            },
            Playback::OneLoop => {
                if let Some((_, track)) = self.player_state.current.take() {
                    self.player_state.current = Some((Duration::from_secs(0), track));
                }
            },
        }
        if self.player_state.current.is_none() {
            if let Some(track) = self.player_state.playlist.pop_front() {
                self.player_state.current = Some((Duration::from_secs(0), track));
                self.player_state.play_state = PlayState::Play;
                changed = true;
            }
        }
        match self.player_state.current.take() {
            None => (changed, LavalinkCommand::Stop),
            Some((_, track)) => (changed, LavalinkCommand::Play(track)),
        }
    }

    /// Queues a track. Where nothing is current the player moves on at once, and what
    /// [`Player::play_next`] says is returned; else watchers are to be told. A full playlist
    /// refuses the track.
    pub fn enqueue(&mut self, track: Track) -> (r: Result<
        Option<(bool, LavalinkCommand)>,
        PlayerError,
    >)
        ensures
            final(self).same_place(*old(self)),
            final(self).state() == with_track(old(self).state(), track),
            r == (if old(self).state().playlist.len() >= MUSIC_QUEUE_LIMIT {
                Err::<Option<(bool, LavalinkCommand)>, PlayerError>(
                    PlayerError::PlaylistFull(track),
                )
            } else if old(self).state().current is Some {
                Ok(None)
            } else {
                Ok(
                    Some(
                        (
                            true,
                            LavalinkCommand::Play(
                                queued(old(self).state(), track).playlist.first(),
                            ),
                        ),
                    ),
                )
            }),
    {
        match self.player_state.playlist.push_back(track) {
            Err(track) => Err(PlayerError::PlaylistFull(track)),
            Ok(_) => {
                if self.player_state.current.is_none() {
                    Ok(Some(self.play_next()))
                } else {
                    Ok(None)
                }
            },
        }
    }

    /// The outcome of queueing, once Lavalink took the command that it called for.
    pub fn enqueued(&self, reply: Result<(), LavalinkError>) -> (r: Result<
        PlayerState,
        PlayerError,
    >)
        ensures
            match reply {
                Ok(_) => r matches Ok(s) && s@ == self.state(),
                Err(e) => r == Err::<PlayerState, PlayerError>(PlayerError::Lavalink(e)),
            },
    {
        match reply {
            Ok(_) => Ok(self.player_state.clone()),
            Err(e) => Err(PlayerError::Lavalink(e)),
        }
    }

    /// Empties the playlist. Watchers are to be told where a state is returned, which is where
    /// there was something to remove.
    pub fn clear_queue(&mut self) -> (r: Option<PlayerState>)
        ensures
            final(self).same_place(*old(self)),
            final(self).state() == emptied(old(self).state()),
            r is Some <==> old(self).state().playlist.len() > 0,
            r matches Some(s) ==> s@ == final(self).state(),
    {
        if !self.player_state.playlist.is_empty() {
            self.player_state.playlist.clear();
            return Some(self.player_state.clone());
        }
        assert(self.player_state.playlist@ =~= Seq::<Track>::empty());
        None
    }

    /// Chooses what happens at the end of a track; asking for the mode that is on already turns
    /// it off. Watchers are to be told.
    pub fn playback(&mut self, playback: Playback) -> (r: PlayerState)
        ensures
            final(self).same_place(*old(self)),
            final(self).state() == with_mode(old(self).state(), playback),
            r@ == final(self).state(),
    {
        if self.player_state.playback != playback {
            self.player_state.playback = playback;
        } else {
            self.player_state.playback = Playback::Normal;
        }
        self.player_state.clone()
    }

    /// Disconnects: the gateway has to know a call, which is left, and Lavalink's player is then
    /// destroyed. The first failure ends it.
    pub fn disconnect(reply: DisconnectReply) -> (r: DisconnectNext)
        ensures
            r == disconnecting_goes_on(reply),
    {
        match reply {
            DisconnectReply::Call(known) => {
                if known {
                    DisconnectNext::RemoveCall
                } else {
                    DisconnectNext::Done(Err(PlayerError::NotInAVoiceChannel()))
                }
            },
            DisconnectReply::Removed(Ok(_)) => DisconnectNext::DestroyPlayer,
            DisconnectReply::Removed(Err(e)) => DisconnectNext::Done(
                Err(PlayerError::SongbirdLeave(e)),
            ),
            DisconnectReply::Destroyed(Ok(_)) => DisconnectNext::Done(Ok(())),
            DisconnectReply::Destroyed(Err(e)) => DisconnectNext::Done(
                Err(PlayerError::Lavalink(e)),
            ),
        }
    }

    /// What a search brings: the tracks that Lavalink found, unless the call failed or Lavalink
    /// reports that loading failed.
    pub fn search(reply: Result<Tracks, LavalinkError>) -> (r: Result<Vec<Track>, PlayerError>)
        ensures
            r == tracks_found(reply),
    {
        match reply {
            Err(e) => Err(PlayerError::Lavalink(e)),
            Ok(found) => {
                if str_eq(found.load_type.as_str(), "LOAD_FAILED") {
                    Err(PlayerError::SearchFailed(found.load_type))
                } else {
                    Ok(found.tracks)
                }
            },
        }
    }

    /// Takes a report on where playback stands, at `now` seconds after the Unix epoch. The
    /// position is moved where it differs by whole seconds from the reported one, to which the
    /// time since the report is added. Returns whether watchers are to be told.
    pub fn update(&mut self, update: PlayerUpdate, now: u64) -> (r: bool)
        requires
            update.time as u64 <= now,
            reported_nanos(update, now) <= max_nanos(),
        ensures
            final(self).same_place(*old(self)),
            r == (old(self).state().current matches Some((position, _)) && duration_secs(position)
                != reported_nanos(update, now) / 1_000_000_000),
            !r ==> final(self).state() == old(self).state(),
            r ==> {
                &&& final(self).state() == (PlayerView {
                    current: final(self).state().current,
                    ..old(self).state()
                })
                &&& final(self).state().current matches Some((position, track))
                &&& duration_nanos(position) == reported_nanos(update, now)
                &&& track == playing(old(self).state())->0
            },
    {
        let update_time = Duration::from_secs(update.time as u64);
        let elapsed = Duration::from_secs(now).checked_sub(update_time).unwrap();
        let new_pos = Duration::from_millis(update.position as u64).checked_add(elapsed).unwrap();
        let mut changed = false;
        if let Some((position, track)) = self.player_state.current.take() {
            changed = position.as_secs() != new_pos.as_secs();
            self.player_state.current = Some((if changed { new_pos } else { position }, track));
        }
        changed
    }

    /// Takes the report that the current track ended: the player moves on.
    pub fn track_end(&mut self) -> (r: (bool, LavalinkCommand))
        ensures
            final(self).same_place(*old(self)),
            final(self).state() == moved_on(old(self).state()),
            r.0 == (old(self).state().current is Some && old(self).state().playback
                != Playback::OneLoop || draws(old(self).state())),
            r.1 == (match next_track(old(self).state()) {
                Some(track) => LavalinkCommand::Play(track),
                None => LavalinkCommand::Stop,
            }),
    {
        self.play_next()
    }

    /// Takes the report that a track began, of which the player makes nothing.
    pub fn track_start(&mut self)
        ensures
            *final(self) == *old(self),
    {
    }
}

/// The mode after one was asked for.
pub open spec fn toggled(on: Playback, asked: Playback) -> Playback {
    if on != asked {
        asked
    } else {
        Playback::Normal
    }
}

/// The position that a report stands for at `now`, in nanoseconds.
pub open spec fn reported_nanos(update: PlayerUpdate, now: u64) -> nat {
    (update.position as u64 * 1_000_000 + (now - update.time as u64) * 1_000_000_000) as nat
}

/// What there is once Lavalink obeyed, or its error.
pub open spec fn answered<T>(value: T, reply: Result<(), LavalinkError>) -> Result<T, PlayerError> {
    match reply {
        Ok(_) => Ok(value),
        Err(e) => Err(PlayerError::Lavalink(e)),
    }
}

/// The tracks that a search found, or why there are none.
pub open spec fn tracks_found(reply: Result<Tracks, LavalinkError>) -> Result<
    Vec<Track>,
    PlayerError,
> {
    match reply {
        Err(e) => Err(PlayerError::Lavalink(e)),
        Ok(found) => if found.load_type@ == "LOAD_FAILED"@ {
            Err(PlayerError::SearchFailed(found.load_type))
        } else {
            Ok(found.tracks)
        },
    }
}

/// Whether a step in connecting a player was taken as it should.
pub open spec fn connecting_goes_on(
    bot: UserId,
    channel: ChannelId,
    guild: GuildId,
    lavalink: ClientId,
    reply: ConnectReply,
    r: ConnectNext,
) -> bool {
    match reply {
        ConnectReply::Joined(Ok(_)) => r is CreateSession,
        ConnectReply::Joined(Err(e)) => r == ConnectNext::Failed(PlayerError::SongbirdJoin(e)),
        ConnectReply::SessionCreated(Ok(_)) => r matches ConnectNext::Ready(p) && p.spec_channel()
            == channel && p.spec_guild() == guild && p.spec_lavalink() == lavalink && p.state()
            == fresh_player(bot),
        ConnectReply::SessionCreated(Err(e)) => r == ConnectNext::Failed(PlayerError::Lavalink(e)),
    }
}

/// How the disconnection of a player goes on.
pub open spec fn disconnecting_goes_on(reply: DisconnectReply) -> DisconnectNext {
    match reply {
        DisconnectReply::Call(true) => DisconnectNext::RemoveCall,
        DisconnectReply::Call(false) => DisconnectNext::Done(
            Err(PlayerError::NotInAVoiceChannel()),
        ),
        DisconnectReply::Removed(Ok(_)) => DisconnectNext::DestroyPlayer,
        DisconnectReply::Removed(Err(e)) => DisconnectNext::Done(
            Err(PlayerError::SongbirdLeave(e)),
        ),
        DisconnectReply::Destroyed(Ok(_)) => DisconnectNext::Done(Ok(())),
        DisconnectReply::Destroyed(Err(e)) => DisconnectNext::Done(Err(PlayerError::Lavalink(e))),
    }
}

/// Asking twice for a mode that is off turns it on and off again; asking twice for one that is on
/// turns it off and on again.
pub proof fn law_asking_twice_for_a_mode(on: Playback, asked: Playback)
    ensures
        on != asked ==> toggled(toggled(on, asked), asked) == Playback::Normal,
        on == asked ==> toggled(toggled(on, asked), asked) == asked,
{
}

/// Whether both queues of a player are within their limit.
pub open spec fn is_bounded(v: PlayerView) -> bool {
    v.playlist.len() <= MUSIC_QUEUE_LIMIT && v.history.len() <= MUSIC_QUEUE_LIMIT
}

/// Queues never outgrow their limit, whatever a player is asked to do.
pub proof fn law_queues_stay_bounded(v: PlayerView, track: Track, mode: Playback)
    requires
        is_bounded(v),
    ensures
        is_bounded(moved_on(v)),
        is_bounded(moved_back(v)),
        is_bounded(skipped(v)),
        is_bounded(flipped(v)),
        is_bounded(emptied(v)),
        is_bounded(with_mode(v, mode)),
        is_bounded(with_track(v, track)),
{
}

/// A player without a current track never gets one, whatever it is asked for: the track that comes
/// next is handed to Lavalink and no longer kept.
pub proof fn law_nothing_becomes_current(v: PlayerView, track: Track, mode: Playback)
    requires
        v.current is None,
    ensures
        moved_on(v).current is None,
        moved_back(v).current is None,
        skipped(v).current is None,
        flipped(v).current is None,
        emptied(v).current is None,
        with_mode(v, mode).current is None,
        with_track(v, track).current is None,
{
}

/// Pausing and resuming undo each other.
pub proof fn law_flipping_twice_changes_nothing(v: PlayerView)
    ensures
        flipped(flipped(v)) == v,
{
}

/// As long as the queue that the current track goes to is not full, moving on loses no track: what
/// was current, queued or played is afterwards queued, played or handed to Lavalink.
#[verifier::spinoff_prover]
pub proof fn law_moving_on_keeps_tracks(v: PlayerView)
    requires
        v.current is Some && v.playback == Playback::Normal ==> v.history.len()
            != MUSIC_QUEUE_LIMIT,
        v.current is Some && v.playback == Playback::AllLoop ==> v.playlist.len()
            != MUSIC_QUEUE_LIMIT,
    ensures
        held_tracks(v) =~= held_tracks(moved_on(v)).add(
            match next_track(v) {
                Some(track) => vstd::multiset::Multiset::singleton(track),
                None => vstd::multiset::Multiset::empty(),
            },
        ),
{
    let after = playlist_on_end(v);
    if v.current is Some {
        let track = playing(v)->0;
        lemma_front_multiset(v.history, track);
        v.playlist.to_multiset_ensures();
        if v.playback == Playback::AllLoop {
            assert(after.to_multiset() == v.playlist.to_multiset().insert(track));
        }
        if v.playback == Playback::Normal {
            assert(history_on_end(v).to_multiset() == v.history.to_multiset().insert(track));
        }
    }
    if draws(v) {
        assert(after =~= seq![after.first()] + after.drop_first());
        lemma_front_multiset(after.drop_first(), after.first());
        assert(after.to_multiset() == moved_on(v).playlist.to_multiset().insert(after.first()));
    }
    let empty = vstd::multiset::Multiset::<Track>::empty();
    let next = match next_track(v) {
        Some(track) => vstd::multiset::Multiset::singleton(track),
        None => empty,
    };
    let left = after.to_multiset().add(history_on_end(v).to_multiset());
    if repeats(v) {
        assert(held_tracks(v) =~= left.insert(playing(v)->0));
        assert(held_tracks(moved_on(v)) == left);
        assert(left.add(next) =~= left.insert(playing(v)->0));
    } else {
        if v.current is Some {
            assert(left =~= held_tracks(v));
        } else {
            assert(left == held_tracks(v));
        }
        if draws(v) {
            assert(left =~= held_tracks(moved_on(v)).add(next));
        } else {
            assert(held_tracks(moved_on(v)) == left);
            assert(left =~= left.add(empty));
        }
    }
}

/// A track put first is one more among the tracks.
proof fn lemma_front_multiset(q: Seq<Track>, track: Track)
    ensures
        (seq![track] + q).to_multiset() == q.to_multiset().insert(track),
{
    vstd::seq_lib::lemma_multiset_commutative(seq![track], q);
    assert(seq![track] =~= Seq::<Track>::empty().push(track));
    Seq::<Track>::empty().to_multiset_ensures();
    assert((seq![track] + q).to_multiset() =~= q.to_multiset().insert(track));
}

/// All tracks that a player holds.
pub open spec fn held_tracks(v: PlayerView) -> vstd::multiset::Multiset<Track> {
    let queued = v.playlist.to_multiset().add(v.history.to_multiset());
    match v.current {
        Some((_, track)) => queued.insert(track),
        None => queued,
    }
}

/// At the end of a track that does not repeat, the track becomes the first of the history, which
/// loses its last where it was full, and what is played is the first of the playlist. Nothing is
/// played where the playlist is empty.
pub proof fn law_ended_track_goes_to_the_history(v: PlayerView)
    requires
        v.playback == Playback::Normal,
    ensures
        v.current matches Some((_, track)) ==> {
            &&& moved_on(v).history.len() > 0
            &&& moved_on(v).history[0] == track
            &&& moved_on(v).history.skip(1) == v.history.take(
                if v.history.len() == 100 {
                    v.history.len() - 1
                } else {
                    v.history.len() as int
                },
            )
        },
        v.current is None ==> moved_on(v).history == v.history,
        v.playlist.len() > 0 ==> {
            &&& next_track(v) == Some(v.playlist[0])
            &&& moved_on(v).playlist == v.playlist.skip(1)
            &&& moved_on(v).play_state == PlayState::Play
        },
        v.playlist.len() == 0 ==> {
            &&& next_track(v) is None
            &&& moved_on(v).playlist == v.playlist
            &&& moved_on(v).play_state == v.play_state
        },
        moved_on(v).current is None,
        moved_on(v).playback == v.playback,
        moved_on(v).bot == v.bot,
{
    if v.current is Some {
        assert(moved_on(v).history.skip(1) =~= v.history.take(
            if v.history.len() == 100 {
                v.history.len() - 1
            } else {
                v.history.len() as int
            },
        ));
    }
    if v.playlist.len() > 0 {
        assert(moved_on(v).playlist =~= v.playlist.skip(1));
    }
}

/// Where all tracks repeat, a track that ended goes behind the playlist, which loses its last where
/// it was full, and what is played is what is then first. The history stays.
pub proof fn law_ended_track_comes_round_again(v: PlayerView)
    requires
        v.playback == Playback::AllLoop,
        v.playlist.len() <= 100,
    ensures
        v.current matches Some((_, track)) ==> {
            let kept = v.playlist.take(
                if v.playlist.len() == 100 {
                    v.playlist.len() - 1
                } else {
                    v.playlist.len() as int
                },
            );
            &&& next_track(v) == Some(
                if kept.len() > 0 {
                    v.playlist[0]
                } else {
                    track
                },
            )
            &&& seq![next_track(v)->0] + moved_on(v).playlist == kept + seq![track]
            &&& moved_on(v).play_state == PlayState::Play
        },
        v.current is None && v.playlist.len() > 0 ==> {
            &&& next_track(v) == Some(v.playlist[0])
            &&& moved_on(v).playlist == v.playlist.skip(1)
            &&& moved_on(v).play_state == PlayState::Play
        },
        v.current is None && v.playlist.len() == 0 ==> {
            &&& next_track(v) is None
            &&& moved_on(v).playlist.len() == 0
            &&& moved_on(v).play_state == v.play_state
        },
        moved_on(v).history == v.history,
        moved_on(v).current is None,
        moved_on(v).playback == v.playback,
        moved_on(v).bot == v.bot,
{
    if let Some((_, track)) = v.current {
        let kept = v.playlist.take(
            if v.playlist.len() == 100 {
                v.playlist.len() - 1
            } else {
                v.playlist.len() as int
            },
        );
        assert(playlist_on_end(v) =~= kept + seq![track]);
        assert(seq![next_track(v)->0] + moved_on(v).playlist =~= kept + seq![track]);
    } else if v.playlist.len() > 0 {
        assert(moved_on(v).playlist =~= v.playlist.skip(1));
    }
}

/// Where one track repeats, it is played again, and nothing else changes; without a current track
/// the first of the playlist is played.
pub proof fn law_ended_track_is_played_again(v: PlayerView)
    requires
        v.playback == Playback::OneLoop,
    ensures
        v.current matches Some((_, track)) ==> next_track(v) == Some(track) && moved_on(v) == (
        PlayerView { current: None, ..v }),
        v.current is None && v.playlist.len() > 0 ==> {
            &&& next_track(v) == Some(v.playlist[0])
            &&& moved_on(v) == (PlayerView {
                playlist: v.playlist.skip(1),
                play_state: PlayState::Play,
                ..v
            })
        },
        v.current is None && v.playlist.len() == 0 ==> next_track(v) is None && moved_on(v) == v,
{
    if v.current is None && v.playlist.len() > 0 {
        assert(moved_on(v).playlist =~= v.playlist.skip(1));
    }
}

/// A skip makes another track follow even where one repeats: what comes next is then the first of
/// the playlist, and the repeated track has become the first of the history. In the other modes a
/// skip by itself changes nothing.
pub proof fn law_skip_leaves_a_repeated_track(v: PlayerView)
    ensures
        v.playback == Playback::OneLoop && v.current is Some ==> {
            &&& next_track(skipped(v)) == if v.playlist.len() > 0 {
                Some(v.playlist[0])
            } else {
                None
            }
            &&& skipped(v).history.len() > 0
            &&& v.current matches Some((_, track)) && skipped(v).history[0] == track
            &&& skipped(v).history.skip(1) == v.history.take(
                if v.history.len() == 100 {
                    v.history.len() - 1
                } else {
                    v.history.len() as int
                },
            )
            &&& skipped(v).current is None
            &&& skipped(v).playlist == v.playlist
            &&& skipped(v).play_state == v.play_state
            &&& skipped(v).playback == v.playback
            &&& skipped(v).bot == v.bot
        },
        v.playback != Playback::OneLoop || v.current is None ==> skipped(v) == v,
        repeats(v) <==> v.playback == Playback::OneLoop && v.current is Some,
{
    if repeats(v) {
        assert(skipped(v).history.skip(1) =~= v.history.take(
            if v.history.len() == 100 {
                v.history.len() - 1
            } else {
                v.history.len() as int
            },
        ));
    }
}

/// A backward skip puts the track that was played longest ago before the current one, and both before
/// the playlist, which loses what no longer fits. What is played then is the first of these.
pub proof fn law_back_skip_puts_tracks_first(v: PlayerView)
    requires
        v.playlist.len() <= 100,
    ensures
        ({
            let oldest = if v.history.len() > 0 {
                seq![v.history[v.history.len() - 1]]
            } else {
                Seq::empty()
            };
            let current = match v.current {
                Some((_, track)) => seq![track],
                None => Seq::empty(),
            };
            let all = oldest + current + v.playlist;
            &&& moved_back(v).playlist == all.take(
                if all.len() <= 100 {
                    all.len() as int
                } else {
                    100
                },
            )
            &&& moved_back(v).history == v.history.take(
                if v.history.len() > 0 {
                    v.history.len() - 1
                } else {
                    0
                },
            )
            &&& moved_back(v).current is None
            &&& moved_back(v).play_state == v.play_state
            &&& moved_back(v).playback == v.playback
            &&& moved_back(v).bot == v.bot
            &&& next_track(moved_back(v)) == if all.len() > 0 {
                Some(all[0])
            } else {
                None
            }
            &&& goes_back(v) <==> oldest.len() + current.len() > 0
        }),
{
    let oldest = if v.history.len() > 0 {
        seq![v.history[v.history.len() - 1]]
    } else {
        Seq::empty()
    };
    let current = match v.current {
        Some((_, track)) => seq![track],
        None => Seq::empty(),
    };
    let all = oldest + current + v.playlist;
    assert(moved_back(v).playlist =~= all.take(
        if all.len() <= 100 {
            all.len() as int
        } else {
            100
        },
    ));
    assert(moved_back(v).history =~= v.history.take(
        if v.history.len() > 0 {
            v.history.len() - 1
        } else {
            0
        },
    ));
}

/// A track that is asked for goes behind the playlist. Where nothing is current, the first of the
/// playlist with it is taken off to be played, and the player runs; a full playlist stays as it is.
pub proof fn law_asked_track_goes_last(v: PlayerView, track: Track)
    ensures
        queued(v, track).playlist == v.playlist + seq![track],
        queued(v, track) == (PlayerView { playlist: queued(v, track).playlist, ..v }),
        v.playlist.len() >= 100 ==> with_track(v, track) == v,
        v.playlist.len() < 100 && v.current is Some ==> with_track(v, track) == (
        PlayerView { playlist: v.playlist + seq![track], ..v }),
        v.playlist.len() < 100 && v.current is None ==> with_track(v, track) == (
        PlayerView {
            playlist: (v.playlist + seq![track]).skip(1),
            play_state: PlayState::Play,
            ..v
        }),
{
    assert(queued(v, track).playlist =~= v.playlist + seq![track]);
    if v.playlist.len() < 100 && v.current is None {
        assert(with_track(v, track).playlist =~= (v.playlist + seq![track]).skip(1));
    }
}

/// A toggle asks Lavalink for what the player then does: a running player is paused, a paused one
/// runs, and nothing else changes.
pub proof fn law_toggle_asks_for_the_other_state(v: PlayerView)
    ensures
        v.play_state == PlayState::Play ==> toggle_of(v) == LavalinkCommand::Pause && flipped(v) == (
        PlayerView { play_state: PlayState::Pause, ..v }),
        v.play_state == PlayState::Pause ==> toggle_of(v) == LavalinkCommand::Resume && flipped(v)
            == (PlayerView { play_state: PlayState::Play, ..v }),
{
}

/// Emptying the queue takes all that is queued and nothing else.
pub proof fn law_emptied_queue_keeps_the_rest(v: PlayerView)
    ensures
        emptied(v).playlist.len() == 0,
        emptied(v).current == v.current,
        emptied(v).history == v.history,
        emptied(v).play_state == v.play_state,
        emptied(v).playback == v.playback,
        emptied(v).bot == v.bot,
{
}

/// Asking for a mode turns it on, unless it is on already: then no mode is on. Nothing else changes.
pub proof fn law_asked_mode_is_on(v: PlayerView, asked: Playback)
    ensures
        v.playback != asked ==> with_mode(v, asked) == (PlayerView { playback: asked, ..v }),
        v.playback == asked ==> with_mode(v, asked) == (PlayerView {
            playback: Playback::Normal,
            ..v
        }),
{
}

/// A player starts out running, with nothing to play and nothing to repeat.
pub proof fn law_players_start_out_empty(bot: UserId)
    ensures
        fresh_player(bot).bot == bot,
        fresh_player(bot).current is None,
        fresh_player(bot).playlist.len() == 0,
        fresh_player(bot).history.len() == 0,
        fresh_player(bot).play_state == PlayState::Play,
        fresh_player(bot).playback == Playback::Normal,
        next_track(fresh_player(bot)) is None,
{
}

/// A report stands for its position at the time it was made, and for one second more with each
/// second that has passed since.
pub proof fn law_reports_age(update: PlayerUpdate, seconds: u64)
    requires
        0 <= update.time,
        0 <= update.position,
        update.time + seconds <= u64::MAX,
    ensures
        reported_nanos(update, update.time as u64) == update.position * 1_000_000,
        reported_nanos(update, (update.time + seconds) as u64) == update.position * 1_000_000
            + seconds * 1_000_000_000,
{
}

/// Only a closed connection is fatal.
pub proof fn law_only_a_closed_connection_is_fatal(error: PlayerError)
    ensures
        error.fatal() <==> (error matches PlayerError::Lavalink(e) && e is ConnectionClosed),
{
}

/// A player connects by joining the channel and then by a session with Lavalink; it is then in that
/// channel and guild, plays through that client, and has nothing to play yet. Where either fails,
/// that is why there is no player.
pub proof fn law_players_connect_step_by_step(
    bot: UserId,
    channel: ChannelId,
    guild: GuildId,
    lavalink: ClientId,
    reply: ConnectReply,
    r: ConnectNext,
)
    requires
        connecting_goes_on(bot, channel, guild, lavalink, reply, r),
    ensures
        r is Ready <==> (reply matches ConnectReply::SessionCreated(result) && result is Ok),
        r is CreateSession <==> (reply matches ConnectReply::Joined(result) && result is Ok),
        r matches ConnectNext::Ready(player) ==> player.spec_channel() == channel
            && player.spec_guild() == guild && player.spec_lavalink() == lavalink
            && player.state().bot == bot && player.state().current is None
            && player.state().playlist.len() == 0 && player.state().history.len() == 0
            && player.state().play_state == PlayState::Play && player.state().playback
            == Playback::Normal,
        (reply matches ConnectReply::Joined(Err(e)) ==> r == ConnectNext::Failed(
            PlayerError::SongbirdJoin(e),
        )),
        (reply matches ConnectReply::SessionCreated(Err(e)) ==> r == ConnectNext::Failed(
            PlayerError::Lavalink(e),
        )),
{
}

/// A player disconnects by leaving its call and then by ending its session with Lavalink; only then
/// has it disconnected, and the first thing that fails ends it.
pub proof fn law_players_disconnect_step_by_step(reply: DisconnectReply)
    ensures
        disconnecting_goes_on(reply) is RemoveCall <==> reply == DisconnectReply::Call(true),
        disconnecting_goes_on(reply) is DestroyPlayer <==> (reply matches DisconnectReply::Removed(
            result,
        ) && result is Ok),
        disconnecting_goes_on(reply) == DisconnectNext::Done(Ok(())) <==> (
        reply matches DisconnectReply::Destroyed(result) && result is Ok),
        disconnecting_goes_on(DisconnectReply::Call(false)) == DisconnectNext::Done(
            Err(PlayerError::NotInAVoiceChannel()),
        ),
        reply matches DisconnectReply::Removed(Err(e)) ==> disconnecting_goes_on(reply)
            == DisconnectNext::Done(Err(PlayerError::SongbirdLeave(e))),
        reply matches DisconnectReply::Destroyed(Err(e)) ==> disconnecting_goes_on(reply)
            == DisconnectNext::Done(Err(PlayerError::Lavalink(e))),
{
}

/// Lavalink's errors are passed on as they are; else there is what was to be had.
pub proof fn law_errors_of_lavalink_are_passed_on<T>(value: T, error: LavalinkError)
    ensures
        answered(value, Ok(())) == Ok::<T, PlayerError>(value),
        answered(value, Err(error)) == Err::<T, PlayerError>(PlayerError::Lavalink(error)),
{
}

/// A search gives the tracks that were found, unless loading failed or Lavalink did.
pub proof fn law_searches_give_their_tracks(found: Tracks, error: LavalinkError)
    ensures
        found.load_type@ != "LOAD_FAILED"@ ==> tracks_found(Ok(found)) == Ok::<
            Vec<Track>,
            PlayerError,
        >(found.tracks),
        found.load_type@ == "LOAD_FAILED"@ ==> tracks_found(Ok(found)) == Err::<
            Vec<Track>,
            PlayerError,
        >(PlayerError::SearchFailed(found.load_type)),
        tracks_found(Err(error)) == Err::<Vec<Track>, PlayerError>(PlayerError::Lavalink(error)),
{
}

/// A player that stays in its place keeps its channel, its guild and its client.
pub proof fn law_place_is_channel_guild_and_client(a: Player, b: Player)
    ensures
        a.same_place(b) <==> a@.channel == b@.channel && a@.guild == b@.guild && a@.lavalink
            == b@.lavalink,
{
}

} // verus!
