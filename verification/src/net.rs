//! Talking to companions: programs of users who watch and control the players from outside.
use crate::bots::Bot;
use crate::guild::player_manager::{PlayerMapError, PlayerRequest};
use crate::ids::{ChannelId, GuildId, UserId};
use crate::player::{PlayState, Playback, PlayerState, PlayerView};
use crate::text::{decimal, law_decimal_goes_digit_by_digit};
use crate::track::{Track, TrackQueue};
use vstd::prelude::*;

verus! {

/// What a companion calls the ways to repeat.
#[derive(Clone, Copy, Debug, PartialEq, Eq, Structural)]
pub enum PlayMode {
    Normal,
    LoopAll,
    LoopOne,
}

/// What a companion asks a player for.
pub enum PlayerControl {
    Resume(),
    Pause(),
    Skip(usize),
    BackSkip(usize),
    /// The position to jump to, in milliseconds.
    SetTime(u64),
    PlayMode(PlayMode),
    /// The address of a track.
    Enqueue(String),
    Leave(),
    Join(),
}

/// What a control request leads to.
pub enum ControlNext {
    Ignore,
    Request(PlayerRequest),
    /// So many tracks are skipped.
    Skip(usize, ChannelId),
    /// So many tracks are skipped backward.
    BackSkip(usize, ChannelId),
    /// The player jumps to a position in milliseconds.
    Jump(u64, ChannelId),
    /// The address is searched for, and what is found goes to [`queue_found`].
    Search(String, ChannelId),
    Leave(ChannelId),
    Join(ChannelId),
}

/// The way to repeat that a companion's word stands for.
pub open spec fn mode_of(mode: PlayMode) -> Playback {
    match mode {
        PlayMode::Normal => Playback::Normal,
        PlayMode::LoopAll => Playback::AllLoop,
        PlayMode::LoopOne => Playback::OneLoop,
    }
}

/// A companion's word for a way to repeat.
pub open spec fn word_for(playback: Playback) -> PlayMode {
    match playback {
        Playback::Normal => PlayMode::Normal,
        Playback::AllLoop => PlayMode::LoopAll,
        Playback::OneLoop => PlayMode::LoopOne,
    }
}

/// The way to repeat that a companion's word stands for.
pub fn parse_mode(mode: PlayMode) -> (r: Playback)
    ensures
        r == mode_of(mode),
{
    match mode {
        PlayMode::Normal => Playback::Normal,
        PlayMode::LoopAll => Playback::AllLoop,
        PlayMode::LoopOne => Playback::OneLoop,
    }
}

impl From<Playback> for PlayMode {
    fn from(playback: Playback) -> (r: PlayMode) {
        match playback {
            Playback::Normal => PlayMode::Normal,
            Playback::AllLoop => PlayMode::LoopAll,
            Playback::OneLoop => PlayMode::LoopOne,
        }
    }
}

impl vstd::std_specs::convert::FromSpecImpl<Playback> for PlayMode {
    open spec fn obeys_from_spec() -> bool {
        true
    }

    open spec fn from_spec(playback: Playback) -> PlayMode {
        word_for(playback)
    }
}

/// A companion's word read back is the way to repeat that it was made from, and the other way
/// round.
pub proof fn law_modes_read_back(playback: Playback, mode: PlayMode)
    ensures
        mode_of(word_for(playback)) == playback,
        word_for(mode_of(mode)) == mode,
{
}

/// What a control request leads to, in the voice channel that the user was last seen in and whose
/// guild has players or not.
pub open spec fn control_next(
    voice: Option<(GuildId, ChannelId)>,
    has_players: bool,
    control: PlayerControl,
) -> ControlNext {
    match voice {
        Some((_, channel)) if has_players => match control {
            PlayerControl::Resume() => ControlNext::Request(PlayerRequest::PauseResume(channel)),
            PlayerControl::Pause() => ControlNext::Request(PlayerRequest::PauseResume(channel)),
            PlayerControl::Skip(n) => ControlNext::Skip(n, channel),
            PlayerControl::BackSkip(n) => ControlNext::BackSkip(n, channel),
            PlayerControl::SetTime(position) => ControlNext::Jump(position, channel),
            PlayerControl::PlayMode(mode) => ControlNext::Request(
                PlayerRequest::Playback(mode_of(mode), channel),
            ),
            PlayerControl::Enqueue(url) => ControlNext::Search(url, channel),
            PlayerControl::Leave() => ControlNext::Leave(channel),
            PlayerControl::Join() => ControlNext::Join(channel),
        },
        _ => ControlNext::Ignore,
    }
}

/// What a control request leads to. It is passed over where the user is in no voice channel, or
/// where the guild has no players.
pub fn handle_control_req(
    voice: Option<(GuildId, ChannelId)>,
    has_players: bool,
    control: PlayerControl,
) -> (r: ControlNext)
    ensures
        r == control_next(voice, has_players, control),
{
    let channel = match voice {
        Some((_, channel)) => channel,
        None => {
            return ControlNext::Ignore;
        },
    };
    if !has_players {
        return ControlNext::Ignore;
    }
    match control {
        PlayerControl::Resume() => ControlNext::Request(PlayerRequest::PauseResume(channel)),
        PlayerControl::Pause() => ControlNext::Request(PlayerRequest::PauseResume(channel)),
        PlayerControl::Skip(n) => ControlNext::Skip(n, channel),
        PlayerControl::BackSkip(n) => ControlNext::BackSkip(n, channel),
        PlayerControl::SetTime(position) => ControlNext::Jump(position, channel),
        PlayerControl::PlayMode(mode) => ControlNext::Request(
            PlayerRequest::Playback(parse_mode(mode), channel),
        ),
        PlayerControl::Enqueue(url) => ControlNext::Search(url, channel),
        PlayerControl::Leave() => ControlNext::Leave(channel),
        PlayerControl::Join() => ControlNext::Join(channel),
    }
}

/// The request that a search for an address leads to.
pub open spec fn queued_of(
    found: Result<(UserId, Vec<Track>), PlayerMapError>,
    channel: ChannelId,
) -> Result<Option<PlayerRequest>, PlayerMapError> {
    match found {
        Err(e) => Err(e),
        Ok((_, tracks)) => Ok(
            if tracks@.len() > 0 {
                Some(PlayerRequest::Enqueue(tracks@.first(), channel))
            } else {
                None
            },
        ),
    }
}

/// What a search for an address leads to: the first track found is queued, if there is one.
pub fn queue_found(
    found: Result<(UserId, Vec<Track>), PlayerMapError>,
    channel: ChannelId,
) -> (r: Result<Option<PlayerRequest>, PlayerMapError>)
    ensures
        r == queued_of(found, channel),
{
    match found {
        Err(e) => Err(e),
        Ok((_, tracks)) => {
            if tracks.len() > 0 {
                Ok(Some(PlayerRequest::Enqueue(tracks[0].clone(), channel)))
            } else {
                Ok(None)
            }
        },
    }
}

/// A track as a companion sees it. Lengths are in milliseconds.
#[derive(Debug)]
pub struct NetTrack {
    pub len: u64,
    pub pos: u64,
    pub title: String,
    pub uri: String,
}

/// The contents of a [`NetTrack`].
pub struct NetTrackView {
    pub len: u64,
    pub pos: u64,
    pub title: Seq<char>,
    pub uri: Seq<char>,
}

impl View for NetTrack {
    type V = NetTrackView;

    open spec fn view(&self) -> NetTrackView {
        NetTrackView { len: self.len, pos: self.pos, title: self.title@, uri: self.uri@ }
    }
}

/// What a companion sees of a track: nothing where nothing is known of it.
pub open spec fn seen_track(t: Track) -> Option<NetTrackView> {
    match t.info {
        Some(info) => Some(
            NetTrackView {
                len: info.length,
                pos: info.position,
                title: info.title@,
                uri: info.uri@,
            },
        ),
        None => None,
    }
}

/// What a companion sees of tracks, in order.
pub open spec fn seen_tracks(tracks: Seq<Track>) -> Seq<NetTrackView>
    decreases tracks.len(),
{
    if tracks.len() == 0 {
        Seq::empty()
    } else {
        let before = seen_tracks(tracks.drop_last());
        match seen_track(tracks.last()) {
            Some(track) => before.push(track),
            None => before,
        }
    }
}

/// The contents of tracks.
pub open spec fn views(tracks: Seq<NetTrack>) -> Seq<NetTrackView> {
    tracks.map_values(|t: NetTrack| t@)
}

/// What a companion sees of a track.
pub fn parse_track(t: &Track) -> (r: Option<NetTrack>)
    ensures
        match r {
            Some(track) => seen_track(*t) == Some(track@),
            None => seen_track(*t) is None,
        },
{
    match &t.info {
        Some(info) => Some(
            NetTrack {
                len: info.length,
                pos: info.position,
                title: info.title.clone(),
                uri: info.uri.clone(),
            },
        ),
        None => None,
    }
}

/// What a companion sees of a queue.
fn parse_queue(queue: &TrackQueue) -> (r: Vec<NetTrack>)
    ensures
        views(r@) == seen_tracks(queue@),
{
    let mut r: Vec<NetTrack> = Vec::new();
    let n: usize = queue.len();
    let mut i: usize = 0;
    assert(queue@.take(0) =~= Seq::empty());
    assert(views(r@) =~= seen_tracks(queue@.take(0)));
    while i < n
        invariant
            n == queue@.len(),
            i <= n,
            views(r@) == seen_tracks(queue@.take(i as int)),
        decreases n - i,
    {
        assert(queue@.take(i + 1).drop_last() =~= queue@.take(i as int));
        if let Some(t) = queue.get(i) {
            if let Some(track) = parse_track(t) {
                let ghost before = r@;
                r.push(track);
                assert(views(r@) =~= views(before).push(track@));
            }
        }
        i += 1;
    }
    assert(queue@.take(i as int) =~= queue@);
    r
}

/// A player as a companion sees it.
#[derive(Debug)]
pub struct NetPlayerState {
    pub name: String,
    pub avatar: String,
    pub paused: bool,
    pub mode: PlayMode,
    pub current: Option<NetTrack>,
    pub history: Vec<NetTrack>,
    pub queue: Vec<NetTrack>,
}

/// The contents of a [`NetPlayerState`].
#[verifier::ext_equal]
pub struct NetPlayerView {
    pub name: Seq<char>,
    pub avatar: Seq<char>,
    pub paused: bool,
    pub mode: PlayMode,
    pub current: Option<NetTrackView>,
    pub history: Seq<NetTrackView>,
    pub queue: Seq<NetTrackView>,
}

impl View for NetPlayerState {
    type V = NetPlayerView;

    open spec fn view(&self) -> NetPlayerView {
        NetPlayerView {
            name: self.name@,
            avatar: self.avatar@,
            paused: self.paused,
            mode: self.mode,
            current: match self.current {
                Some(track) => Some(track@),
                None => None,
            },
            history: views(self.history@),
            queue: views(self.queue@),
        }
    }
}

/// What a companion sees of a player.
pub open spec fn state_seen(
    name: Seq<char>,
    avatar: Option<String>,
    default_avatar: Seq<char>,
    state: PlayerView,
) -> NetPlayerView {
    NetPlayerView {
        name,
        avatar: match avatar {
            Some(own) => own@,
            None => default_avatar,
        },
        paused: state.play_state == PlayState::Pause,
        mode: word_for(state.playback),
        current: match state.current {
            Some((_, track)) => seen_track(track),
            None => None,
        },
        history: seen_tracks(state.history),
        queue: seen_tracks(state.playlist),
    }
}

/// What a companion sees of a player whose bot has a name, and an avatar of its own or the default
/// one.
pub fn gen_player_state(
    name: String,
    avatar: Option<String>,
    default_avatar: String,
    state: &PlayerState,
) -> (r: NetPlayerState)
    ensures
        r@ == state_seen(name@, avatar, default_avatar@, state@),
{
    NetPlayerState {
        name,
        avatar: match avatar {
            Some(own) => own,
            None => default_avatar,
        },
        paused: state.play_state == PlayState::Pause,
        mode: PlayMode::from(state.playback),
        current: match &state.current {
            Some((_, track)) => parse_track(track),
            None => None,
        },
        history: parse_queue(&state.history),
        queue: parse_queue(&state.playlist),
    }
}

impl NetTrack {
    /// Whether a companion sees no difference between two tracks.
    fn same(&self, other: &NetTrack) -> (r: bool)
        ensures
            r == (self@ == other@),
    {
        self.len == other.len && self.pos == other.pos && self.title == other.title && self.uri
            == other.uri
    }
}

/// Whether a companion sees no difference between two lists of tracks.
fn same_tracks(a: &Vec<NetTrack>, b: &Vec<NetTrack>) -> (r: bool)
    ensures
        r == (views(a@) == views(b@)),
{
    if a.len() != b.len() {
        assert(views(a@).len() != views(b@).len());
        return false;
    }
    let mut i: usize = 0;
    while i < a.len()
        invariant
            a@.len() == b@.len(),
            i <= a@.len(),
            forall|j: int| 0 <= j < i ==> views(a@)[j] == views(b@)[j],
        decreases a.len() - i,
    {
        if !a[i].same(&b[i]) {
            assert(views(a@)[i as int] != views(b@)[i as int]);
            return false;
        }
        i += 1;
    }
    assert(views(a@) =~= views(b@));
    true
}

impl NetPlayerState {
    /// Whether a companion sees no difference between two players.
    pub fn same(&self, other: &NetPlayerState) -> (r: bool)
        ensures
            r == (self@ == other@),
    {
        let current = match (&self.current, &other.current) {
            (Some(a), Some(b)) => a.same(b),
            (None, None) => true,
            _ => false,
        };
        self.name == other.name && self.avatar == other.avatar && self.paused == other.paused
            && self.mode == other.mode && current && same_tracks(&self.history, &other.history)
            && same_tracks(&self.queue, &other.queue)
    }
}

/// How long a companion's watches wait between two looks, in seconds.
pub const WATCH_INTERVAL_SECS: u64 = 5;

/// What happened at a watch on the player in a channel.
pub enum WatchReply {
    /// Whether the guild has players.
    Manager(bool),
    /// The bot whose player is in the channel, if there is one.
    Player(Option<UserId>),
    Slept,
    /// The bot, if it is known.
    Bot(Option<Bot>),
    /// The player's first state, if there is still a player.
    First(Option<NetPlayerState>),
    /// The player's next state, or that there is no player any more.
    Changed(Option<NetPlayerState>),
    /// The difference between the first state and the next could be written down, or not.
    Patch(bool),
}

/// What follows.
pub enum WatchNext {
    Stop,
    FindPlayer,
    Sleep(u64),
    FindBot(UserId),
    ReadFirst(Bot),
    /// The whole state is sent, and the next one is awaited.
    SendFull,
    AwaitChange,
    /// The difference between the first state and the next is written down.
    MakePatch(NetPlayerState),
    /// The difference is sent, and the next state is awaited.
    SendPatch,
}

/// A watch on the player in a channel, with the state that was sent in whole.
pub struct PlayerWatch {
    sent: Option<NetPlayerState>,
}

/// Whether a step in watching a player was taken as it should, given the state that was sent in whole
/// before and after.
pub open spec fn watch_goes_on(
    sent: Option<NetPlayerView>,
    after: Option<NetPlayerView>,
    reply: WatchReply,
    r: WatchNext,
) -> bool {
    match reply {
        WatchReply::First(Some(state)) => r is SendFull && after == Some(state@),
        _ => {
            &&& after == sent
            &&& match reply {
                WatchReply::Manager(true) => r is FindPlayer,
                WatchReply::Manager(false) => r is Stop,
                WatchReply::Player(Some(bot)) => r == WatchNext::FindBot(bot),
                WatchReply::Player(None) => r == WatchNext::Sleep(WATCH_INTERVAL_SECS),
                WatchReply::Slept => r is FindPlayer,
                WatchReply::Bot(Some(bot)) => r == WatchNext::ReadFirst(bot),
                WatchReply::Bot(None) => r is FindPlayer,
                WatchReply::First(_) => r is FindPlayer,
                WatchReply::Changed(None) => r is FindPlayer,
                WatchReply::Changed(Some(state)) => if sent == Some(state@) {
                    r is AwaitChange
                } else {
                    r matches WatchNext::MakePatch(next) && next@ == state@
                },
                WatchReply::Patch(true) => r is SendPatch,
                WatchReply::Patch(false) => r is AwaitChange,
            }
        },
    }
}

impl PlayerWatch {
    /// The state that was sent in whole, if there is one.
    pub closed spec fn spec_sent(self) -> Option<NetPlayerView> {
        match self.sent {
            Some(state) => Some(state@),
            None => None,
        }
    }

    /// The state that was sent in whole.
    pub fn sent(&self) -> (r: &Option<NetPlayerState>)
        ensures
            self.spec_sent() == match *r {
                Some(state) => Some(state@),
                None => None,
            },
    {
        &self.sent
    }

    /// A watch that has sent nothing.
    pub fn new() -> (r: PlayerWatch)
        ensures
            r.spec_sent() is None,
    {
        PlayerWatch { sent: None }
    }

    /// How a companion is kept up to date on the player in a channel. Once there is a player, its
    /// state is sent in whole; each later state is sent as its difference from that one, unless
    /// there is none. When the player goes, the watch begins again.
    pub fn player_state_sender_run(&mut self, reply: WatchReply) -> (r: WatchNext)
        ensures
            watch_goes_on(old(self).spec_sent(), final(self).spec_sent(), reply, r),
    {
        match reply {
            WatchReply::Manager(found) => if found {
                WatchNext::FindPlayer
            } else {
                WatchNext::Stop
            },
            WatchReply::Player(Some(bot)) => WatchNext::FindBot(bot),
            WatchReply::Player(None) => WatchNext::Sleep(WATCH_INTERVAL_SECS),
            WatchReply::Slept => WatchNext::FindPlayer,
            WatchReply::Bot(Some(bot)) => WatchNext::ReadFirst(bot),
            WatchReply::Bot(None) => WatchNext::FindPlayer,
            WatchReply::First(Some(state)) => {
                self.sent = Some(state);
                WatchNext::SendFull
            },
            WatchReply::First(None) => WatchNext::FindPlayer,
            WatchReply::Changed(None) => WatchNext::FindPlayer,
            WatchReply::Changed(Some(state)) => {
                let unchanged = match &self.sent {
                    Some(sent) => state.same(sent),
                    None => false,
                };
                if unchanged {
                    WatchNext::AwaitChange
                } else {
                    WatchNext::MakePatch(state)
                }
            },
            WatchReply::Patch(made) => if made {
                WatchNext::SendPatch
            } else {
                WatchNext::AwaitChange
            },
        }
    }
}

/// The user behind a companion.
#[derive(Debug)]
pub struct NetUser {
    pub id: String,
}

/// What came in over a companion's connection.
pub enum Frame {
    Failed,
    /// A message that could be read: a request, or one that a companion does not send.
    Message(Option<ClientRequest>),
    /// A message that could not be read.
    Unreadable,
    Close,
    /// Anything else.
    Other,
}

/// What a companion asks for.
pub enum ClientRequest {
    /// To be let in, with what it can show for itself.
    Authenticate(String),
    AuthStatus(),
    Control(PlayerControl),
    End(),
}

/// What follows.
pub enum ReceiveNext {
    Stop,
    Continue,
    /// The companion is told that its message could not be read.
    TellUnreadable,
    /// The companion is told that its message was unexpected.
    TellUnexpected,
    Authenticate(String),
    TellAuthStatus,
    Control(PlayerControl),
}

/// What a frame of a companion leads to.
pub open spec fn frame_taken(frame: Frame) -> ReceiveNext {
    match frame {
        Frame::Failed => ReceiveNext::Stop,
        Frame::Close => ReceiveNext::Stop,
        Frame::Other => ReceiveNext::Continue,
        Frame::Unreadable => ReceiveNext::TellUnreadable,
        Frame::Message(None) => ReceiveNext::TellUnexpected,
        Frame::Message(Some(ClientRequest::Authenticate(auth))) => ReceiveNext::Authenticate(auth),
        Frame::Message(Some(ClientRequest::AuthStatus())) => ReceiveNext::TellAuthStatus,
        Frame::Message(Some(ClientRequest::Control(control))) => ReceiveNext::Control(control),
        Frame::Message(Some(ClientRequest::End())) => ReceiveNext::Stop,
    }
}

/// What follows what came in over a companion's connection. A failure, a close or a request to end
/// ends the connection; what is no message is passed over.
pub fn receive_run(frame: Frame) -> (r: ReceiveNext)
    ensures
        r == frame_taken(frame),
{
    match frame {
        Frame::Failed => ReceiveNext::Stop,
        Frame::Close => ReceiveNext::Stop,
        Frame::Other => ReceiveNext::Continue,
        Frame::Unreadable => ReceiveNext::TellUnreadable,
        Frame::Message(None) => ReceiveNext::TellUnexpected,
        Frame::Message(Some(request)) => match request {
            ClientRequest::Authenticate(auth) => ReceiveNext::Authenticate(auth),
            ClientRequest::AuthStatus() => ReceiveNext::TellAuthStatus,
            ClientRequest::Control(control) => ReceiveNext::Control(control),
            ClientRequest::End() => ReceiveNext::Stop,
        },
    }
}

/// A reply of the outside world while a companion is let in.
pub enum AuthReply {
    /// The companion's credentials were exchanged, or not.
    Token(bool),
    /// The user behind the companion, if that could be found out.
    User(Option<NetUser>),
}

/// What follows.
pub enum AuthNext {
    FindUser,
    /// The companion is told that it is not let in.
    TellError,
    /// The companion is told that it is let in. Where the user was watched already, the companion
    /// is then told of no voice channel and the old watch ends. The user is watched from then on.
    LetIn(bool),
}

/// What happened at a watch on a user's voice channel.
pub enum VoiceWatchNext {
    /// Nothing changed.
    Wait,
    /// The watch on the player ends if there is one, and the companion is told of no voice channel.
    TellNone(bool),
    /// The watch on the player ends if there is one, the companion is told of the channel, and the
    /// player there is watched.
    TellAndWatch(bool, GuildId, ChannelId),
}

/// A companion's connection: the user it was let in for, where the user was last seen, and which
/// watches run.
pub struct ClientConnection {
    user: Option<NetUser>,
    voice_state: Option<(GuildId, ChannelId)>,
    watches_voice: bool,
    watches_player: bool,
}

/// The contents of a [`ClientConnection`].
pub struct ConnectionView {
    pub user: Option<NetUser>,
    pub voice: Option<(GuildId, ChannelId)>,
    pub watches_voice: bool,
    pub watches_player: bool,
}

impl View for ClientConnection {
    type V = ConnectionView;

    closed spec fn view(&self) -> ConnectionView {
        ConnectionView {
            user: self.user,
            voice: self.voice_state,
            watches_voice: self.watches_voice,
            watches_player: self.watches_player,
        }
    }
}

/// Whether a step in letting a companion in was taken as it should.
pub open spec fn auth_goes_on(
    before: ConnectionView,
    after: ConnectionView,
    reply: AuthReply,
    r: AuthNext,
) -> bool {
    match reply {
        AuthReply::Token(true) => r is FindUser && after == before,
        AuthReply::Token(false) => r is TellError && after == before,
        AuthReply::User(None) => r is TellError && after == before,
        AuthReply::User(Some(user)) => {
            &&& r == AuthNext::LetIn(before.watches_voice)
            &&& after == (ConnectionView {
                user: Some(user),
                voice: if before.watches_voice {
                    None
                } else {
                    before.voice
                },
                watches_voice: true,
                ..before
            })
        },
    }
}

/// Whether the watch on a user's voice channel was begun as it should: under the user's number, and
/// with no player watched.
pub open spec fn voice_watch_begun(
    before: ConnectionView,
    after: ConnectionView,
    id: Seq<char>,
    r: Option<(UserId, bool)>,
) -> bool {
    match number_in(id) {
        None => r is None && after == before,
        Some(n) => {
            &&& r == Some((UserId(n), before.watches_player))
            &&& after == (ConnectionView { watches_player: false, ..before })
        },
    }
}

/// Whether a look at a user's voice channel was taken as it should, given where the user was seen
/// last.
pub open spec fn voice_watched(
    before: ConnectionView,
    after: ConnectionView,
    last: Option<(GuildId, ChannelId)>,
    seen: Option<(GuildId, ChannelId)>,
    r: VoiceWatchNext,
) -> bool {
    if seen == last {
        r is Wait && after == before
    } else {
        &&& after == (ConnectionView { voice: seen, watches_player: seen is Some, ..before })
        &&& r == match seen {
            None => VoiceWatchNext::TellNone(before.watches_player),
            Some((guild, channel)) => VoiceWatchNext::TellAndWatch(
                before.watches_player,
                guild,
                channel,
            ),
        }
    }
}

impl ClientConnection {
    /// A connection of a companion that was not let in yet.
    pub fn new() -> (r: ClientConnection)
        ensures
            r@ == (ConnectionView {
                user: None,
                voice: None,
                watches_voice: false,
                watches_player: false,
            }),
    {
        ClientConnection {
            user: None,
            voice_state: None,
            watches_voice: false,
            watches_player: false,
        }
    }

    /// Where the user was last seen.
    pub fn voice_state(&self) -> (r: Option<(GuildId, ChannelId)>)
        ensures
            r == self@.voice,
    {
        self.voice_state
    }

    /// Lets a companion in: its credentials have to be good for something, and for a user. The user
    /// is watched from then on; a watch that runs already is begun anew.
    pub fn auth(&mut self, reply: AuthReply) -> (r: AuthNext)
        ensures
            auth_goes_on(old(self)@, final(self)@, reply, r),
    {
        match reply {
            AuthReply::Token(good) => if good {
                AuthNext::FindUser
            } else {
                AuthNext::TellError
            },
            AuthReply::User(None) => AuthNext::TellError,
            AuthReply::User(Some(user)) => {
                let watched = self.watches_voice;
                self.user = Some(user);
                if watched {
                    self.voice_state = None;
                }
                self.watches_voice = true;
                AuthNext::LetIn(watched)
            },
        }
    }

    /// Whether the companion was let in.
    pub fn auth_status(&self) -> (r: bool)
        ensures
            r == (self@.user is Some),
    {
        self.user.is_some()
    }

    /// Begins to watch a user, whose number has to be one. A watch on a player ends; whether there
    /// was one is returned with the number.
    pub fn voice_state_sender_run(&mut self, id: &str) -> (r: Option<(UserId, bool)>)
        ensures
            voice_watch_begun(old(self)@, final(self)@, id@, r),
    {
        match parse_number(id) {
            None => None,
            Some(n) => {
                let watched = self.watches_player;
                self.watches_player = false;
                Some((UserId(n), watched))
            },
        }
    }

    /// Takes where a user is, after the last look found `last`. Where that changed, the watch on a
    /// player ends, and one on the player in the new channel begins, if there is a new channel.
    pub fn voice_checked(
        &mut self,
        last: Option<(GuildId, ChannelId)>,
        seen: Option<(GuildId, ChannelId)>,
    ) -> (r: VoiceWatchNext)
        ensures
            voice_watched(old(self)@, final(self)@, last, seen, r),
    {
        if same_place(seen, last) {
            return VoiceWatchNext::Wait;
        }
        let watched = self.watches_player;
        self.voice_state = seen;
        match seen {
            None => {
                self.watches_player = false;
                VoiceWatchNext::TellNone(watched)
            },
            Some((guild, channel)) => {
                self.watches_player = true;
                VoiceWatchNext::TellAndWatch(watched, guild, channel)
            },
        }
    }
}

/// Whether two places are the same.
fn same_place(a: Option<(GuildId, ChannelId)>, b: Option<(GuildId, ChannelId)>) -> (r: bool)
    ensures
        r == (a == b),
{
    match (a, b) {
        (Some((g, c)), Some((h, d))) => g == h && c == d,
        (None, None) => true,
        _ => false,
    }
}

/// A voice channel as a companion is told of it.
#[derive(Debug)]
pub struct NetVoiceState {
    pub channel_id: u64,
    pub channel_name: String,
}

/// What a companion is told of its user's voice channel, if anything.
pub open spec fn voice_told(
    voice: Option<(GuildId, ChannelId)>,
    bot_found: bool,
    channel_name: Option<String>,
) -> Option<Option<NetVoiceState>> {
    match (voice, bot_found, channel_name) {
        (None, _, _) => Some(None),
        (Some((_, channel)), true, Some(name)) => Some(
            Some(NetVoiceState { channel_id: channel.0, channel_name: name }),
        ),
        _ => None,
    }
}

/// What a companion is told of where its user is: no channel where the user is in none, and nothing
/// at all where no bot sees the guild or the channel.
pub fn send_voice_state(
    voice: Option<(GuildId, ChannelId)>,
    bot_found: bool,
    channel_name: Option<String>,
) -> (r: Option<Option<NetVoiceState>>)
    ensures
        r == voice_told(voice, bot_found, channel_name),
{
    match voice {
        None => Some(None),
        Some((_, channel)) => {
            if !bot_found {
                return None;
            }
            match channel_name {
                Some(name) => Some(Some(NetVoiceState { channel_id: channel.0, channel_name: name })),
                None => None,
            }
        },
    }
}

/// The value of decimal digits.
pub open spec fn digits_value(s: Seq<char>) -> nat
    decreases s.len(),
{
    if s.len() == 0 {
        0
    } else {
        digits_value(s.drop_last()) * 10 + (s.last() as nat - '0' as nat) as nat
    }
}

/// Whether a text is made of decimal digits, of which there is at least one.
pub open spec fn all_digits(s: Seq<char>) -> bool {
    s.len() > 0 && forall|i: int| 0 <= i < s.len() ==> '0' <= #[trigger] s[i] <= '9'
}

/// A text without the plus sign that it begins with, if it does.
pub open spec fn unsigned(s: Seq<char>) -> Seq<char> {
    if s.len() > 0 && s[0] == '+' {
        s.skip(1)
    } else {
        s
    }
}

/// The number that a text stands for: digits, with one plus sign before them or none, as long as
/// the number fits into 64 bits.
pub open spec fn number_in(s: Seq<char>) -> Option<u64> {
    let digits = unsigned(s);
    if all_digits(digits) && digits_value(digits) <= u64::MAX {
        Some(digits_value(digits) as u64)
    } else {
        None
    }
}

/// The number that a text stands for: see [`number_in`].
fn parse_number(s: &str) -> (r: Option<u64>)
    ensures
        r == number_in(s@),
{
    let n: usize = s.unicode_len();
    let start: usize = if n > 0 && s.get_char(0) == '+' {
        1
    } else {
        0
    };
    let ghost digits = unsigned(s@);
    assert(digits =~= s@.skip(start as int));
    assert(digits.take(0) =~= Seq::empty());
    if start == n {
        return None;
    }
    let mut fits = true;
    let mut value: u64 = 0;
    let mut i: usize = start;
    while i < n
        invariant
            start <= i <= n,
            n == s@.len(),
            digits == unsigned(s@),
            digits == s@.skip(start as int),
            forall|j: int| 0 <= j < i - start ==> '0' <= #[trigger] digits[j] <= '9',
            fits ==> value == digits_value(digits.take(i - start)),
            !fits ==> digits_value(digits.take(i - start)) > u64::MAX,
        decreases n - i,
    {
        let c = s.get_char(i);
        assert(digits[i - start] == c);
        if c < '0' || c > '9' {
            assert(!all_digits(digits));
            return None;
        }
        let d: u64 = c as u64 - 48;
        proof {
            assert(digits.take(i - start + 1).drop_last() =~= digits.take(i - start));
        }
        if fits && value <= (u64::MAX - d) / 10 {
            value = value * 10 + d;
        } else {
            fits = false;
        }
        i += 1;
    }
    assert(digits.take(n - start) =~= digits);
    if fits {
        Some(value)
    } else {
        None
    }
}

/// Each mode has its own word.
pub proof fn law_modes_have_their_words()
    ensures
        mode_of(PlayMode::Normal) == Playback::Normal,
        mode_of(PlayMode::LoopAll) == Playback::AllLoop,
        mode_of(PlayMode::LoopOne) == Playback::OneLoop,
        word_for(Playback::Normal) == PlayMode::Normal,
        word_for(Playback::AllLoop) == PlayMode::LoopAll,
        word_for(Playback::OneLoop) == PlayMode::LoopOne,
{
}

/// A control request is for the voice channel that its user is in, and asks there for what it is
/// called. Without a channel, or without players in the guild, it is passed over.
pub proof fn law_controls_ask_for_what_they_say(
    guild: GuildId,
    channel: ChannelId,
    control: PlayerControl,
    voice: Option<(GuildId, ChannelId)>,
    has_players: bool,
)
    ensures
        voice is None || !has_players ==> control_next(voice, has_players, control)
            == ControlNext::Ignore,
        control_next(Some((guild, channel)), true, control) == match control {
            PlayerControl::Resume() => ControlNext::Request(PlayerRequest::PauseResume(channel)),
            PlayerControl::Pause() => ControlNext::Request(PlayerRequest::PauseResume(channel)),
            PlayerControl::Skip(n) => ControlNext::Skip(n, channel),
            PlayerControl::BackSkip(n) => ControlNext::BackSkip(n, channel),
            PlayerControl::SetTime(position) => ControlNext::Jump(position, channel),
            PlayerControl::PlayMode(PlayMode::Normal) => ControlNext::Request(
                PlayerRequest::Playback(Playback::Normal, channel),
            ),
            PlayerControl::PlayMode(PlayMode::LoopAll) => ControlNext::Request(
                PlayerRequest::Playback(Playback::AllLoop, channel),
            ),
            PlayerControl::PlayMode(PlayMode::LoopOne) => ControlNext::Request(
                PlayerRequest::Playback(Playback::OneLoop, channel),
            ),
            PlayerControl::Enqueue(url) => ControlNext::Search(url, channel),
            PlayerControl::Leave() => ControlNext::Leave(channel),
            PlayerControl::Join() => ControlNext::Join(channel),
        },
{
}

/// A companion sees of a track its length, its position, its title and where it comes from, and
/// nothing of a track of which nothing is known.
pub proof fn law_known_tracks_are_seen(track: Track)
    ensures
        track.info matches Some(info) ==> (seen_track(track) matches Some(seen) && seen.len
            == info.length && seen.pos == info.position && seen.title == info.title@ && seen.uri
            == info.uri@),
        track.info is None ==> seen_track(track) is None,
{
}

/// A companion sees the tracks one after another: of two lists what it sees of the first and then
/// what it sees of the second, and of a single one what it sees of it, if anything.
pub proof fn law_tracks_are_seen_in_order(a: Seq<Track>, b: Seq<Track>, track: Track)
    ensures
        seen_tracks(a + b) == seen_tracks(a) + seen_tracks(b),
        seen_tracks(seq![track]) == match seen_track(track) {
            Some(seen) => seq![seen],
            None => Seq::empty(),
        },
        seen_tracks(Seq::empty()).len() == 0,
    decreases b.len(),
{
    let one = seq![track];
    reveal_with_fuel(seen_tracks, 2);
    assert(one.drop_last() =~= Seq::<Track>::empty());
    assert(seen_tracks(one) =~= match seen_track(track) {
        Some(seen) => seq![seen],
        None => Seq::empty(),
    });
    if b.len() == 0 {
        assert(a + b =~= a);
        assert(seen_tracks(a) + seen_tracks(b) =~= seen_tracks(a));
    } else {
        assert((a + b).drop_last() =~= a + b.drop_last());
        assert((a + b).last() == b.last());
        law_tracks_are_seen_in_order(a, b.drop_last(), track);
        assert(seen_tracks(a + b) =~= seen_tracks(a) + seen_tracks(b));
    }
}

/// A number written in decimal is read back as itself, with a plus sign before it or without.
pub proof fn law_numbers_read_back(n: u64)
    ensures
        number_in(decimal(n as nat)) == Some(n),
        number_in(seq!['+'] + decimal(n as nat)) == Some(n),
{
    lemma_decimal_value(n as nat);
    let plain = decimal(n as nat);
    law_decimal_goes_digit_by_digit(n as nat, 0);
    assert(plain[0] != '+');
    let signed = seq!['+'] + plain;
    assert(signed.skip(1) =~= plain);
}

proof fn lemma_decimal_value(n: nat)
    ensures
        decimal(n).len() > 0,
        digits_value(decimal(n)) == n,
    decreases n,
{
    reveal_with_fuel(digits_value, 2);
    if n < 10 {
        assert(decimal(n).drop_last() =~= Seq::<char>::empty());
    } else {
        lemma_decimal_value(n / 10);
        assert(decimal(n).drop_last() =~= decimal(n / 10));
    }
}

/// A text in which something other than a digit stands, but for one plus sign at its beginning, is
/// no number, and neither is an empty one or one that is too large.
pub proof fn law_other_texts_are_no_numbers(s: Seq<char>, i: int)
    ensures
        0 < i < s.len() && !('0' <= s[i] <= '9') ==> number_in(s) is None,
        s.len() > 0 && s[0] != '+' && !('0' <= s[0] <= '9') ==> number_in(s) is None,
        s.len() == 0 || s == seq!['+'] ==> number_in(s) is None,
{
    if 0 < i < s.len() && !('0' <= s[i] <= '9') {
        if s[0] == '+' {
            assert(unsigned(s)[i - 1] == s[i]);
        } else {
            assert(unsigned(s)[i] == s[i]);
        }
    }
    if s.len() > 0 && s[0] != '+' && !('0' <= s[0] <= '9') {
        assert(unsigned(s)[0] == s[0]);
    }
}

/// The first track that was found is queued in the channel; where none was found, nothing is, and an
/// error stays one.
pub proof fn law_first_track_found_is_queued(
    bot: UserId,
    tracks: Vec<Track>,
    error: PlayerMapError,
    channel: ChannelId,
)
    ensures
        tracks@.len() > 0 ==> queued_of(Ok((bot, tracks)), channel) == Ok::<
            Option<PlayerRequest>,
            PlayerMapError,
        >(Some(PlayerRequest::Enqueue(tracks@[0], channel))),
        tracks@.len() == 0 ==> queued_of(Ok((bot, tracks)), channel) == Ok::<
            Option<PlayerRequest>,
            PlayerMapError,
        >(None),
        queued_of(Err(error), channel) == Err::<Option<PlayerRequest>, PlayerMapError>(error),
{
}

/// A companion sees whether the player is paused, what it repeats, the track that plays and those
/// that were played and are queued, under the bot's name and its own picture, or the common one where
/// it has none.
pub proof fn law_companions_see_the_player(
    name: Seq<char>,
    avatar: Option<String>,
    default_avatar: Seq<char>,
    state: PlayerView,
)
    ensures
        ({
            let seen = state_seen(name, avatar, default_avatar, state);
            &&& seen.name == name
            &&& avatar matches Some(own) ==> seen.avatar == own@
            &&& avatar is None ==> seen.avatar == default_avatar
            &&& seen.paused <==> state.play_state == PlayState::Pause
            &&& mode_of(seen.mode) == state.playback
            &&& state.current matches Some((_, track)) ==> seen.current == seen_track(track)
            &&& state.current is None ==> seen.current is None
            &&& seen.history == seen_tracks(state.history)
            &&& seen.queue == seen_tracks(state.playlist)
        }),
{
}

/// The first state is sent in whole and remembered; a later one is sent as the difference to it, and
/// only where there is one. Whenever the player is gone, it is looked for again; without players in
/// the guild the watch ends.
pub proof fn law_changes_are_sent(
    sent: Option<NetPlayerView>,
    after: Option<NetPlayerView>,
    reply: WatchReply,
    r: WatchNext,
)
    requires
        watch_goes_on(sent, after, reply, r),
    ensures
        reply matches WatchReply::First(Some(state)) ==> r is SendFull && after == Some(state@),
        !(reply matches WatchReply::First(Some(_))) ==> after == sent && !(r is SendFull),
        reply matches WatchReply::Changed(Some(state)) ==> (sent == Some(state@) ==> r
            is AwaitChange) && (sent != Some(state@) ==> (r matches WatchNext::MakePatch(next)
            && next@ == state@)),
        r is SendPatch <==> reply == WatchReply::Patch(true),
        reply == WatchReply::Patch(false) ==> r is AwaitChange,
        r is Stop <==> reply == WatchReply::Manager(false),
        r is FindPlayer <==> reply == WatchReply::Manager(true) || reply is Slept || reply
            == WatchReply::Bot(None) || reply == WatchReply::First(None) || reply
            == WatchReply::Changed(None),
        reply matches WatchReply::Player(Some(bot)) ==> r == WatchNext::FindBot(bot),
        reply == WatchReply::Player(None) ==> r == WatchNext::Sleep(5),
        reply matches WatchReply::Bot(Some(bot)) ==> r == WatchNext::ReadFirst(bot),
{
}

/// A companion's requests are taken as what they are. A failed or closed connection, and a request to
/// end, stop it; what cannot be read or is unexpected is answered, and all else is passed over.
pub proof fn law_frames_are_taken_as_what_they_are(
    frame: Frame,
    auth: String,
    control: PlayerControl,
)
    ensures
        frame_taken(frame) is Stop <==> frame is Failed || frame is Close || (
        frame matches Frame::Message(Some(request)) && request is End),
        frame_taken(frame) is Continue <==> frame is Other,
        frame_taken(frame) is TellUnreadable <==> frame is Unreadable,
        frame_taken(frame) is TellUnexpected <==> frame == Frame::Message(None),
        frame_taken(Frame::Message(Some(ClientRequest::Authenticate(auth))))
            == ReceiveNext::Authenticate(auth),
        frame_taken(Frame::Message(Some(ClientRequest::AuthStatus())))
            == ReceiveNext::TellAuthStatus,
        frame_taken(Frame::Message(Some(ClientRequest::Control(control))))
            == ReceiveNext::Control(control),
{
}

/// A companion is let in only once its user is known, who is then watched; before that, and where it
/// fails, nothing changes.
pub proof fn law_companions_are_let_in_with_a_user(
    before: ConnectionView,
    after: ConnectionView,
    reply: AuthReply,
    r: AuthNext,
)
    requires
        auth_goes_on(before, after, reply, r),
    ensures
        r is LetIn <==> (reply matches AuthReply::User(user) && user is Some),
        r is FindUser <==> reply == AuthReply::Token(true),
        reply matches AuthReply::User(Some(user)) ==> after.user == Some(user) && after.watches_voice
            && after.watches_player == before.watches_player && r == AuthNext::LetIn(
            before.watches_voice,
        ) && (before.watches_voice ==> after.voice is None) && (!before.watches_voice ==> after.voice
            == before.voice),
        !(r is LetIn) ==> after == before,
{
}

/// The watch on a voice channel is under the number that the user's text stands for, and none begins
/// under a text that stands for no number.
pub proof fn law_voice_watch_is_under_the_users_number(
    before: ConnectionView,
    after: ConnectionView,
    n: u64,
    id: Seq<char>,
    r: Option<(UserId, bool)>,
)
    ensures
        voice_watch_begun(before, after, decimal(n as nat), r) ==> r == Some(
            (UserId(n), before.watches_player),
        ) && !after.watches_player && after.user == before.user && after.voice == before.voice
            && after.watches_voice == before.watches_voice,
        voice_watch_begun(before, after, id, r) && number_in(id) is None ==> r is None && after
            == before,
{
    law_numbers_read_back(n);
}

/// A companion is told exactly where its user's channel changed, and the player there is watched
/// from then on; where the user is in none, no player is.
pub proof fn law_moves_are_told(
    before: ConnectionView,
    after: ConnectionView,
    last: Option<(GuildId, ChannelId)>,
    seen: Option<(GuildId, ChannelId)>,
    r: VoiceWatchNext,
)
    requires
        voice_watched(before, after, last, seen, r),
    ensures
        r is Wait <==> seen == last,
        seen == last ==> after == before,
        seen != last ==> after.voice == seen && (after.watches_player <==> seen is Some)
            && after.user == before.user && after.watches_voice == before.watches_voice,
        seen != last && seen is None ==> r == VoiceWatchNext::TellNone(before.watches_player),
        seen != last ==> (seen matches Some((guild, channel)) ==> r == VoiceWatchNext::TellAndWatch(
            before.watches_player,
            guild,
            channel,
        )),
{
}

/// A companion is told the number and the name of its user's channel, or that there is none; where no
/// bot or no name is found, it is told nothing.
pub proof fn law_channels_are_told_by_name(
    guild: GuildId,
    channel: ChannelId,
    name: String,
    found: bool,
    maybe: Option<String>,
)
    ensures
        voice_told(None, found, maybe) == Some(None::<NetVoiceState>),
        voice_told(Some((guild, channel)), true, Some(name)) == Some(
            Some(NetVoiceState { channel_id: channel.0, channel_name: name }),
        ),
        !found || maybe is None ==> voice_told(Some((guild, channel)), found, maybe) is None,
{
}

} // verus!
