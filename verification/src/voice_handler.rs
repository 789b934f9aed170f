//! Voice for the whole network of bots: sorting tasks to bots, and what each bot does with them in
//! each guild.
use crate::config::Config;
use crate::ids::{ChannelId, ClientId, GuildId, UserId};
use crate::lavalink_handler::LavalinkEvent;
use crate::player::{
    emptied, flipped, law_back_skip_puts_tracks_first, law_ended_track_goes_to_the_history,
    law_skip_leaves_a_repeated_track, moved_back, moved_on, next_track, reported_nanos, skipped,
    toggle_of, with_mode, LavalinkCommand, LavalinkError, PlayState, Playback, Player, PlayerError,
    PlayerModel, PlayerView,
};
use crate::guild::player_manager::moved_to;
use crate::time::max_nanos;
use vstd::prelude::*;

verus! {

/// How many tasks wait at most.
pub const TASK_QUEUE_LIMIT: usize = 1000;

/// How long to wait before another attempt to reach Lavalink, in seconds.
pub const CONNECTION_ATTEMPT_INTERVAL_SECS: u64 = 5;

/// A task for the voice of some bot.
pub enum VoiceTask {
    /// The guild and the channel in it to join.
    Connect(GuildId, ChannelId),
    /// The guild and the bot, here and below.
    Disconnect(GuildId, UserId),
    Next(GuildId, UserId),
    Previous(GuildId, UserId),
    PausePlay(GuildId, UserId),
    Clear(GuildId, UserId),
    RepeatOne(GuildId, UserId),
    RepeatAll(GuildId, UserId),
    /// What is searched for goes last.
    Search(GuildId, UserId, String),
}

/// What a task is addressed to.
#[derive(Clone, Copy, Debug, PartialEq, Eq, Structural)]
pub enum Target {
    Bot(UserId),
    Channel(ChannelId),
}

impl VoiceTask {
    /// What a task is addressed to: a bot, or a channel that some bot is to join.
    pub open spec fn target(self) -> Target {
        match self {
            VoiceTask::Connect(_, channel) => Target::Channel(channel),
            VoiceTask::Disconnect(_, bot) => Target::Bot(bot),
            VoiceTask::Next(_, bot) => Target::Bot(bot),
            VoiceTask::Previous(_, bot) => Target::Bot(bot),
            VoiceTask::PausePlay(_, bot) => Target::Bot(bot),
            VoiceTask::Clear(_, bot) => Target::Bot(bot),
            VoiceTask::RepeatOne(_, bot) => Target::Bot(bot),
            VoiceTask::RepeatAll(_, bot) => Target::Bot(bot),
            VoiceTask::Search(_, bot, _) => Target::Bot(bot),
        }
    }

    /// The guild of a task.
    pub open spec fn spec_guild(self) -> GuildId {
        match self {
            VoiceTask::Connect(guild, _) => guild,
            VoiceTask::Disconnect(guild, _) => guild,
            VoiceTask::Next(guild, _) => guild,
            VoiceTask::Previous(guild, _) => guild,
            VoiceTask::PausePlay(guild, _) => guild,
            VoiceTask::Clear(guild, _) => guild,
            VoiceTask::RepeatOne(guild, _) => guild,
            VoiceTask::RepeatAll(guild, _) => guild,
            VoiceTask::Search(guild, _, _) => guild,
        }
    }

    /// What the task is addressed to.
    pub fn identifier(&self) -> (r: Target)
        ensures
            r == self.target(),
    {
        match self {
            VoiceTask::Connect(_, channel) => Target::Channel(*channel),
            VoiceTask::Disconnect(_, bot) => Target::Bot(*bot),
            VoiceTask::Next(_, bot) => Target::Bot(*bot),
            VoiceTask::Previous(_, bot) => Target::Bot(*bot),
            VoiceTask::PausePlay(_, bot) => Target::Bot(*bot),
            VoiceTask::Clear(_, bot) => Target::Bot(*bot),
            VoiceTask::RepeatOne(_, bot) => Target::Bot(*bot),
            VoiceTask::RepeatAll(_, bot) => Target::Bot(*bot),
            VoiceTask::Search(_, bot, _) => Target::Bot(*bot),
        }
    }

    /// The guild of the task.
    pub fn guild(&self) -> (r: GuildId)
        ensures
            r == self.spec_guild(),
    {
        match self {
            VoiceTask::Connect(guild, _) => *guild,
            VoiceTask::Disconnect(guild, _) => *guild,
            VoiceTask::Next(guild, _) => *guild,
            VoiceTask::Previous(guild, _) => *guild,
            VoiceTask::PausePlay(guild, _) => *guild,
            VoiceTask::Clear(guild, _) => *guild,
            VoiceTask::RepeatOne(guild, _) => *guild,
            VoiceTask::RepeatAll(guild, _) => *guild,
            VoiceTask::Search(guild, _, _) => *guild,
        }
    }
}

/// Why voice came to an end.
#[derive(Clone, Copy, Debug, PartialEq, Eq, Structural)]
pub enum VoiceHandlerError {
    /// Nothing can come any more.
    ReceiveError(),
    SendError(UserId),
    BotDoesNotExist(UserId),
}

/// Voice for all bots: a postbox for each bot in each guild, and whether the bot is free there.
pub struct VoiceHandler {
    postboxes: Vec<Postbox>,
}

/// The postbox of a bot in a guild. A bot is free in a guild that it can join and has no player in.
#[derive(Clone, Copy, Debug)]
pub struct Postbox {
    pub bot: UserId,
    pub guild: GuildId,
    pub free: bool,
}

impl View for VoiceHandler {
    type V = Seq<Postbox>;

    closed spec fn view(&self) -> Seq<Postbox> {
        self.postboxes@
    }
}

/// The postboxes of one bot in the guilds of a configuration, none of them free.
pub open spec fn boxes_of(bot: UserId, guilds: Seq<GuildId>) -> Seq<Postbox> {
    guilds.map_values(|guild: GuildId| (Postbox { bot, guild, free: false }))
}

/// The postboxes of all bots, bot after bot.
pub open spec fn boxes_of_all(bots: Seq<UserId>, guilds: Seq<GuildId>) -> Seq<Postbox>
    decreases bots.len(),
{
    if bots.len() == 0 {
        Seq::empty()
    } else {
        boxes_of_all(bots.drop_last(), guilds) + boxes_of(bots.last(), guilds)
    }
}

/// Whether a postbox is that of a bot in a guild.
pub open spec fn is_box_of(b: Postbox, bot: UserId, guild: GuildId) -> bool {
    b.bot == bot && b.guild == guild
}

/// Whether a bot has a postbox in a guild.
pub open spec fn has_box(boxes: Seq<Postbox>, bot: UserId, guild: GuildId) -> bool {
    exists|i: int| 0 <= i < boxes.len() && is_box_of(#[trigger] boxes[i], bot, guild)
}

/// The guilds of the first so many entries of a configuration, each once, in the order in which
/// they are first named.
pub open spec fn guilds_among(config: Config, n: nat) -> Seq<GuildId>
    decreases n,
{
    if n == 0 {
        Seq::empty()
    } else {
        let before = guilds_among(config, (n - 1) as nat);
        let guild = GuildId(config.guilds@[n - 1].1.guild_id);
        if before.contains(guild) {
            before
        } else {
            before.push(guild)
        }
    }
}

/// The guilds of a configuration, each once, in the order in which they are first named.
pub open spec fn guilds_of(config: Config) -> Seq<GuildId> {
    guilds_among(config, config.guilds@.len())
}

/// The guilds of a configuration, each once.
fn list_guilds(config: &Config) -> (r: Vec<GuildId>)
    ensures
        r@ == guilds_of(*config),
{
    let mut r: Vec<GuildId> = Vec::new();
    let mut i: usize = 0;
    while i < config.guilds.len()
        invariant
            i <= config.guilds@.len(),
            r@ == guilds_among(*config, i as nat),
        decreases config.guilds.len() - i,
    {
        let guild = GuildId(config.guilds[i].1.guild_id);
        let mut known = false;
        let mut j: usize = 0;
        while j < r.len()
            invariant
                j <= r@.len(),
                known == exists|k: int| 0 <= k < j && #[trigger] r@[k] == guild,
            decreases r.len() - j,
        {
            if r[j] == guild {
                known = true;
            }
            j += 1;
        }
        if !known {
            r.push(guild);
        }
        i += 1;
    }
    r
}

/// What happened where tasks are sorted.
pub enum SortReply {
    /// A task came, or none can come any more.
    Received(Option<VoiceTask>),
    /// The postbox of a bot took the task, or not.
    Posted(UserId, bool),
}

/// What follows.
pub enum SortNext {
    Receive,
    /// The task goes into the postbox at a place.
    Post(usize, VoiceTask),
    End(VoiceHandlerError),
}

impl VoiceHandler {
    /// A postbox for each bot in each guild of the configuration, bot after bot.
    pub fn new(bots: &Vec<UserId>, config: &Config) -> (r: VoiceHandler)
        ensures
            r@ == boxes_of_all(bots@, guilds_of(*config)),
    {
        let mut postboxes: Vec<Postbox> = Vec::new();
        let guilds = list_guilds(config);
        let mut i: usize = 0;
        assert(bots@.take(0) =~= Seq::empty());
        while i < bots.len()
            invariant
                guilds@ == guilds_of(*config),
                i <= bots@.len(),
                postboxes@ == boxes_of_all(bots@.take(i as int), guilds@),
            decreases bots.len() - i,
        {
            let bot = bots[i];
            let ghost before = postboxes@;
            let mut g: usize = 0;
            assert(before =~= before + boxes_of(bot, guilds@).take(0));
            while g < guilds.len()
                invariant
                    guilds@ == guilds_of(*config),
                    g <= guilds@.len(),
                    postboxes@ == before + boxes_of(bot, guilds@).take(g as int),
                decreases guilds.len() - g,
            {
                postboxes.push(Postbox { bot, guild: guilds[g], free: false });
                g += 1;
                assert(postboxes@ =~= before + boxes_of(bot, guilds@).take(g as int));
            }
            assert(boxes_of(bot, guilds@).take(g as int) =~= boxes_of(bot, guilds@));
            assert(bots@.take(i + 1).drop_last() =~= bots@.take(i as int));
            i += 1;
        }
        assert(bots@.take(i as int) =~= bots@);
        VoiceHandler { postboxes }
    }

    /// The postboxes, by place.
    pub fn postboxes(&self) -> (r: Vec<Postbox>)
        ensures
            r@ == self@,
    {
        let mut r: Vec<Postbox> = Vec::new();
        let mut i: usize = 0;
        while i < self.postboxes.len()
            invariant
                i <= self.postboxes@.len(),
                r@ == self.postboxes@.take(i as int),
            decreases self.postboxes.len() - i,
        {
            r.push(self.postboxes[i]);
            i += 1;
            assert(r@ =~= self.postboxes@.take(i as int));
        }
        assert(r@ =~= self.postboxes@);
        r
    }

    /// Takes whether the bot of a postbox is free in its guild.
    pub fn set_free(&mut self, i: usize, free: bool)
        requires
            i < old(self)@.len(),
        ensures
            final(self)@ == with_free(old(self)@, i as int, free),
    {
        let b = self.postboxes[i];
        self.postboxes[i] = Postbox { bot: b.bot, guild: b.guild, free };
    }

    /// The first postbox of a bot in a guild.
    fn find_box(&self, bot: UserId, guild: GuildId) -> (r: Option<usize>)
        ensures
            match r {
                Some(i) => i < self@.len() && is_box_of(self@[i as int], bot, guild) && forall|
                    j: int,
                |
                    0 <= j < i ==> !is_box_of(#[trigger] self@[j], bot, guild),
                None => !has_box(self@, bot, guild),
            },
    {
        let mut i: usize = 0;
        while i < self.postboxes.len()
            invariant
                i <= self.postboxes@.len(),
                forall|j: int| 0 <= j < i ==> !is_box_of(#[trigger] self@[j], bot, guild),
            decreases self.postboxes.len() - i,
        {
            if self.postboxes[i].bot == bot && self.postboxes[i].guild == guild {
                return Some(i);
            }
            i += 1;
        }
        None
    }

    /// The first postbox whose bot is free in a guild.
    fn find_free(&self, guild: GuildId) -> (r: Option<usize>)
        ensures
            match r {
                Some(i) => first_free(self@, i as int, guild),
                None => forall|i: int|
                    0 <= i < self@.len() ==> !free_in(#[trigger] self@[i], guild),
            },
    {
        let mut i: usize = 0;
        while i < self.postboxes.len()
            invariant
                i <= self.postboxes@.len(),
                forall|j: int| 0 <= j < i ==> !free_in(#[trigger] self@[j], guild),
            decreases self.postboxes.len() - i,
        {
            if self.postboxes[i].free && self.postboxes[i].guild == guild {
                return Some(i);
            }
            i += 1;
        }
        None
    }

    /// Sorts the tasks: each goes to the bot that it names, or, to join a channel, to the first bot
    /// that is free in the guild. A task to join without a free bot is passed over. Sorting ends
    /// once no task can come any more, once a task names a bot that has no postbox in the guild, or
    /// once a postbox is closed.
    pub fn sort_task_async(&self, reply: SortReply) -> (r: SortNext)
        ensures
            task_sorted(self@, reply, r),
    {
        match reply {
            SortReply::Received(None) => SortNext::End(VoiceHandlerError::ReceiveError()),
            SortReply::Received(Some(task)) => match task.identifier() {
                Target::Channel(_) => match self.find_free(task.guild()) {
                    Some(i) => SortNext::Post(i, task),
                    None => SortNext::Receive,
                },
                Target::Bot(bot) => match self.find_box(bot, task.guild()) {
                    Some(i) => SortNext::Post(i, task),
                    None => SortNext::End(VoiceHandlerError::BotDoesNotExist(bot)),
                },
            },
            SortReply::Posted(bot, posted) => if posted {
                SortNext::Receive
            } else {
                SortNext::End(VoiceHandlerError::SendError(bot))
            },
        }
    }
}

/// Whether the bot of a postbox is free in a guild.
pub open spec fn free_in(b: Postbox, guild: GuildId) -> bool {
    b.free && b.guild == guild
}

/// Whether a postbox is the first whose bot is free in a guild.
pub open spec fn first_free(boxes: Seq<Postbox>, i: int, guild: GuildId) -> bool {
    0 <= i < boxes.len() && free_in(boxes[i], guild) && forall|j: int|
        0 <= j < i ==> !free_in(#[trigger] boxes[j], guild)
}

/// Every bot has a postbox in every guild of the configuration, and nobody else has one.
pub proof fn law_every_bot_has_a_postbox(
    bots: Seq<UserId>,
    guilds: Seq<GuildId>,
    bot: UserId,
    guild: GuildId,
)
    ensures
        has_box(boxes_of_all(bots, guilds), bot, guild) <==> bots.contains(bot) && guilds.contains(
            guild,
        ),
    decreases bots.len(),
{
    if bots.len() > 0 {
        let rest = bots.drop_last();
        let last = bots.last();
        let before = boxes_of_all(rest, guilds);
        let all = boxes_of_all(bots, guilds);
        law_every_bot_has_a_postbox(rest, guilds, bot, guild);
        if has_box(all, bot, guild) {
            let i = choose|i: int|
                0 <= i < all.len() && is_box_of(#[trigger] all[i], bot, guild);
            if i < before.len() {
                assert(is_box_of(before[i], bot, guild));
                let k = rest.index_of(bot);
                assert(bots[k] == bot);
            } else {
                assert(all[i] == boxes_of(last, guilds)[i - before.len()]);
                assert(guilds[i - before.len()] == guild);
                assert(bots[bots.len() - 1] == bot);
            }
        }
        if bots.contains(bot) && guilds.contains(guild) {
            if bot == last {
                let g = guilds.index_of(guild);
                assert(all[before.len() + g] == boxes_of(last, guilds)[g]);
                assert(is_box_of(all[before.len() + g], bot, guild));
            } else {
                let k = bots.index_of(bot);
                assert(rest[k] == bot);
                let i = choose|i: int|
                    0 <= i < before.len() && is_box_of(#[trigger] before[i], bot, guild);
                assert(all[i] == before[i]);
            }
        }
    }
}

/// The guilds of a configuration are those that some entry names, each once.
pub proof fn law_guilds_are_listed_once(config: Config, guild: GuildId)
    ensures
        guilds_of(config).no_duplicates(),
        guilds_of(config).contains(guild) <==> exists|i: int| #[trigger]
            config.is_guild_at(i, guild),
{
    lemma_guilds_among(config, config.guilds@.len(), guild);
    if guilds_of(config).contains(guild) {
        let i = choose|i: int|
            #![trigger config.is_guild_at(i, guild)]
            i < config.guilds@.len() && config.is_guild_at(i, guild);
        assert(config.is_guild_at(i, guild));
    }
}

/// The guilds of the first so many entries are those that these name, each once.
proof fn lemma_guilds_among(config: Config, n: nat, guild: GuildId)
    requires
        n <= config.guilds@.len(),
    ensures
        guilds_among(config, n).no_duplicates(),
        guilds_among(config, n).contains(guild) <==> exists|i: int|
            #![trigger config.is_guild_at(i, guild)]
            i < n && config.is_guild_at(i, guild),
    decreases n,
{
    if n > 0 {
        let m = (n - 1) as nat;
        let before = guilds_among(config, m);
        let last = GuildId(config.guilds@[m as int].1.guild_id);
        lemma_guilds_among(config, m, guild);
        if last == guild {
            assert(config.is_guild_at(m as int, guild));
            if !before.contains(last) {
                assert(before.push(last)[before.len() as int] == guild);
            }
        } else if before.contains(guild) && !before.contains(last) {
            let k = before.index_of(guild);
            assert(before.push(last)[k] == guild);
        } else if !before.contains(last) && before.push(last).contains(guild) {
            let k = before.push(last).index_of(guild);
            assert(before[k] == guild);
        }
    }
}

/// No bot has two postboxes in a guild.
pub proof fn law_one_postbox_each(bots: Seq<UserId>, guilds: Seq<GuildId>, i: int, j: int)
    requires
        bots.no_duplicates(),
        guilds.no_duplicates(),
        0 <= i < j < boxes_of_all(bots, guilds).len(),
    ensures
        ({
            let boxes = boxes_of_all(bots, guilds);
            !is_box_of(boxes[i], boxes[j].bot, boxes[j].guild)
        }),
    decreases bots.len(),
{
    let rest = bots.drop_last();
    let before = boxes_of_all(rest, guilds);
    let all = boxes_of_all(bots, guilds);
    assert(rest.no_duplicates());
    if j < before.len() {
        law_one_postbox_each(rest, guilds, i, j);
    } else {
        assert(all[j] == boxes_of(bots.last(), guilds)[j - before.len()]);
        if i < before.len() {
            law_every_bot_has_a_postbox(rest, guilds, all[i].bot, all[i].guild);
            assert(is_box_of(before[i], all[i].bot, all[i].guild));
            let k = rest.index_of(all[i].bot);
            assert(bots[k] == all[i].bot);
        } else {
            assert(all[i] == boxes_of(bots.last(), guilds)[i - before.len()]);
        }
    }
}

/// How the voice of a bot in a guild came to an end.
pub enum GuildEnd {
    /// Lavalink failed, through the client that the voice ran with.
    DeadLavalink(GuildId, ClientId),
    /// Something that cannot be mended.
    Broken(VoiceHandlerError),
}

/// What follows.
#[derive(Clone, Copy, Debug, PartialEq, Eq, Structural)]
pub enum BotNext {
    /// A new client is built, and the voice in the guild is then begun again with it.
    Rebuild(GuildId),
    /// The voice in the guild is begun again with the client.
    Restart(GuildId, ClientId),
    End(VoiceHandlerError),
}

/// The voice of one bot in all guilds, with its latest client.
pub struct BotVoice {
    lavalink: ClientId,
}

impl BotVoice {
    /// The bot's latest client.
    pub closed spec fn spec_lavalink(self) -> ClientId {
        self.lavalink
    }

    /// The voice of a bot, with the client that was built for it.
    pub fn new(lavalink: ClientId) -> (r: BotVoice)
        ensures
            r.spec_lavalink() == lavalink,
    {
        BotVoice { lavalink }
    }

    /// Whether a bot is free in a guild at first: where it sees the guild. Else it stays as it was.
    pub fn can_join(was_free: bool, sees_guild: bool) -> (r: bool)
        ensures
            r == free_at_first(was_free, sees_guild),
    {
        if sees_guild {
            true
        } else {
            was_free
        }
    }

    /// What follows when the voice in a guild came to an end. Where its client died, it is begun
    /// again: with a new client where the dead one is the latest, with the latest where somebody
    /// replaced the dead one already.
    pub fn bot_run_async(&self, end: GuildEnd) -> (r: BotNext)
        ensures
            r == bot_next(self.spec_lavalink(), end),
    {
        match end {
            GuildEnd::DeadLavalink(guild, dead) => if dead == self.lavalink {
                BotNext::Rebuild(guild)
            } else {
                BotNext::Restart(guild, self.lavalink)
            },
            GuildEnd::Broken(e) => BotNext::End(e),
        }
    }

    /// Takes the client that was built anew.
    pub fn rebuilt(&mut self, guild: GuildId, lavalink: ClientId) -> (r: BotNext)
        ensures
            final(self).spec_lavalink() == lavalink,
            r == BotNext::Restart(guild, lavalink),
    {
        self.lavalink = lavalink;
        BotNext::Restart(guild, lavalink)
    }
}

/// What follows when the voice in a guild came to an end, given the bot's latest client.
pub open spec fn bot_next(latest: ClientId, end: GuildEnd) -> BotNext {
    match end {
        GuildEnd::DeadLavalink(guild, dead) => if dead == latest {
            BotNext::Rebuild(guild)
        } else {
            BotNext::Restart(guild, latest)
        },
        GuildEnd::Broken(e) => BotNext::End(e),
    }
}

/// A client that died is replaced once: when the voice in another guild reports the same death after
/// that, it is begun again with the new client.
pub proof fn law_one_death_one_rebuild(
    dead: ClientId,
    built: ClientId,
    first: GuildId,
    second: GuildId,
)
    requires
        built != dead,
    ensures
        bot_next(dead, GuildEnd::DeadLavalink(first, dead)) == BotNext::Rebuild(first),
        bot_next(built, GuildEnd::DeadLavalink(second, dead)) == BotNext::Restart(second, built),
{
}

/// How long to wait before another attempt to build a client: not at all once one was built.
pub fn build_lavalink_client(built: Option<ClientId>) -> (r: Result<ClientId, u64>)
    ensures
        r == client_or_wait(built),
{
    match built {
        Some(client) => Ok(client),
        None => Err(CONNECTION_ATTEMPT_INTERVAL_SECS),
    }
}

/// What happened to the voice of a bot in a guild.
pub enum GuildReply {
    /// A task came, or none can come any more.
    Task(Option<VoiceTask>),
    /// A report of Lavalink came, at so many seconds after the Unix epoch, or none can come any
    /// more.
    Event(Option<(LavalinkEvent, u64)>),
    /// A player was connected for the guild, or not.
    Connected(GuildId, Result<Player, PlayerError>),
    /// The player was disconnected from the guild, or not.
    Disconnected(GuildId, Result<(), PlayerError>),
    /// Lavalink paused or resumed the player in the guild, or not.
    Toggled(GuildId, Result<(), LavalinkError>),
    /// Lavalink was asked for something whose outcome does not matter.
    Asked,
}

/// What follows.
pub enum GuildNext {
    /// The next task or report is awaited.
    Await,
    /// A player is connected to a channel of the guild.
    Connect(GuildId, ChannelId),
    /// The player is given up and disconnected from the guild.
    Disconnect(GuildId, Player),
    /// Lavalink is asked for something.
    Ask(LavalinkCommand),
    /// Lavalink is asked to pause or resume the player in the guild.
    Toggle(GuildId, LavalinkCommand),
    /// Lavalink is searched.
    Search(String),
    End(GuildEnd),
}

/// The voice of a bot in a guild: the client it runs with, its player, and whether it is free.
pub struct GuildVoice {
    lavalink: ClientId,
    player: Option<Player>,
    free: bool,
}

/// The contents of a [`GuildVoice`].
#[verifier::ext_equal]
pub struct VoiceView {
    pub lavalink: ClientId,
    pub player: Option<PlayerModel>,
    pub free: bool,
}

impl View for GuildVoice {
    type V = VoiceView;

    closed spec fn view(&self) -> VoiceView {
        VoiceView {
            lavalink: self.lavalink,
            player: match self.player {
                Some(player) => Some(player@),
                None => None,
            },
            free: self.free,
        }
    }
}

impl VoiceView {
    /// After the player came to a state, if there is a player.
    pub open spec fn with_player_state(self, state: PlayerView) -> VoiceView {
        VoiceView {
            player: match self.player {
                Some(player) => Some(PlayerModel { state, ..player }),
                None => None,
            },
            ..self
        }
    }

    /// The player's state once it took a task, before Lavalink was asked for anything.
    pub open spec fn effect(self, task: VoiceTask) -> VoiceView {
        match self.player {
            None => self,
            Some(player) => match task {
                VoiceTask::Next(_, _) => self.with_player_state(skipped(player.state)),
                VoiceTask::Previous(_, _) => self.with_player_state(moved_back(player.state)),
                VoiceTask::Clear(_, _) => self.with_player_state(emptied(player.state)),
                VoiceTask::RepeatOne(_, _) => self.with_player_state(
                    with_mode(player.state, Playback::OneLoop),
                ),
                VoiceTask::RepeatAll(_, _) => self.with_player_state(
                    with_mode(player.state, Playback::AllLoop),
                ),
                _ => self,
            },
        }
    }
}

/// Whether a voice took a task as it should.
pub open spec fn task_taken(
    before: VoiceView,
    after: VoiceView,
    task: VoiceTask,
    next: GuildNext,
) -> bool {
    match task {
        VoiceTask::Connect(guild, channel) => {
            &&& after == before
            &&& next == if before.player is None {
                GuildNext::Connect(guild, channel)
            } else {
                GuildNext::Await
            }
        },
        VoiceTask::Disconnect(guild, _) => match before.player {
            Some(player) => {
                &&& after == (VoiceView { player: None, ..before })
                &&& next matches GuildNext::Disconnect(g, p) && g == guild && p@ == player
            },
            None => after == (VoiceView { free: true, ..before }) && next is Await,
        },
        _ => {
            &&& after == before.effect(task)
            &&& next == match (task, before.player) {
                (_, None) => GuildNext::Await,
                (VoiceTask::Next(_, _), _) => GuildNext::Ask(LavalinkCommand::Stop),
                (VoiceTask::Previous(_, _), _) => GuildNext::Ask(LavalinkCommand::Stop),
                (VoiceTask::PausePlay(guild, _), Some(player)) => GuildNext::Toggle(
                    guild,
                    toggle_of(player.state),
                ),
                (VoiceTask::Search(_, _, query), _) => GuildNext::Search(query),
                _ => GuildNext::Await,
            }
        },
    }
}

/// Whether a voice took a report as it should.
pub open spec fn event_taken(
    before: VoiceView,
    after: VoiceView,
    event: LavalinkEvent,
    now: u64,
    next: GuildNext,
) -> bool {
    match before.player {
        None => after == before && next is Await,
        Some(player) => match event {
            LavalinkEvent::Update(update) => {
                &&& next is Await
                &&& exists|moved: PlayerView| #[trigger]
                    moved_to(player.state, moved, update, now) && after
                        == before.with_player_state(moved)
            },
            LavalinkEvent::Start(_) => after == before && next is Await,
            LavalinkEvent::Finish(_) => {
                &&& after == before.with_player_state(moved_on(player.state))
                &&& next == GuildNext::Ask(
                    match next_track(player.state) {
                        Some(track) => LavalinkCommand::Play(track),
                        None => LavalinkCommand::Stop,
                    },
                )
            },
        },
    }
}

/// What an error leads to: where it is Lavalink's, the voice ends for its client; else it goes on.
pub open spec fn after_failure(guild: GuildId, lavalink: ClientId, error: PlayerError) -> GuildNext {
    if error is Lavalink {
        GuildNext::End(GuildEnd::DeadLavalink(guild, lavalink))
    } else {
        GuildNext::Await
    }
}

/// Whether a voice took what happened as it should. Tasks and reports go to the player, if there is
/// one; a player that was connected is kept, and one that was disconnected is gone; errors of
/// Lavalink end the voice.
pub open spec fn voice_stepped(
    before: VoiceView,
    after: VoiceView,
    reply: GuildReply,
    next: GuildNext,
) -> bool {
    match reply {
        GuildReply::Task(None) => {
            &&& next == GuildNext::End(GuildEnd::Broken(VoiceHandlerError::ReceiveError()))
            &&& after == before
        },
        GuildReply::Task(Some(task)) => task_taken(before, after, task, next),
        GuildReply::Event(None) => {
            &&& next == GuildNext::End(GuildEnd::Broken(VoiceHandlerError::ReceiveError()))
            &&& after == before
        },
        GuildReply::Event(Some((event, now))) => event_taken(
            before,
            after,
            event,
            now,
            next,
        ),
        GuildReply::Connected(_, Ok(player)) => {
            &&& next is Await
            &&& after == (VoiceView {
                player: Some(player@),
                free: false,
                ..before
            })
        },
        GuildReply::Connected(guild, Err(e)) => {
            &&& next == after_failure(guild, before.lavalink, e)
            &&& after == before
        },
        GuildReply::Disconnected(guild, result) => {
            if result is Err && result->Err_0 is Lavalink {
                &&& next == after_failure(guild, before.lavalink, result->Err_0)
                &&& after == before
            } else {
                &&& next is Await
                &&& after == (VoiceView { player: None, free: true, ..before })
            }
        },
        GuildReply::Toggled(guild, Ok(_)) => {
            &&& next is Await
            &&& after == match before.player {
                Some(player) => before.with_player_state(flipped(player.state)),
                None => before,
            }
        },
        GuildReply::Toggled(guild, Err(_)) => {
            &&& next == GuildNext::End(
                GuildEnd::DeadLavalink(guild, before.lavalink),
            )
            &&& after == before
        },
        GuildReply::Asked => next is Await && after == before,
    }
}

impl GuildVoice {
    /// A voice without a player that runs with a client.
    pub fn new(lavalink: ClientId, free: bool) -> (r: GuildVoice)
        ensures
            r@ == (VoiceView { lavalink, player: None, free }),
    {
        GuildVoice { lavalink, player: None, free }
    }

    /// Whether the bot is free in the guild.
    pub fn is_free(&self) -> (r: bool)
        ensures
            r == self@.free,
    {
        self.free
    }

    /// What an error leads to.
    fn fail(&self, guild: GuildId, error: &PlayerError) -> (r: GuildNext)
        ensures
            r == after_failure(guild, self@.lavalink, *error),
    {
        if error.is_lavalink_error() {
            GuildNext::End(GuildEnd::DeadLavalink(guild, self.lavalink))
        } else {
            GuildNext::Await
        }
    }

    /// Takes a task.
    fn take_task(&mut self, task: VoiceTask) -> (r: GuildNext)
        ensures
            task_taken(old(self)@, final(self)@, task, r),
    {
        match task {
            VoiceTask::Connect(guild, channel) => {
                if self.player.is_none() {
                    GuildNext::Connect(guild, channel)
                } else {
                    GuildNext::Await
                }
            },
            VoiceTask::Disconnect(guild, _) => match self.player.take() {
                Some(player) => GuildNext::Disconnect(guild, player),
                None => {
                    self.free = true;
                    GuildNext::Await
                },
            },
            VoiceTask::Search(_, _, query) => if self.player.is_some() {
                GuildNext::Search(query)
            } else {
                GuildNext::Await
            },
            _ => match self.player.take() {
                None => GuildNext::Await,
                Some(mut player) => {
                    let next = match task {
                        VoiceTask::Next(_, _) => GuildNext::Ask(player.skip().1),
                        VoiceTask::Previous(_, _) => GuildNext::Ask(player.back_skip().1),
                        VoiceTask::PausePlay(guild, _) => GuildNext::Toggle(
                            guild,
                            player.toggle_command(),
                        ),
                        VoiceTask::Clear(_, _) => {
                            let _ = player.clear_queue();
                            GuildNext::Await
                        },
                        VoiceTask::RepeatOne(_, _) => {
                            let _ = player.playback(Playback::OneLoop);
                            GuildNext::Await
                        },
                        VoiceTask::RepeatAll(_, _) => {
                            let _ = player.playback(Playback::AllLoop);
                            GuildNext::Await
                        },
                        _ => GuildNext::Await,
                    };
                    self.player = Some(player);
                    next
                },
            },
        }
    }

    /// Takes a report of Lavalink.
    fn take_event(&mut self, event: LavalinkEvent, now: u64) -> (r: GuildNext)
        requires
            event matches LavalinkEvent::Update(update) ==> update.time as u64 <= now
                && reported_nanos(update, now) <= max_nanos(),
        ensures
            event_taken(old(self)@, final(self)@, event, now, r),
    {
        match self.player.take() {
            None => GuildNext::Await,
            Some(mut player) => {
                let ghost state = player.state();
                match event {
                    LavalinkEvent::Update(update) => {
                        let _ = player.update(update, now);
                        assert(moved_to(state, player.state(), update, now));
                        self.player = Some(player);
                        GuildNext::Await
                    },
                    LavalinkEvent::Start(_) => {
                        player.track_start();
                        self.player = Some(player);
                        GuildNext::Await
                    },
                    LavalinkEvent::Finish(_) => {
                        let (_, command) = player.track_end();
                        self.player = Some(player);
                        GuildNext::Ask(command)
                    },
                }
            },
        }
    }

    /// The voice of a bot in a guild. Tasks and reports go to the player, if there is one. To join,
    /// a player is connected, and the bot is no longer free; to leave, it is disconnected, and the
    /// bot is free again. The voice ends once nothing can come any more, or once Lavalink fails to
    /// connect, disconnect, pause or resume the player.
    pub fn bot_guild_run_async(&mut self, reply: GuildReply) -> (r: GuildNext)
        requires
            reply matches GuildReply::Event(Some((LavalinkEvent::Update(update), now)))
                ==> update.time as u64 <= now && reported_nanos(update, now) <= max_nanos(),
        ensures
            voice_stepped(old(self)@, final(self)@, reply, r),
    {
        match reply {
            GuildReply::Task(None) => GuildNext::End(
                GuildEnd::Broken(VoiceHandlerError::ReceiveError()),
            ),
            GuildReply::Task(Some(task)) => self.take_task(task),
            GuildReply::Event(None) => GuildNext::End(
                GuildEnd::Broken(VoiceHandlerError::ReceiveError()),
            ),
            GuildReply::Event(Some((event, now))) => self.take_event(event, now),
            GuildReply::Connected(guild, connected) => match connected {
                Ok(player) => {
                    self.player = Some(player);
                    self.free = false;
                    GuildNext::Await
                },
                Err(e) => self.fail(guild, &e),
            },
            GuildReply::Disconnected(guild, result) => {
                if let Err(e) = &result {
                    if e.is_lavalink_error() {
                        return self.fail(guild, e);
                    }
                }
                self.player = None;
                self.free = true;
                GuildNext::Await
            },
            GuildReply::Toggled(guild, result) => match result {
                Ok(_) => {
                    match self.player.take() {
                        Some(mut player) => {
                            let _ = player.dynamic_pause_resume(Ok(()));
                            self.player = Some(player);
                        },
                        None => {},
                    }
                    GuildNext::Await
                },
                Err(e) => self.fail(guild, &PlayerError::Lavalink(e)),
            },
            GuildReply::Asked => GuildNext::Await,
        }
    }
}

/// A bot that is free has no player, and nothing that happens changes that.
pub proof fn law_free_means_no_player(
    before: VoiceView,
    after: VoiceView,
    reply: GuildReply,
    next: GuildNext,
)
    requires
        before.free ==> before.player is None,
        voice_stepped(before, after, reply, next),
    ensures
        after.free ==> after.player is None,
{
}

/// The two tasks that repeat lead to two modes: one turns the mode of all tracks on, the other that
/// of one track, and each turns its own off again. Nothing else of the player changes.
pub proof fn law_repeating_tasks_set_their_modes(
    before: VoiceView,
    after: VoiceView,
    guild: GuildId,
    bot: UserId,
    next: GuildNext,
    player: PlayerModel,
)
    requires
        before.player == Some(player),
    ensures
        task_taken(before, after, VoiceTask::RepeatAll(guild, bot), next) ==> next is Await && after
            == (VoiceView {
            player: Some(
                PlayerModel {
                    state: PlayerView {
                        playback: if player.state.playback == Playback::AllLoop {
                            Playback::Normal
                        } else {
                            Playback::AllLoop
                        },
                        ..player.state
                    },
                    ..player
                },
            ),
            ..before
        }),
        task_taken(before, after, VoiceTask::RepeatOne(guild, bot), next) ==> next is Await && after
            == (VoiceView {
            player: Some(
                PlayerModel {
                    state: PlayerView {
                        playback: if player.state.playback == Playback::OneLoop {
                            Playback::Normal
                        } else {
                            Playback::OneLoop
                        },
                        ..player.state
                    },
                    ..player
                },
            ),
            ..before
        }),
{
}

/// A skip asks Lavalink to stop, in whichever mode. Where one track repeats, that track has become
/// the first of the history; else the player stays as it is until Lavalink says that the track ended.
pub proof fn law_skipping_stops_the_track(
    before: VoiceView,
    after: VoiceView,
    guild: GuildId,
    bot: UserId,
    next: GuildNext,
    player: PlayerModel,
)
    requires
        before.player == Some(player),
        task_taken(before, after, VoiceTask::Next(guild, bot), next),
    ensures
        next == GuildNext::Ask(LavalinkCommand::Stop),
        player.state.playback != Playback::OneLoop || player.state.current is None ==> after
            == before,
        after.free == before.free && after.lavalink == before.lavalink,
        after.player matches Some(p) && p == (PlayerModel { state: p.state, ..player })
            && p.state.playlist == player.state.playlist && p.state.playback == player.state.playback
            && p.state.play_state == player.state.play_state && (player.state.playback
            == Playback::OneLoop ==> p.state.current is None && (player.state.current matches Some(
            (_, track),
        ) ==> p.state.history.len() > 0 && p.state.history[0] == track)),
{
    law_skip_leaves_a_repeated_track(player.state);
}

/// A backward skip asks Lavalink to stop, with what was played before put back in front of the
/// playlist.
pub proof fn law_skipping_back_stops_the_track(
    before: VoiceView,
    after: VoiceView,
    guild: GuildId,
    bot: UserId,
    next: GuildNext,
    player: PlayerModel,
)
    requires
        before.player == Some(player),
        task_taken(before, after, VoiceTask::Previous(guild, bot), next),
        player.state.playlist.len() <= 100,
    ensures
        next == GuildNext::Ask(LavalinkCommand::Stop),
        after.free == before.free && after.lavalink == before.lavalink,
        after.player matches Some(p) && p == (PlayerModel { state: p.state, ..player })
            && p.state.current is None && p.state.playback == player.state.playback
            && p.state.play_state == player.state.play_state && (player.state.history.len() > 0 ==> {
            let oldest = player.state.history[player.state.history.len() - 1];
            &&& p.state.playlist.len() > 0 && p.state.playlist[0] == oldest
            &&& p.state.history == player.state.history.take(player.state.history.len() - 1)
        }) && (player.state.history.len() == 0 ==> (player.state.current matches Some((_, track))
            ==> p.state.playlist.len() > 0 && p.state.playlist[0] == track)),
{
    law_back_skip_puts_tracks_first(player.state);
}

/// Clearing takes what is queued and nothing else.
pub proof fn law_clearing_takes_the_queue(
    before: VoiceView,
    after: VoiceView,
    guild: GuildId,
    bot: UserId,
    next: GuildNext,
    player: PlayerModel,
)
    requires
        before.player == Some(player),
        task_taken(before, after, VoiceTask::Clear(guild, bot), next),
    ensures
        next is Await,
        after == (VoiceView {
            player: Some(
                PlayerModel {
                    state: PlayerView { playlist: Seq::empty(), ..player.state },
                    ..player
                },
            ),
            ..before
        }),
{
    assert(emptied(player.state).playlist =~= Seq::empty());
}

/// Pausing asks Lavalink for the other state, which the player is in once Lavalink obeyed; where it
/// did not, the client is dead.
pub proof fn law_pausing_asks_for_the_other_state(
    before: VoiceView,
    after: VoiceView,
    guild: GuildId,
    bot: UserId,
    next: GuildNext,
    player: PlayerModel,
    result: Result<(), LavalinkError>,
)
    requires
        before.player == Some(player),
    ensures
        task_taken(before, after, VoiceTask::PausePlay(guild, bot), next) ==> after == before && next
            == GuildNext::Toggle(
            guild,
            if player.state.play_state == PlayState::Play {
                LavalinkCommand::Pause
            } else {
                LavalinkCommand::Resume
            },
        ),
        result is Ok && voice_stepped(before, after, GuildReply::Toggled(guild, result), next)
            ==> next is Await && after == (VoiceView {
            player: Some(
                PlayerModel {
                    state: PlayerView {
                        play_state: if player.state.play_state == PlayState::Play {
                            PlayState::Pause
                        } else {
                            PlayState::Play
                        },
                        ..player.state
                    },
                    ..player
                },
            ),
            ..before
        }),
        result is Err && voice_stepped(before, after, GuildReply::Toggled(guild, result), next)
            ==> after == before && next == GuildNext::End(
            GuildEnd::DeadLavalink(guild, before.lavalink),
        ),
{
}

/// A bot connects only where it has no player, and is then no longer free; it disconnects only where
/// it has one, and is then free. Whoever has no player ignores all other tasks.
pub proof fn law_connecting_takes_the_bot(
    before: VoiceView,
    after: VoiceView,
    guild: GuildId,
    bot: UserId,
    channel: ChannelId,
    task: VoiceTask,
    next: GuildNext,
)
    ensures
        task_taken(before, after, VoiceTask::Connect(guild, channel), next) ==> after == before && (
        before.player is None ==> next == GuildNext::Connect(guild, channel)) && (before.player
            is Some ==> next is Await),
        task_taken(before, after, VoiceTask::Disconnect(guild, bot), next) && before.player is None
            ==> next is Await && after.free && after.player is None && after.lavalink
            == before.lavalink,
        task_taken(before, after, VoiceTask::Disconnect(guild, bot), next) && before.player is Some
            ==> after.player is None && after.free == before.free && after.lavalink
            == before.lavalink && (next matches GuildNext::Disconnect(g, p) && g == guild && Some(p@)
            == before.player),
        before.player is None && !(task is Connect) && !(task is Disconnect) && task_taken(
            before,
            after,
            task,
            next,
        ) ==> after == before && next is Await,
{
}

/// A search is made for what the task asks for, and changes nothing by itself.
pub proof fn law_search_tasks_search(
    before: VoiceView,
    after: VoiceView,
    guild: GuildId,
    bot: UserId,
    query: String,
    next: GuildNext,
)
    requires
        before.player is Some,
        task_taken(before, after, VoiceTask::Search(guild, bot, query), next),
    ensures
        after == before,
        next == GuildNext::Search(query),
{
}

/// At the end of a track Lavalink is asked to play what comes next, or to stop where nothing does:
/// in the mode without repetition, the first of the playlist.
pub proof fn law_ended_tracks_are_followed(
    before: VoiceView,
    after: VoiceView,
    event: LavalinkEvent,
    now: u64,
    next: GuildNext,
    player: PlayerModel,
)
    requires
        before.player == Some(player),
        event_taken(before, after, event, now, next),
    ensures
        event is Finish && player.state.playback == Playback::Normal ==> {
            &&& player.state.playlist.len() > 0 ==> next == GuildNext::Ask(
                LavalinkCommand::Play(player.state.playlist[0]),
            )
            &&& player.state.playlist.len() == 0 ==> next == GuildNext::Ask(LavalinkCommand::Stop)
            &&& after.player matches Some(p) && p == (PlayerModel { state: p.state, ..player }) && (
            player.state.playlist.len() > 0 ==> p.state.playlist == player.state.playlist.skip(1))
                && (player.state.current matches Some((_, track)) ==> p.state.history.len() > 0
                && p.state.history[0] == track)
        },
        event is Finish && player.state.playback == Playback::OneLoop ==> (
        player.state.current matches Some((_, track)) ==> next == GuildNext::Ask(
            LavalinkCommand::Play(track),
        )),
        event is Finish ==> next is Ask,
        event is Start ==> after == before && next is Await,
        event is Update ==> next is Await,
        after.free == before.free && after.lavalink == before.lavalink,
{
    if player.state.playback == Playback::Normal {
        law_ended_track_goes_to_the_history(player.state);
    }
}

/// Without a player no event of Lavalink changes anything.
pub proof fn law_events_need_a_player(
    before: VoiceView,
    after: VoiceView,
    event: LavalinkEvent,
    now: u64,
    next: GuildNext,
)
    requires
        before.player is None,
        event_taken(before, after, event, now, next),
    ensures
        after == before,
        next is Await,
{
}

/// A connection that came about gives the bot its player; one that did not changes nothing, and ends
/// the voice only where Lavalink itself failed.
pub proof fn law_connections_bring_the_player(
    before: VoiceView,
    after: VoiceView,
    guild: GuildId,
    result: Result<Player, PlayerError>,
    next: GuildNext,
)
    requires
        voice_stepped(before, after, GuildReply::Connected(guild, result), next),
    ensures
        result matches Ok(player) ==> next is Await && after == (VoiceView {
            player: Some(player@),
            free: false,
            lavalink: before.lavalink,
        }),
        result matches Err(e) ==> after == before && (e is Lavalink ==> next == GuildNext::End(
            GuildEnd::DeadLavalink(guild, before.lavalink),
        )) && (!(e is Lavalink) ==> next is Await),
{
}

/// A bot that disconnected is free and without a player, whatever Discord said; where Lavalink
/// failed, the voice ends.
pub proof fn law_disconnecting_frees_the_bot(
    before: VoiceView,
    after: VoiceView,
    guild: GuildId,
    result: Result<(), PlayerError>,
    next: GuildNext,
)
    requires
        voice_stepped(before, after, GuildReply::Disconnected(guild, result), next),
    ensures
        (result is Ok || (result matches Err(e) && !(e is Lavalink))) ==> next is Await && after == (
        VoiceView { player: None, free: true, lavalink: before.lavalink }),
        (result matches Err(e) && e is Lavalink) ==> after == before && next == GuildNext::End(
            GuildEnd::DeadLavalink(guild, before.lavalink),
        ),
{
}

/// The voice of a bot ends when nobody can give it tasks or events any more, and only waits once
/// Lavalink answered what it was asked.
pub proof fn law_closed_channels_end_the_voice(
    before: VoiceView,
    after: VoiceView,
    reply: GuildReply,
    next: GuildNext,
)
    requires
        voice_stepped(before, after, reply, next),
    ensures
        reply == GuildReply::Task(None) || reply == GuildReply::Event(None) ==> after == before
            && next == GuildNext::End(GuildEnd::Broken(VoiceHandlerError::ReceiveError())),
        reply is Asked ==> after == before && next is Await,
{
}

/// A voice that broke ends for good, with its error.
pub proof fn law_broken_voices_end(latest: ClientId, error: VoiceHandlerError)
    ensures
        bot_next(latest, GuildEnd::Broken(error)) == BotNext::End(error),
{
}

/// A request to connect is for whoever is free in a channel's guild; every other one is for the bot
/// that it names. All are for the guild that they name.
pub proof fn law_tasks_reach_their_bot(
    guild: GuildId,
    bot: UserId,
    channel: ChannelId,
    query: String,
    task: VoiceTask,
)
    ensures
        VoiceTask::Connect(guild, channel).target() == Target::Channel(channel),
        VoiceTask::Connect(guild, channel).spec_guild() == guild,
        (task == VoiceTask::Disconnect(guild, bot) || task == VoiceTask::Next(guild, bot) || task
            == VoiceTask::Previous(guild, bot) || task == VoiceTask::PausePlay(guild, bot) || task
            == VoiceTask::Clear(guild, bot) || task == VoiceTask::RepeatOne(guild, bot) || task
            == VoiceTask::RepeatAll(guild, bot) || task == VoiceTask::Search(guild, bot, query))
            ==> task.target() == Target::Bot(bot) && task.spec_guild() == guild,
{
}

/// The first free postbox of a guild belongs to the guild and is free, and none before it is; there
/// is only one.
pub proof fn law_first_free_postbox_is_the_first(
    boxes: Seq<Postbox>,
    i: int,
    k: int,
    guild: GuildId,
)
    requires
        first_free(boxes, i, guild),
    ensures
        boxes[i].free,
        boxes[i].guild == guild,
        0 <= k < boxes.len() && boxes[k].free && boxes[k].guild == guild ==> i <= k,
        first_free(boxes, k, guild) ==> k == i,
{
    if 0 <= k < boxes.len() {
        assert(free_in(boxes[k], guild) == (boxes[k].free && boxes[k].guild == guild));
    }
}

/// Whether a step in sorting tasks was taken as it should.
pub open spec fn task_sorted(boxes: Seq<Postbox>, reply: SortReply, r: SortNext) -> bool {
    match reply {
        SortReply::Received(None) => r == SortNext::End(VoiceHandlerError::ReceiveError()),
        SortReply::Received(Some(task)) => match task.target() {
            Target::Channel(_) => match r {
                SortNext::Post(i, same) => same == task && first_free(
                    boxes,
                    i as int,
                    task.spec_guild(),
                ),
                SortNext::Receive => forall|i: int|
                    0 <= i < boxes.len() ==> !free_in(#[trigger] boxes[i], task.spec_guild()),
                SortNext::End(_) => false,
            },
            Target::Bot(bot) => match r {
                SortNext::Post(i, same) => same == task && i < boxes.len() && is_box_of(
                    boxes[i as int],
                    bot,
                    task.spec_guild(),
                ),
                SortNext::End(e) => e == VoiceHandlerError::BotDoesNotExist(bot) && !has_box(
                    boxes,
                    bot,
                    task.spec_guild(),
                ),
                SortNext::Receive => false,
            },
        },
        SortReply::Posted(_, true) => r is Receive,
        SortReply::Posted(bot, false) => r == SortNext::End(VoiceHandlerError::SendError(bot)),
    }
}

/// A request to connect goes, as it is, to the first bot that is free in its guild, and is dropped
/// where none is.
pub proof fn law_free_bots_get_the_connection(
    boxes: Seq<Postbox>,
    guild: GuildId,
    channel: ChannelId,
    k: int,
    r: SortNext,
)
    requires
        task_sorted(boxes, SortReply::Received(Some(VoiceTask::Connect(guild, channel))), r),
    ensures
        0 <= k < boxes.len() && boxes[k].free && boxes[k].guild == guild ==> (r matches SortNext::Post(
            i,
            task,
        ) && task == VoiceTask::Connect(guild, channel) && i <= k && boxes[i as int].free
            && boxes[i as int].guild == guild),
        (forall|j: int|
            0 <= j < boxes.len() ==> !((#[trigger] boxes[j]).free && boxes[j].guild == guild)) ==> r
            is Receive,
{
    if 0 <= k < boxes.len() && boxes[k].free && boxes[k].guild == guild {
        assert(free_in(boxes[k], guild));
        if let SortNext::Post(i, _) = r {
            law_first_free_postbox_is_the_first(boxes, i as int, k, guild);
        }
    }
    if forall|j: int|
        0 <= j < boxes.len() ==> !((#[trigger] boxes[j]).free && boxes[j].guild == guild) {
        if let SortNext::Post(i, _) = r {
            assert(free_in(boxes[i as int], guild));
        }
    }
}

/// A task for a bot goes, as it is, to the postbox of that bot in its guild; where there is none, the
/// sorting ends with that bot.
pub proof fn law_tasks_go_to_the_bots_postbox(
    boxes: Seq<Postbox>,
    task: VoiceTask,
    bot: UserId,
    k: int,
    r: SortNext,
)
    requires
        task.target() == Target::Bot(bot),
        task_sorted(boxes, SortReply::Received(Some(task)), r),
    ensures
        0 <= k < boxes.len() && boxes[k].bot == bot && boxes[k].guild == task.spec_guild() ==> r
            is Post,
        r matches SortNext::Post(i, same) ==> same == task && i < boxes.len() && boxes[i as int].bot
            == bot && boxes[i as int].guild == task.spec_guild(),
        (forall|j: int|
            0 <= j < boxes.len() ==> !((#[trigger] boxes[j]).bot == bot && boxes[j].guild
                == task.spec_guild())) ==> r == SortNext::End(
            VoiceHandlerError::BotDoesNotExist(bot),
        ),
{
    if 0 <= k < boxes.len() && boxes[k].bot == bot && boxes[k].guild == task.spec_guild() {
        assert(is_box_of(boxes[k], bot, task.spec_guild()));
    }
}

/// A task that was posted is followed by the next one; one that could not be posted, or the end of all
/// tasks, ends the sorting.
pub proof fn law_sorting_goes_on(boxes: Seq<Postbox>, bot: UserId, r: SortNext)
    ensures
        task_sorted(boxes, SortReply::Posted(bot, true), r) ==> r is Receive,
        task_sorted(boxes, SortReply::Posted(bot, false), r) ==> r == SortNext::End(
            VoiceHandlerError::SendError(bot),
        ),
        task_sorted(boxes, SortReply::Received(None), r) ==> r == SortNext::End(
            VoiceHandlerError::ReceiveError(),
        ),
{
}

/// Whether a bot is free in a guild at first.
pub open spec fn free_at_first(was_free: bool, sees_guild: bool) -> bool {
    was_free || sees_guild
}

/// The postboxes once the bot of one of them is free, or is not.
pub open spec fn with_free(boxes: Seq<Postbox>, i: int, free: bool) -> Seq<Postbox> {
    boxes.update(i, Postbox { free, ..boxes[i] })
}

/// The client that was built, or how many seconds to wait before another attempt.
pub open spec fn client_or_wait(built: Option<ClientId>) -> Result<ClientId, u64> {
    match built {
        Some(client) => Ok(client),
        None => Err(CONNECTION_ATTEMPT_INTERVAL_SECS),
    }
}

/// At first no bot counts as free anywhere; one that sees a guild is free there from then on.
pub proof fn law_bots_are_free_once_they_see_the_guild(
    bots: Seq<UserId>,
    guilds: Seq<GuildId>,
    i: int,
    was_free: bool,
)
    ensures
        0 <= i < boxes_of_all(bots, guilds).len() ==> !boxes_of_all(bots, guilds)[i].free,
        free_at_first(was_free, true),
        free_at_first(was_free, false) == was_free,
    decreases bots.len(),
{
    if bots.len() > 0 {
        let before = boxes_of_all(bots.drop_last(), guilds);
        law_bots_are_free_once_they_see_the_guild(bots.drop_last(), guilds, i, was_free);
        if before.len() <= i < boxes_of_all(bots, guilds).len() {
            assert(boxes_of_all(bots, guilds)[i] == boxes_of(bots.last(), guilds)[i - before.len()]);
        }
    }
}

/// A bot that becomes free, or no longer is, stays who it is, and all other postboxes stay.
pub proof fn law_freeing_touches_one_postbox(boxes: Seq<Postbox>, i: int, free: bool, k: int)
    requires
        0 <= i < boxes.len(),
    ensures
        with_free(boxes, i, free).len() == boxes.len(),
        with_free(boxes, i, free)[i].free == free,
        with_free(boxes, i, free)[i].bot == boxes[i].bot,
        with_free(boxes, i, free)[i].guild == boxes[i].guild,
        0 <= k < boxes.len() && k != i ==> with_free(boxes, i, free)[k] == boxes[k],
{
}

/// A client that was built is used; without one another attempt is made after five seconds.
pub proof fn law_attempts_are_repeated(client: ClientId)
    ensures
        client_or_wait(Some(client)) == Ok::<ClientId, u64>(client),
        client_or_wait(None) == Err::<ClientId, u64>(5),
{
}

} // verus!
