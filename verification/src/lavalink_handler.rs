//! What Lavalink reports, and which guild hears of it.
use crate::ids::GuildId;
use vstd::prelude::*;

verus! {

/// A report on where playback stands.
#[derive(Clone, Copy, Debug)]
pub struct PlayerUpdate {
    pub guild_id: GuildId,
    /// Position inside the track, in milliseconds.
    pub position: i64,
    /// When the position was taken, in seconds since the Unix epoch.
    pub time: i64,
}

/// A report that a track began.
#[derive(Debug)]
pub struct TrackStart {
    pub guild_id: GuildId,
    pub track: String,
}

/// A report that a track ended.
#[derive(Debug)]
pub struct TrackFinish {
    pub guild_id: GuildId,
    pub track: String,
    pub reason: String,
}

/// A report from Lavalink.
#[derive(Debug)]
pub enum LavalinkEvent {
    Update(PlayerUpdate),
    Start(TrackStart),
    Finish(TrackFinish),
}

impl LavalinkEvent {
    /// The guild that an event is about.
    pub open spec fn spec_guild(self) -> GuildId {
        match self {
            LavalinkEvent::Update(e) => e.guild_id,
            LavalinkEvent::Start(e) => e.guild_id,
            LavalinkEvent::Finish(e) => e.guild_id,
        }
    }

    /// The guild that the event is about.
    pub fn guild(&self) -> (r: GuildId)
        ensures
            r == self.spec_guild(),
    {
        match self {
            LavalinkEvent::Update(e) => e.guild_id,
            LavalinkEvent::Start(e) => e.guild_id,
            LavalinkEvent::Finish(e) => e.guild_id,
        }
    }
}

/// The guilds that listen to Lavalink.
pub struct LavalinkHandler {
    guilds: Vec<GuildId>,
}

impl View for LavalinkHandler {
    type V = Set<GuildId>;

    closed spec fn view(&self) -> Set<GuildId> {
        self.guilds@.to_set()
    }
}

impl LavalinkHandler {
    /// A handler that no guild listens to.
    pub fn new() -> (r: LavalinkHandler)
        ensures
            r@ == Set::<GuildId>::empty(),
    {
        let r = LavalinkHandler { guilds: Vec::new() };
        assert(r@ =~= Set::<GuildId>::empty());
        r
    }

    /// Whether a guild listens.
    fn listens(&self, guild: GuildId) -> (r: bool)
        ensures
            r == self@.contains(guild),
    {
        let mut i: usize = 0;
        while i < self.guilds.len()
            invariant
                i <= self.guilds@.len(),
                forall|j: int| 0 <= j < i ==> self.guilds@[j] != guild,
            decreases self.guilds.len() - i,
        {
            if self.guilds[i] == guild {
                return true;
            }
            i += 1;
        }
        false
    }

    /// Lets a guild listen; whoever listened for it before is replaced.
    pub fn add_guild(&mut self, guild: GuildId)
        ensures
            final(self)@ == old(self)@.insert(guild),
    {
        if !self.listens(guild) {
            let ghost before = self.guilds@;
            self.guilds.push(guild);
            proof {
                assert(self.guilds@.to_set() =~= before.to_set().insert(guild)) by {
                    assert forall|g: GuildId| self.guilds@.contains(g) <==> before.contains(g) || g
                        == guild by {
                        if before.contains(g) {
                            let k = before.index_of(g);
                            assert(self.guilds@[k] == g);
                        }
                        if g == guild {
                            assert(self.guilds@[before.len() as int] == g);
                        }
                    }
                }
            }
        } else {
            assert(self@ =~= old(self)@.insert(guild));
        }
    }

    /// The guild that is to be told of an event: the one the event is about, if it listens.
    pub fn dispatch(&self, event: &LavalinkEvent) -> (r: Option<GuildId>)
        ensures
            r == listener_of(self@, *event),
    {
        let guild = event.guild();
        if self.listens(guild) {
            Some(guild)
        } else {
            None
        }
    }
}

/// An event is for the guild that it names.
pub proof fn law_events_name_their_guild(event: LavalinkEvent)
    ensures
        event matches LavalinkEvent::Update(e) ==> event.spec_guild() == e.guild_id,
        event matches LavalinkEvent::Start(e) ==> event.spec_guild() == e.guild_id,
        event matches LavalinkEvent::Finish(e) ==> event.spec_guild() == e.guild_id,
{
}

/// The guild that an event is passed on to, if it listens.
pub open spec fn listener_of(guilds: Set<GuildId>, event: LavalinkEvent) -> Option<GuildId> {
    if guilds.contains(event.spec_guild()) {
        Some(event.spec_guild())
    } else {
        None
    }
}

/// An event reaches exactly the guild that it names, once that listens.
pub proof fn law_events_reach_their_guild(
    guilds: Set<GuildId>,
    event: LavalinkEvent,
    guild: GuildId,
)
    ensures
        listener_of(guilds, event) == Some(guild) <==> guilds.contains(guild) && event.spec_guild()
            == guild,
        event.spec_guild() == guild ==> listener_of(guilds.insert(guild), event) == Some(guild),
{
}

} // verus!
