//! What the bot is configured with.
use crate::ids::{ChannelId, GuildId};
use vstd::prelude::*;

verus! {

/// The guild and the channel in it that the bot serves.
#[derive(Debug, Clone, Copy)]
pub struct GuildConfig {
    pub guild_id: u64,
    pub channel_id: u64,
}

/// Where Lavalink is reached.
#[derive(Debug)]
pub struct LavalinkConfig {
    pub address: String,
    pub password: String,
}

/// Where companions reach the bot: the four parts of an IPv4 address, and the port.
#[derive(Debug, Clone, Copy)]
pub struct NetConfig {
    pub address: [u8; 4],
    pub port: u16,
}

/// The whole configuration. The names that bots and guilds carry in the file go first in a pair.
#[derive(Debug)]
pub struct Config {
    pub bots: Vec<(String, String)>,
    pub guilds: Vec<(String, GuildConfig)>,
    pub lavalink: LavalinkConfig,
    pub net: Option<NetConfig>,
}

/// How a Lavalink client is to be built.
#[derive(Debug)]
pub struct ClientSettings {
    pub host: String,
    pub password: String,
    pub is_ssl: bool,
}

impl LavalinkConfig {
    /// How a client is built from this: with the configured address and password, over TLS.
    pub fn client_settings(&self) -> (r: ClientSettings)
        ensures
            r.host@ == self.address@,
            r.password@ == self.password@,
            r.is_ssl,
    {
        ClientSettings { host: self.address.clone(), password: self.password.clone(), is_ssl: true }
    }
}

/// The text of an error about a configuration file.
pub open spec fn config_error(error: Seq<char>, file: Seq<char>) -> Seq<char> {
    error + ", file: "@ + file
}

impl Config {
    /// What reading a configuration file comes to: the configuration, or why it could not be read
    /// together with the file's name.
    pub fn new(file: String, read: Result<Config, String>) -> (r: Result<Config, String>)
        ensures
            match read {
                Ok(config) => r == Ok::<Config, String>(config),
                Err(error) => r matches Err(text) && text@ == config_error(error@, file@),
            },
    {
        match read {
            Ok(config) => Ok(config),
            Err(error) => {
                let mut text = error.clone();
                text.append(", file: ");
                text.append(file.as_str());
                Err(text)
            },
        }
    }

    /// Whether the guild at a place is the one looked for.
    pub open spec fn is_guild_at(self, i: int, guild: GuildId) -> bool {
        0 <= i < self.guilds@.len() && self.guilds@[i].1.guild_id == guild.0
    }

    /// The channel that a guild is served in: that of the first entry for the guild.
    pub fn channel_of(&self, guild: GuildId) -> (r: Option<ChannelId>)
        ensures
            is_channel_of(*self, guild, r),
    {
        let mut i: usize = 0;
        while i < self.guilds.len()
            invariant
                i <= self.guilds@.len(),
                forall|j: int| 0 <= j < i ==> !self.is_guild_at(j, guild),
            decreases self.guilds.len() - i,
        {
            if self.guilds[i].1.guild_id == guild.0 {
                assert(self.is_guild_at(i as int, guild));
                return Some(ChannelId(self.guilds[i].1.channel_id));
            }
            i += 1;
        }
        None
    }
}

/// Whether a channel is the one that the configuration names for a guild: that of the first entry for
/// it, if there is any.
pub open spec fn is_channel_of(config: Config, guild: GuildId, r: Option<ChannelId>) -> bool {
    match r {
        Some(channel) => exists|i: int|
            #![trigger config.is_guild_at(i, guild)]
            {
                &&& config.is_guild_at(i, guild)
                &&& channel.0 == config.guilds@[i].1.channel_id
                &&& forall|j: int| 0 <= j < i ==> !config.is_guild_at(j, guild)
            },
        None => forall|i: int| !config.is_guild_at(i, guild),
    }
}

/// A guild that the configuration names has the channel of the first entry for it; one that it does
/// not name has none.
pub proof fn law_first_entry_names_the_channel(
    config: Config,
    guild: GuildId,
    r: Option<ChannelId>,
    i: int,
)
    requires
        is_channel_of(config, guild, r),
    ensures
        0 <= i < config.guilds@.len() && config.guilds@[i].1.guild_id == guild.0 && (forall|j: int|
            0 <= j < i ==> (#[trigger] config.guilds@[j]).1.guild_id != guild.0) ==> r == Some(
            ChannelId(config.guilds@[i].1.channel_id),
        ),
        (forall|j: int|
            0 <= j < config.guilds@.len() ==> (#[trigger] config.guilds@[j]).1.guild_id != guild.0)
            ==> r is None,
{
    if 0 <= i < config.guilds@.len() && config.guilds@[i].1.guild_id == guild.0 && (forall|j: int|
        0 <= j < i ==> (#[trigger] config.guilds@[j]).1.guild_id != guild.0) {
        assert(config.is_guild_at(i, guild));
        if let Some(channel) = r {
            let k = choose|k: int|
                #![trigger config.is_guild_at(k, guild)]
                {
                    &&& config.is_guild_at(k, guild)
                    &&& channel.0 == config.guilds@[k].1.channel_id
                    &&& forall|j: int| 0 <= j < k ==> !config.is_guild_at(j, guild)
                };
            if k < i {
                assert(config.guilds@[k].1.guild_id != guild.0);
            }
            assert(k == i);
        }
    }
}

/// An error of reading the configuration is followed by the file that it is about.
pub proof fn law_errors_name_the_file(error: Seq<char>, file: Seq<char>)
    ensures
        config_error(error, file).take(error.len() as int) == error,
        config_error(error, file).skip(error.len() as int + 8) == file,
        config_error(error, file).subrange(error.len() as int, error.len() as int + 8) == ", file: "@,
{
    reveal_strlit(", file: ");
    assert(config_error(error, file).take(error.len() as int) =~= error);
    assert(config_error(error, file).skip(error.len() as int + 8) =~= file);
    assert(config_error(error, file).subrange(error.len() as int, error.len() as int + 8) =~= ", file: "@);
}

} // verus!
