//! Identifiers handed out by Discord and by the voice back end.
use vstd::prelude::*;

verus! {

/// A Discord server.
#[derive(Clone, Copy, Debug, PartialEq, Eq, Structural)]
pub struct GuildId(pub u64);

/// A text or voice channel.
#[derive(Clone, Copy, Debug, PartialEq, Eq, Structural)]
pub struct ChannelId(pub u64);

/// An account, of a person or of a bot.
#[derive(Clone, Copy, Debug, PartialEq, Eq, Structural)]
pub struct UserId(pub u64);

/// A message in a text channel.
#[derive(Clone, Copy, Debug, PartialEq, Eq, Structural)]
pub struct MessageId(pub u64);

/// The identity of one Lavalink client.
///
/// Two clients are the same exactly when their numbers are; whoever creates a client gives it a
/// number that no other living client has.
#[derive(Clone, Copy, Debug, PartialEq, Eq, Structural)]
pub struct ClientId(pub u64);

} // verus!
