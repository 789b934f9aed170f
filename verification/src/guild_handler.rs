//! Running all that belongs to one guild until some part of it ends.
use crate::ids::{ChannelId, GuildId, UserId};
use crate::message_manager::MessageManagerError;
use crate::scheduler::{SchedulerError, TaskScheduler};
use crate::voice_handler::VoiceHandlerError;
use vstd::prelude::*;

verus! {

/// Why a guild came to an end.
#[derive(Debug)]
pub enum GuildHandlerError {
    SchedulerError(SchedulerError),
    MessageManagerError(MessageManagerError),
    VoiceHandlerError(VoiceHandlerError),
}

impl From<SchedulerError> for GuildHandlerError {
    fn from(e: SchedulerError) -> (r: GuildHandlerError) {
        GuildHandlerError::SchedulerError(e)
    }
}

impl vstd::std_specs::convert::FromSpecImpl<SchedulerError> for GuildHandlerError {
    open spec fn obeys_from_spec() -> bool {
        true
    }

    open spec fn from_spec(e: SchedulerError) -> GuildHandlerError {
        GuildHandlerError::SchedulerError(e)
    }
}

impl From<MessageManagerError> for GuildHandlerError {
    fn from(e: MessageManagerError) -> (r: GuildHandlerError) {
        GuildHandlerError::MessageManagerError(e)
    }
}

impl vstd::std_specs::convert::FromSpecImpl<MessageManagerError> for GuildHandlerError {
    open spec fn obeys_from_spec() -> bool {
        true
    }

    open spec fn from_spec(e: MessageManagerError) -> GuildHandlerError {
        GuildHandlerError::MessageManagerError(e)
    }
}

impl From<VoiceHandlerError> for GuildHandlerError {
    fn from(e: VoiceHandlerError) -> (r: GuildHandlerError) {
        GuildHandlerError::VoiceHandlerError(e)
    }
}

impl vstd::std_specs::convert::FromSpecImpl<VoiceHandlerError> for GuildHandlerError {
    open spec fn obeys_from_spec() -> bool {
        true
    }

    open spec fn from_spec(e: VoiceHandlerError) -> GuildHandlerError {
        GuildHandlerError::VoiceHandlerError(e)
    }
}

/// One guild with its scheduler and the bots that serve it.
pub struct ReciprocityGuild {
    pub guild: GuildId,
    pub scheduler: TaskScheduler,
    pub bots: Vec<UserId>,
}

impl ReciprocityGuild {
    /// A guild that is served in a channel by some bots.
    pub fn new(guild: GuildId, channel: ChannelId, bots: Vec<UserId>) -> (r: ReciprocityGuild)
        ensures
            r.guild == guild,
            r.scheduler.guild_id == guild,
            r.scheduler.channel_id == channel,
            r.bots@ == bots@,
    {
        ReciprocityGuild { guild, scheduler: TaskScheduler::new(guild, channel), bots }
    }
}

} // verus!
