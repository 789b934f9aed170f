//! What Discord tells of messages, reactions and voice connections, as far as the crate reads it.
use crate::ids::{ChannelId, MessageId, UserId};
use crate::text::str_eq;
use vstd::prelude::*;

verus! {

/// A message in a text channel.
#[derive(Debug)]
pub struct Message {
    pub id: MessageId,
    pub channel_id: ChannelId,
    pub author: UserId,
    pub author_name: String,
    pub content: String,
}

impl Clone for Message {
    fn clone(&self) -> (r: Self)
        ensures
            r == *self,
    {
        Message {
            id: self.id,
            channel_id: self.channel_id,
            author: self.author,
            author_name: self.author_name.clone(),
            content: self.content.clone(),
        }
    }
}

/// Where an account is connected to voice, if anywhere.
#[derive(Debug)]
pub struct VoiceState {
    pub user_id: UserId,
    pub channel_id: Option<ChannelId>,
    pub session_id: String,
}

impl Clone for VoiceState {
    fn clone(&self) -> (r: Self)
        ensures
            r == *self,
    {
        VoiceState {
            user_id: self.user_id,
            channel_id: self.channel_id,
            session_id: self.session_id.clone(),
        }
    }
}

/// What a reaction shows.
#[derive(Debug)]
pub enum ReactionType {
    /// An emote of some guild: whether it moves, its number, and its name.
    Custom(bool, u64, Option<String>),
    Unicode(String),
}

impl Clone for ReactionType {
    fn clone(&self) -> (r: Self)
        ensures
            r == *self,
    {
        match self {
            ReactionType::Custom(animated, id, name) => {
                let name = match name {
                    Some(name) => Some(name.clone()),
                    None => None,
                };
                ReactionType::Custom(*animated, *id, name)
            },
            ReactionType::Unicode(s) => ReactionType::Unicode(s.clone()),
        }
    }
}

impl ReactionType {
    /// Whether the reaction shows exactly the given text.
    pub open spec fn shows(self, text: Seq<char>) -> bool {
        self matches ReactionType::Unicode(s) && s@ == text
    }

    /// Whether the reaction shows exactly the given text.
    pub fn unicode_eq(&self, text: &str) -> (r: bool)
        ensures
            r == self.shows(text@),
    {
        match self {
            ReactionType::Unicode(s) => str_eq(s.as_str(), text),
            ReactionType::Custom(_, _, _) => false,
        }
    }
}

/// A reaction to a message. The account is missing where Discord does not name it.
#[derive(Debug)]
pub struct Reaction {
    pub channel_id: ChannelId,
    pub message_id: MessageId,
    pub user_id: Option<UserId>,
    pub emoji: ReactionType,
}

/// A reaction that came or went.
#[derive(Debug)]
pub enum ReactionAction {
    Added(Reaction),
    Removed(Reaction),
}

/// A reaction shows its own text and no other; a custom one shows none.
pub proof fn law_reactions_show_their_text(emoji: ReactionType, text: String, other: Seq<char>)
    ensures
        ReactionType::Unicode(text).shows(text@),
        ReactionType::Unicode(text).shows(other) ==> other == text@,
        emoji is Custom ==> !emoji.shows(other),
{
}

} // verus!
