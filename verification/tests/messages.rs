use reciprocity_bot::guild_handler::{GuildHandlerError, ReciprocityGuild};
use reciprocity_bot::ids::{ChannelId, GuildId, MessageId, UserId};
use reciprocity_bot::message_manager::{
    Embed, EmbedField, EmbedFooter, EmbedImage, HashPart, Message, MessageContent, MessageManager,
    MessageManagerError,
};
use reciprocity_bot::scheduler::SchedulerError;
use reciprocity_bot::voice_handler::VoiceHandlerError;
use std::collections::hash_map::DefaultHasher;
use std::hash::{Hash, Hasher};

fn message(content: MessageContent, hash: u64) -> Message {
    Message {
        id: MessageId(1),
        sender: UserId(1),
        channel: ChannelId(1),
        content,
        timeout: None,
        hash,
    }
}

fn shown(parts: &[HashPart]) -> Vec<String> {
    parts.iter().map(|p| format!("{:?}", p)).collect()
}

#[test]
fn plain_messages_hash_their_text() {
    let m = message(MessageContent::Plain("hi".to_string()), 1);
    assert_eq!(shown(&m.hash_parts()), vec!["Text(\"hi\")"]);
}

#[test]
fn embeds_hash_what_they_show() {
    let text = |s: &str| Some(s.to_string());
    let image = || EmbedImage {
        height: 2,
        width: 3,
        proxy_url: "p".to_string(),
        url: "u".to_string(),
    };
    let full = Embed {
        colour: 7,
        description: text("desc"),
        fields: vec![EmbedField { name: "n".to_string(), value: "v".to_string(), inline: true }],
        footer: Some(EmbedFooter {
            icon_url: text("icon"),
            proxy_icon_url: None,
            text: "foot".to_string(),
        }),
        image: Some(image()),
        thumbnail: None,
        title: text("title"),
        url: text("url"),
    };
    let bare = Embed {
        colour: 8,
        description: None,
        fields: vec![],
        footer: None,
        image: None,
        thumbnail: Some(image()),
        title: None,
        url: None,
    };
    let m = message(MessageContent::Embed(vec![full, bare]), 1);
    assert_eq!(
        shown(&m.hash_parts()),
        vec![
            "Colour(7)",
            "Text(\"desc\")",
            "Text(\"v\")",
            "Text(\"n\")",
            "Flag(true)",
            "Text(\"icon\")",
            "Text(\"foot\")",
            "Number(2)",
            "Number(3)",
            "Text(\"p\")",
            "Text(\"u\")",
            "Text(\"title\")",
            "Text(\"url\")",
            "Colour(8)",
            "Number(2)",
            "Number(3)",
            "Text(\"p\")",
            "Text(\"u\")"
        ]
    );
}

#[test]
fn messages_are_told_apart_by_hash() {
    let a = message(MessageContent::Plain("a".to_string()), 1);
    let b = message(MessageContent::Plain("b".to_string()), 1);
    let c = message(MessageContent::Plain("a".to_string()), 2);
    assert!(a == b);
    assert!(a != c);
}

#[test]
fn a_message_manager_starts_empty() {
    let m = MessageManager::new(vec![UserId(1)]);
    assert!(m.player.is_empty());
    assert_eq!(m.bots, vec![UserId(1)]);
}

#[test]
fn guild_errors_come_from_their_parts() {
    let s = GuildHandlerError::from(SchedulerError::Receive(GuildId(3)));
    assert!(matches!(s, GuildHandlerError::SchedulerError(SchedulerError::Receive(GuildId(3)))));
    let v = GuildHandlerError::from(VoiceHandlerError::SendError(UserId(1)));
    assert!(matches!(
        v,
        GuildHandlerError::VoiceHandlerError(VoiceHandlerError::SendError(UserId(1)))
    ));
    let m = GuildHandlerError::from(MessageManagerError::Ended);
    assert!(matches!(m, GuildHandlerError::MessageManagerError(_)));
    let g = ReciprocityGuild::new(GuildId(3), ChannelId(30), vec![UserId(1)]);
    assert_eq!(g.guild, GuildId(3));
    assert_eq!(g.scheduler.channel_id, ChannelId(30));
}

#[test]
fn a_hasher_is_given_the_parts_in_order() {
    let hash_of = |m: &Message| {
        let mut state = DefaultHasher::new();
        m.hash(&mut state);
        state.finish()
    };
    let plain = message(MessageContent::Plain("hi".to_string()), 1);
    let mut state = DefaultHasher::new();
    "hi".to_string().hash(&mut state);
    assert_eq!(hash_of(&plain), state.finish());
    let embed = Embed {
        colour: 7,
        description: None,
        fields: vec![EmbedField { name: "n".to_string(), value: "v".to_string(), inline: true }],
        footer: None,
        image: Some(EmbedImage {
            height: 2,
            width: 3,
            proxy_url: "p".to_string(),
            url: "u".to_string(),
        }),
        thumbnail: None,
        title: None,
        url: None,
    };
    let mut state = DefaultHasher::new();
    7u32.hash(&mut state);
    "v".to_string().hash(&mut state);
    "n".to_string().hash(&mut state);
    true.hash(&mut state);
    2u64.hash(&mut state);
    3u64.hash(&mut state);
    "p".to_string().hash(&mut state);
    "u".to_string().hash(&mut state);
    let shown = message(MessageContent::Embed(vec![embed]), 1);
    assert_eq!(hash_of(&shown), state.finish());
    assert_ne!(hash_of(&shown), hash_of(&plain));
}
