use reciprocity_bot::bots::{Bot, BotError, BotMap, Present};
use reciprocity_bot::config::{Config, GuildConfig, LavalinkConfig, NetConfig};
use reciprocity_bot::discord::VoiceState;
use reciprocity_bot::ids::{ChannelId, GuildId, UserId};

fn state(user: u64, channel: Option<u64>) -> VoiceState {
    VoiceState {
        user_id: UserId(user),
        channel_id: channel.map(ChannelId),
        session_id: "s".to_string(),
    }
}

fn bots() -> BotMap {
    let mut bots = BotMap::new();
    assert!(bots.add_bot(Ok(Bot::new(UserId(1), 0))).is_ok());
    assert!(bots.add_bot(Ok(Bot::new(UserId(2), 1))).is_ok());
    bots
}

#[test]
fn a_second_bot_with_the_same_account_is_refused() {
    let mut bots = bots();
    assert!(matches!(
        bots.add_bot(Ok(Bot::new(UserId(1), 7))),
        Err(BotError::DuplicateBotEntry(UserId(1)))
    ));
    assert!(matches!(
        bots.add_bot(Err(BotError::Serenity("token".to_string()))),
        Err(BotError::Serenity(_))
    ));
    assert!(matches!(
        bots.add_bot(Err(BotError::Songbird(UserId(5)))),
        Err(BotError::Songbird(UserId(5)))
    ));
    assert_eq!(bots.ids(), vec![UserId(1), UserId(2)]);
    assert_eq!(bots.bots().len(), 2);
}

#[test]
fn bots_are_found_by_account() {
    let bots = bots();
    assert!(bots.contains_id(&UserId(2)));
    assert!(!bots.contains_id(&UserId(3)));
    let bot = bots.get_bot_by_id(UserId(2)).unwrap();
    assert_eq!(bot.id(), UserId(2));
    assert_eq!(bot.connections(), 1);
    assert!(bots.get_bot_by_id(UserId(3)).is_none());
    assert_eq!(bots.get_bot_cache_songbird(&UserId(2)), Some(1));
    assert_eq!(bots.get_bot_cache_songbird(&UserId(3)), None);
}

#[test]
fn the_first_bot_that_sees_the_guild_serves_it() {
    let bots = bots();
    assert_eq!(bots.get_any_guild_bot(&vec![false, true]).unwrap().id(), UserId(2));
    assert_eq!(bots.get_any_guild_bot(&vec![true, true]).unwrap().id(), UserId(1));
    assert!(bots.get_any_guild_bot(&vec![false, false]).is_none());
}

#[test]
fn only_the_first_cache_with_the_guild_is_asked() {
    let bots = bots();
    let cached = vec![None, Some(vec![state(7, Some(70))])];
    let found = bots.get_user_voice_state(&UserId(7), &cached).unwrap();
    assert_eq!(found.channel_id, Some(ChannelId(70)));
    let first_lacks = vec![Some(vec![]), Some(vec![state(7, Some(70))])];
    assert!(bots.get_user_voice_state(&UserId(7), &first_lacks).is_none());
    assert!(bots.get_user_voice_state(&UserId(7), &vec![None, None]).is_none());
}

#[test]
fn any_voice_channel_is_the_first_one_known() {
    let bots = bots();
    let cached = vec![
        vec![(GuildId(1), Some(vec![state(7, None)])), (GuildId(2), None)],
        vec![(GuildId(3), Some(vec![state(8, Some(80)), state(7, Some(73))]))],
    ];
    assert_eq!(
        bots.get_any_user_voice_channel(&UserId(7), &cached),
        Some((GuildId(3), ChannelId(73)))
    );
    assert_eq!(bots.get_any_user_voice_channel(&UserId(9), &cached), None);
}

#[test]
fn only_people_keep_a_channel_occupied() {
    let bots = bots();
    let at = |user: u64, channel: Option<u64>, is_bot: Option<bool>| Present {
        user: UserId(user),
        channel: channel.map(ChannelId),
        is_bot,
    };
    let empty = Some(vec![at(1, Some(5), Some(true)), at(2, Some(6), Some(false)), at(3, Some(5), None)]);
    let occupied = Some(vec![at(4, Some(5), Some(false))]);
    assert!(!bots.user_in_channel(&ChannelId(5), &vec![empty.clone(), None]));
    assert!(bots.user_in_channel(&ChannelId(5), &vec![empty.clone(), occupied.clone()]));
    assert_eq!(bots.user_in_channel_with_bot(&ChannelId(5), UserId(1), &empty), Some(false));
    assert_eq!(bots.user_in_channel_with_bot(&ChannelId(5), UserId(1), &occupied), Some(true));
    assert_eq!(bots.user_in_channel_with_bot(&ChannelId(5), UserId(1), &None), Some(false));
    assert_eq!(bots.user_in_channel_with_bot(&ChannelId(5), UserId(9), &occupied), None);
    let nowhere = Some(vec![at(4, None, Some(false))]);
    assert_eq!(bots.user_in_channel_with_bot(&ChannelId(0), UserId(1), &nowhere), Some(false));
    assert!(!bots.user_in_channel(&ChannelId(0), &vec![nowhere, None]));
}

fn config() -> Config {
    Config {
        bots: vec![("main".to_string(), "token".to_string())],
        guilds: vec![
            ("home".to_string(), GuildConfig { guild_id: 3, channel_id: 30 }),
            ("twice".to_string(), GuildConfig { guild_id: 3, channel_id: 31 }),
            ("away".to_string(), GuildConfig { guild_id: 4, channel_id: 40 }),
        ],
        lavalink: LavalinkConfig {
            address: "host:2333".to_string(),
            password: "secret".to_string(),
        },
        net: Some(NetConfig { address: [127, 0, 0, 1], port: 8080 }),
    }
}

#[test]
fn a_guild_is_served_in_its_first_channel() {
    let config = config();
    assert_eq!(config.channel_of(GuildId(3)), Some(ChannelId(30)));
    assert_eq!(config.channel_of(GuildId(4)), Some(ChannelId(40)));
    assert_eq!(config.channel_of(GuildId(5)), None);
}

#[test]
fn configuration_errors_name_the_file() {
    let error = Config::new("config.yml".to_string(), Err("not found".to_string())).unwrap_err();
    assert_eq!(error, "not found, file: config.yml");
    assert!(Config::new("config.yml".to_string(), Ok(config())).is_ok());
}

#[test]
fn clients_are_built_over_tls() {
    let settings = config().lavalink.client_settings();
    assert_eq!(settings.host, "host:2333");
    assert_eq!(settings.password, "secret");
    assert!(settings.is_ssl);
}
