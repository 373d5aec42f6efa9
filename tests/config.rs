use latebot::config::{BotConfig, Config, DatabaseConfig};
use latebot::security::BotSecurityConfig;

#[test]
fn defaults() {
    let c = Config::default();
    assert_eq!(c.bot.target_name, "Не указан");
    assert_eq!(c.bot.notification_chat_id, 0);
    assert_eq!(c.bot.ping_user, "@Test");
    assert_eq!(c.database.connection_uri, "mongodb://10.10.10.10:27017/");
    assert_eq!(c.security.request_limit, 30);
    assert_eq!(c.security.time_window_seconds, 60);
    assert!(c.security.ddos_protection_enabled);
    assert!(c.security.whitelist.is_empty());
    assert!(c.security.blacklist.is_empty());
}

#[test]
fn load_or_default_falls_back() {
    let c = Config::load_or_default(None);
    assert_eq!(c.bot.ping_user, "@Test");
    assert_eq!(c.security.request_limit, 30);
}

#[test]
fn load_or_default_keeps_what_was_read() {
    let read = Config {
        bot: BotConfig {
            target_name: "Ivan".to_string(),
            notification_chat_id: -100,
            ping_user: "@ivan".to_string(),
        },
        database: DatabaseConfig { connection_uri: "mongodb://db:27017/".to_string() },
        security: BotSecurityConfig {
            request_limit: 5,
            time_window_seconds: 10,
            ddos_protection_enabled: false,
            whitelist: vec![1],
            blacklist: vec![2],
        },
    };
    let c = Config::load_or_default(Some(read));
    assert_eq!(c.bot.target_name, "Ivan");
    assert_eq!(c.bot.notification_chat_id, -100);
    assert_eq!(c.database.connection_uri, "mongodb://db:27017/");
    assert_eq!(c.security.request_limit, 5);
    assert!(!c.security.ddos_protection_enabled);
    assert_eq!(c.security.blacklist, vec![2]);
}
