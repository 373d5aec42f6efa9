//! The bot's configuration and the values it falls back to.
use vstd::prelude::*;

use crate::security::BotSecurityConfig;

verus! {

/// Everything the bot is started with.
#[derive(Debug)]
pub struct Config {
    pub bot: BotConfig,
    pub database: DatabaseConfig,
    pub security: BotSecurityConfig,
}

/// Who is being voted on, and where milestones are announced.
#[derive(Debug)]
pub struct BotConfig {
    /// Display name of the person the votes are about.
    pub target_name: String,
    /// Chat that receives milestone announcements; zero for none.
    pub notification_chat_id: i64,
    /// Handle mentioned in announcements.
    pub ping_user: String,
}

/// Where the day aggregates are persisted.
#[derive(Debug)]
pub struct DatabaseConfig {
    pub connection_uri: String,
}

/// The configuration used when none could be read.
pub open spec fn is_default_config(c: Config) -> bool {
    &&& c.bot.target_name@ == "Не указан"@
    &&& c.bot.notification_chat_id == 0
    &&& c.bot.ping_user@ == "@Test"@
    &&& c.database.connection_uri@ == "mongodb://10.10.10.10:27017/"@
    &&& c.security.request_limit == 30
    &&& c.security.time_window_seconds == 60
    &&& c.security.ddos_protection_enabled
    &&& c.security.whitelist@ == Seq::<i64>::empty()
    &&& c.security.blacklist@ == Seq::<i64>::empty()
}

impl Default for Config {
    fn default() -> (r: Self)
        ensures
            is_default_config(r),
    {
        Config {
            bot: BotConfig {
                target_name: "Не указан".to_string(),
                notification_chat_id: 0,
                ping_user: "@Test".to_string(),
            },
            database: DatabaseConfig { connection_uri: "mongodb://10.10.10.10:27017/".to_string() },
            security: BotSecurityConfig::default(),
        }
    }
}

impl Config {
    /// The configuration that was read, or the defaults when reading it
    /// failed.
    pub fn load_or_default(loaded: Option<Config>) -> (r: Config)
        ensures
            loaded is Some ==> r == loaded->0,
            loaded is None ==> is_default_config(r),
    {
        match loaded {
            Some(config) => config,
            None => Config::default(),
        }
    }
}

} // verus!
