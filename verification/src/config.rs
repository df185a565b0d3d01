use vstd::prelude::*;

use crate::number::{parse_u16, parse_u16_spec};

verus! {

/// Settings of the service, read from `DATABASE_URL`, `IMAGE_DIR` and `PORT`.
#[derive(Clone, Debug)]
pub struct Config {
    pub database_url: String,
    pub image_dir: String,
    pub port: u16,
}

/// Why the settings cannot be used.
#[derive(Clone, Copy, Debug, PartialEq, Eq, Structural)]
pub enum ConfigError {
    /// `DATABASE_URL` is not set.
    MissingDatabaseUrl,
    /// `IMAGE_DIR` is not set.
    MissingImageDir,
    /// `PORT` is set but is no decimal `u16`.
    InvalidPort,
}

impl ConfigError {
    /// The message the service stops with.
    pub fn message(&self) -> (r: &'static str)
        ensures
            *self == ConfigError::MissingDatabaseUrl ==> r@ == "DATABASE_URL must be set"@,
            *self == ConfigError::MissingImageDir ==> r@ == "IMAGE_DIR must be set"@,
            *self == ConfigError::InvalidPort ==> r@ == "PORT must be a valid u16"@,
    {
        match self {
            ConfigError::MissingDatabaseUrl => "DATABASE_URL must be set",
            ConfigError::MissingImageDir => "IMAGE_DIR must be set",
            ConfigError::InvalidPort => "PORT must be a valid u16",
        }
    }
}

impl Config {
    /// Builds the settings from the values of the environment variables
    /// `DATABASE_URL`, `IMAGE_DIR` and `PORT` (`None` where one is unset).
    /// The first two are required; `PORT` defaults to 8080 and otherwise must
    /// parse as a `u16`. The variables are checked in that order.
    pub fn from_env(
        database_url: Option<String>,
        image_dir: Option<String>,
        port: Option<String>,
    ) -> (r: Result<Config, ConfigError>)
        ensures
            database_url is None ==> r == Err::<Config, ConfigError>(ConfigError::MissingDatabaseUrl),
            database_url is Some && image_dir is None ==> r == Err::<Config, ConfigError>(
                ConfigError::MissingImageDir,
            ),
            database_url is Some && image_dir is Some ==> match port {
                None => r matches Ok(c) && c.database_url@ == database_url->0@ && c.image_dir@
                    == image_dir->0@ && c.port == 8080,
                Some(p) => match parse_u16_spec(p@) {
                    None => r == Err::<Config, ConfigError>(ConfigError::InvalidPort),
                    Some(v) => r matches Ok(c) && c.database_url@ == database_url->0@
                        && c.image_dir@ == image_dir->0@ && c.port == v,
                },
            },
    {
        let database_url = match database_url {
            Some(u) => u,
            None => return Err(ConfigError::MissingDatabaseUrl),
        };
        let image_dir = match image_dir {
            Some(d) => d,
            None => return Err(ConfigError::MissingImageDir),
        };
        let port = match port {
            None => 8080,
            Some(p) => match parse_u16(p.as_str()) {
                Some(v) => v,
                None => return Err(ConfigError::InvalidPort),
            },
        };
        Ok(Config { database_url, image_dir, port })
    }
}

} // verus!
