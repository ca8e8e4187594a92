//! The server's configuration.

use vstd::prelude::*;

verus! {

/// How requests are authorised.
#[derive(Clone, Copy, Debug, PartialEq, Eq, Structural)]
pub enum AuthType {
    /// By a signed token in the `Authorization` header.
    Jwt,
    /// By the identifier of a stored session in the `x-session` header.
    Session,
}

/// What the configuration file holds.
#[derive(Clone, Debug)]
pub struct AppConfig {
    pub overview: Overview,
    pub config: Config,
}

/// The server's name and the version of its configuration.
#[derive(Clone, Debug)]
pub struct Overview {
    pub name: String,
    pub version: u16,
}

/// The settings that the server runs with.
#[derive(Clone, Copy, Debug, PartialEq, Eq, Structural)]
pub struct Config {
    pub port: u16,
    pub auth: Option<AuthType>,
}

/// The configuration that is written where none is found: no
/// authorisation, port 3000.
pub fn default_app_config() -> (config: AppConfig)
    ensures
        config.overview.name@ == "Aginisi"@,
        config.overview.version == 1,
        config.config.port == 3000,
        config.config.auth is None,
{
    AppConfig {
        overview: Overview { name: "Aginisi".to_owned(), version: 1 },
        config: Config { auth: None, port: 3000 },
    }
}

} // verus!
