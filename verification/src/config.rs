//! Bridge settings: the bearer token that clients must present and the listening port.

use vstd::prelude::*;

use crate::text::{parse_u16, parse_u16_spec};

verus! {

/// The port the bridge listens on when `PORT` is absent or not a valid `u16`.
pub const DEFAULT_PORT: u16 = 8080;

/// Application configuration.
#[derive(Debug, Clone)]
pub struct Settings {
    pub bridge_token: String,
    pub port: u16,
}

/// Why settings could not be formed.
#[derive(Debug, Clone, Copy, PartialEq, Eq, Structural)]
pub enum ConfigError {
    /// `BRIDGE_TOKEN` is not set.
    MissingBridgeToken,
    /// `BRIDGE_TOKEN` is set but empty.
    EmptyBridgeToken,
}

impl ConfigError {
    /// The operator-facing message for this error.
    pub fn message(&self) -> (r: &'static str)
        ensures
            *self == ConfigError::MissingBridgeToken ==> r@
                == "BRIDGE_TOKEN environment variable is required"@,
            *self == ConfigError::EmptyBridgeToken ==> r@ == "BRIDGE_TOKEN must not be empty"@,
    {
        match self {
            ConfigError::MissingBridgeToken => "BRIDGE_TOKEN environment variable is required",
            ConfigError::EmptyBridgeToken => "BRIDGE_TOKEN must not be empty",
        }
    }
}

/// The port chosen from the raw `PORT` value: its `u16` value, else the default.
pub open spec fn port_from_raw(raw: Option<Seq<char>>) -> u16 {
    match raw {
        Some(s) => match parse_u16_spec(s) {
            Some(p) => p,
            None => DEFAULT_PORT,
        },
        None => DEFAULT_PORT,
    }
}

impl Settings {
    /// Forms settings from the raw values of `BRIDGE_TOKEN` and `PORT`
    /// (`None` for a variable that is unset or not valid Unicode).
    /// Fails if the token is missing or empty; a missing or unparsable port means 8080.
    pub fn from_vars(bridge_token: Option<String>, port: Option<String>) -> (r: Result<
        Settings,
        ConfigError,
    >)
        ensures
            bridge_token is None ==> r == Err::<Settings, ConfigError>(
                ConfigError::MissingBridgeToken,
            ),
            bridge_token matches Some(t) ==> (t@.len() == 0 ==> r == Err::<Settings, ConfigError>(
                ConfigError::EmptyBridgeToken,
            )),
            bridge_token matches Some(t) ==> (t@.len() > 0 ==> (r matches Ok(s)
                && s.bridge_token@ == t@ && s.port == port_from_raw(
                match port {
                    Some(p) => Some(p@),
                    None => None,
                },
            ))),
    {
        let token = match bridge_token {
            Some(t) => t,
            None => return Err(ConfigError::MissingBridgeToken),
        };
        if token.as_str().is_empty() {
            return Err(ConfigError::EmptyBridgeToken);
        }
        let port = match port {
            Some(p) => match parse_u16(p.as_str()) {
                Some(v) => v,
                None => DEFAULT_PORT,
            },
            None => DEFAULT_PORT,
        };
        Ok(Settings { bridge_token: token, port })
    }
}

} // verus!
