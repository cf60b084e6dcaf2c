//! Configuration values and their environment override. Reading and
//! writing them as JSON or TOML is serde's work, done where the library's
//! types get serde's derives.
use vstd::prelude::*;
use vstd::string::*;
use crate::rust08_errors::parse_u16;
use crate::strings::{parse_unsigned, trim, trimmed_chars, string_from};

verus! {

/// Application configuration.
#[derive(Debug, Clone, PartialEq)]
pub struct Config {
    pub app_name: String,
    pub port: u16,
    pub debug: bool,
    pub log_path: Option<String>,
}

/// A storage backend.
#[derive(Debug, Clone, PartialEq)]
pub enum Backend {
    Memory,
    File { path: String },
}

/// The port used when the configuration names none.
pub fn default_port() -> (p: u16)
    ensures
        p == 8080,
{
    8080
}

/// The error text of a bad port always starts so.
pub open spec fn bad_port_prefix() -> Seq<char> {
    "PORT 不是合法端口："@
}

/// The environment's port, when given, replaces the configured one: it is
/// trimmed and must parse as a `u16`; otherwise the error names the reason.
pub fn apply_env(config: Config, env_port: Option<String>) -> (r: Result<Config, String>)
    ensures
        env_port is None ==> (r matches Ok(c) && c == config),
        env_port matches Some(raw) ==> (match parse_unsigned(trim(raw@), 65535) {
            Some(p) => r matches Ok(c) && c.port == p && c.app_name == config.app_name && c.debug == config.debug
                && c.log_path == config.log_path,
            None => r matches Err(m) && bad_port_prefix().is_prefix_of(m@),
        }),
{
    let mut config = config;
    if let Some(raw) = env_port {
        let trimmed = string_from(&trimmed_chars(raw.as_str()));
        match parse_u16(trimmed.as_str()) {
            Ok(port) => {
                config.port = port;
            },
            Err(error) => {
                let mut m = String::from_str("PORT 不是合法端口：");
                m.append(error.to_string().as_str());
                return Err(m);
            },
        }
    }
    Ok(config)
}

} // verus!
