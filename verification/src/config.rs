//! Service settings: the defaults, how supplied values override them, and
//! the values derived from them.

use vstd::prelude::*;

use crate::text::{chars_of, decimal, decimal_chars, split_chars, split_on, string_of};

verus! {

/// The service's settings.
#[derive(Clone, Debug)]
pub struct Config {
    pub host: String,
    pub port: u16,
    pub allow_origins: String,
    pub assets_url: String,
    pub redis_host: String,
    pub redis_port: u16,
}

/// The settings as supplied by the environment; `None` where a setting is absent.
#[derive(Clone, Debug)]
pub struct Settings {
    pub host: Option<String>,
    pub port: Option<u16>,
    pub allow_origins: Option<String>,
    pub assets_url: Option<String>,
    pub redis_host: Option<String>,
    pub redis_port: Option<u16>,
}

pub fn default_host() -> (s: String)
    ensures
        s@ == "0.0.0.0"@,
{
    String::from_str("0.0.0.0")
}

pub fn default_port() -> (p: u16)
    ensures
        p == 3000,
{
    3000
}

pub fn default_origin() -> (s: String)
    ensures
        s@ == "https://example.com"@,
{
    String::from_str("https://example.com")
}

pub fn default_assets_url() -> (s: String)
    ensures
        s@ == "http://localhost:5000"@,
{
    String::from_str("http://localhost:5000")
}

pub fn default_redis_host() -> (s: String)
    ensures
        s@ == "http://localhost"@,
{
    String::from_str("http://localhost")
}

pub fn default_redis_port() -> (p: u16)
    ensures
        p == 6379,
{
    6379
}

/// A supplied text setting, or the default where none was supplied.
pub open spec fn text_or(supplied: Option<String>, default: Seq<char>) -> Seq<char> {
    match supplied {
        Some(s) => s@,
        None => default,
    }
}

/// A supplied numeric setting, or the default where none was supplied.
pub open spec fn number_or(supplied: Option<u16>, default: u16) -> u16 {
    match supplied {
        Some(n) => n,
        None => default,
    }
}

/// The configuration that `settings` describe, each absent setting taking its default.
pub open spec fn configured(settings: Settings, c: Config) -> bool {
    &&& c.host@ == text_or(settings.host, "0.0.0.0"@)
    &&& c.port == number_or(settings.port, 3000)
    &&& c.allow_origins@ == text_or(settings.allow_origins, "https://example.com"@)
    &&& c.assets_url@ == text_or(settings.assets_url, "http://localhost:5000"@)
    &&& c.redis_host@ == text_or(settings.redis_host, "http://localhost"@)
    &&& c.redis_port == number_or(settings.redis_port, 6379)
}

impl Config {
    /// Builds the configuration from supplied settings, filling in the
    /// default of every setting that was not supplied.
    pub fn from_settings(settings: Settings) -> (c: Config)
        ensures
            configured(settings, c),
    {
        let host = match settings.host {
            Some(h) => h,
            None => default_host(),
        };
        let port = match settings.port {
            Some(p) => p,
            None => default_port(),
        };
        let allow_origins = match settings.allow_origins {
            Some(o) => o,
            None => default_origin(),
        };
        let assets_url = match settings.assets_url {
            Some(u) => u,
            None => default_assets_url(),
        };
        let redis_host = match settings.redis_host {
            Some(h) => h,
            None => default_redis_host(),
        };
        let redis_port = match settings.redis_port {
            Some(p) => p,
            None => default_redis_port(),
        };
        Config { host, port, allow_origins, assets_url, redis_host, redis_port }
    }

    /// The allowed CORS origins: `allow_origins` split at every comma.
    pub fn origins(&self) -> (origins: Vec<String>)
        ensures
            origins@.map_values(|o: String| o@) == split_on(self.allow_origins@, ','),
    {
        let chars = chars_of(self.allow_origins.as_str());
        split_chars(&chars, ',')
    }

    /// The socket address to listen on, `host:port`.
    pub fn bind_address(&self) -> (addr: String)
        ensures
            addr@ == self.host@ + ":"@ + decimal(self.port as nat),
    {
        let mut addr = self.host.clone();
        addr.append(":");
        let port = string_of(decimal_chars(self.port as u64));
        addr.append(port.as_str());
        addr
    }
}

} // verus!
