//! Startup configuration: the address and port the relay works against.
//! The loader is a stub — it yields the built-in defaults and persists
//! nothing; reading and writing a real file is the caller's business.

use vstd::prelude::*;
use vstd::string::StringExecFns;

verus! {

/// The port used when no configuration is supplied.
pub const DEFAULT_PORT: u16 = 9901;

/// The address used when no configuration is supplied.
pub open spec fn default_ip() -> Seq<char> {
    "192.168.64.1"@
}

/// The two startup parameters of the relay.
pub struct Config {
    ip: String,
    port: u16,
}

impl Config {
    pub closed spec fn spec_ip(&self) -> Seq<char> {
        self.ip@
    }

    pub closed spec fn spec_port(&self) -> u16 {
        self.port
    }

    pub fn new(ip: String, port: u16) -> (c: Config)
        ensures
            c.spec_ip() == ip@,
            c.spec_port() == port,
    {
        Config { ip, port }
    }

    pub fn ip(&self) -> (r: &str)
        ensures
            r@ == self.spec_ip(),
    {
        self.ip.as_str()
    }

    pub fn port(&self) -> (r: u16)
        ensures
            r == self.spec_port(),
    {
        self.port
    }
}

impl Default for Config {
    fn default() -> (c: Config)
        ensures
            c.spec_ip() == default_ip(),
            c.spec_port() == DEFAULT_PORT,
    {
        Config { ip: String::from_str("192.168.64.1"), port: DEFAULT_PORT }
    }
}

/// Yields the configuration the relay starts with.  A stub: no file is read,
/// the defaults come back.
pub fn from_file() -> (c: Config)
    ensures
        c.spec_ip() == default_ip(),
        c.spec_port() == DEFAULT_PORT,
{
    Config::default()
}

/// Persists the configuration.  A stub: nothing is written, the
/// configuration is left untouched.
pub fn to_file(config: &Config) {
    let _ = config;
}

} // verus!
