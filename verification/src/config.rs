//! The settings of one bot: a list of servers, each with its identity,
//! credentials, channels and enabled responders. The engine reads them and
//! never changes them.

use vstd::prelude::*;

verus! {

#[derive(Debug, Clone)]
pub struct IrcConfig {
    pub servers: Vec<Server>,
}

#[derive(Debug, Clone)]
pub struct UserData {
    pub nickname: String,
    pub username: String,
    pub realname: String,
}

#[derive(Debug, Clone)]
pub struct Server {
    pub user_data: UserData,
    pub hostname: String,
    pub port: u16,
    pub password: String,
    pub use_tls: bool,
    pub use_hostserv: bool,
    pub sasl: SaslConfig,
    pub nickserv: NickServConfig,
    pub ctcp: CtcpConfig,
    pub channels: Vec<ChannelConfig>,
    pub privmsg_plugins: Vec<String>,
}

#[derive(Debug, Clone)]
pub struct SaslConfig {
    pub enabled: bool,
    pub user: String,
    pub password: String,
    pub terminate_failed: bool,
}

#[derive(Debug, Clone)]
pub struct NickServConfig {
    pub enabled: bool,
    pub password: String,
}

#[derive(Debug, Clone)]
pub struct CtcpConfig {
    pub enabled: Vec<String>,
    pub version: String,
    pub source: String,
}

#[derive(Debug, Clone)]
pub struct ChannelConfig {
    pub name: String,
    pub password: String,
}

impl IrcConfig {
    /// Whether the settings name at least one server. A bot without servers
    /// has nothing to run.
    pub fn has_servers(&self) -> (r: bool)
        ensures
            r == (self.servers@.len() > 0),
    {
        self.servers.len() > 0
    }
}

} // verus!
