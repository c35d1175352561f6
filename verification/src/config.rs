//! Static configuration of a session.

use vstd::prelude::*;

verus! {

/// Mathematical value of a [`ServerConfig`].
pub ghost struct ServerConfigView {
    pub hostname: Seq<char>,
    pub port: int,
    pub channels: Seq<Seq<char>>,
    pub nickname: Seq<char>,
    pub username: Seq<char>,
}

/// Mathematical value of a [`Config`].
pub ghost struct ConfigView {
    pub server: ServerConfigView,
}

/// The configuration related to networking.
#[derive(Debug)]
pub struct ServerConfig {
    /// The hostname we connect to
    pub hostname: String,
    /// The port we connect to
    pub port: u16,
    /// Channels the bot joins on startup
    pub channels: Vec<String>,
    /// The nickname the bot registers under
    pub nickname: String,
    /// The user name the bot registers under
    pub username: String,
}

/// Global configuration. Once built it is only read.
#[derive(Debug)]
pub struct Config {
    /// The configuration related to networking
    pub server: ServerConfig,
}

impl View for ServerConfig {
    type V = ServerConfigView;

    open spec fn view(&self) -> ServerConfigView {
        ServerConfigView {
            hostname: self.hostname@,
            port: self.port as int,
            channels: self.channels.deep_view(),
            nickname: self.nickname@,
            username: self.username@,
        }
    }
}

impl View for Config {
    type V = ConfigView;

    open spec fn view(&self) -> ConfigView {
        ConfigView { server: self.server@ }
    }
}

impl ServerConfigView {
    /// The built-in server settings, used when no configuration is supplied.
    pub open spec fn builtin() -> ServerConfigView {
        ServerConfigView {
            hostname: "irc.rizon.net"@,
            port: 6667,
            channels: seq!["#eirc"@],
            nickname: "eirc"@,
            username: "eirc"@,
        }
    }
}

impl ConfigView {
    /// The built-in configuration.
    pub open spec fn builtin() -> ConfigView {
        ConfigView { server: ServerConfigView::builtin() }
    }
}

impl ServerConfig {
    /// The built-in server settings.
    pub fn new() -> (config: ServerConfig)
        ensures
            config@ == ServerConfigView::builtin(),
    {
        let mut channels: Vec<String> = Vec::new();
        channels.push("#eirc".to_owned());
        let config = ServerConfig {
            hostname: "irc.rizon.net".to_owned(),
            port: 6667,
            channels,
            nickname: "eirc".to_owned(),
            username: "eirc".to_owned(),
        };
        assert(config.channels.deep_view() =~= seq!["#eirc"@]);
        config
    }
}

impl Config {
    /// The default configuration, for when no configuration file is found.
    pub fn new() -> (config: Config)
        ensures
            config@ == ConfigView::builtin(),
    {
        Config { server: ServerConfig::new() }
    }
}

} // verus!
