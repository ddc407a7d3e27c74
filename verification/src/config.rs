//! The agent's configuration: the listening port, an advertised hostname,
//! and the shared secret the authentication gate checks. Reading and
//! writing the configuration file is the application's part; the fallback
//! to defaults when nothing usable was loaded is decided here.

use vstd::prelude::*;
use vstd::string::*;

verus! {

/// The agent's settings.
pub struct AgentConfig {
    pub port: u16,
    pub hostname: String,
    pub auth_token: String,
}

/// The mathematical content of an `AgentConfig`.
pub ghost struct AgentConfigView {
    pub port: u16,
    pub hostname: Seq<char>,
    pub auth_token: Seq<char>,
}

impl View for AgentConfig {
    type V = AgentConfigView;

    open spec fn view(&self) -> AgentConfigView {
        AgentConfigView {
            port: self.port,
            hostname: self.hostname@,
            auth_token: self.auth_token@,
        }
    }
}

/// The default settings used when no configuration could be read.
pub open spec fn spec_default_config() -> AgentConfigView {
    AgentConfigView { port: 3001, hostname: "localhost"@, auth_token: "change_me_please"@ }
}

impl AgentConfig {
    /// The built-in defaults: local port 3001 and a placeholder secret
    /// meant to be rotated.
    pub fn default_config() -> (r: AgentConfig)
        ensures
            r@ == spec_default_config(),
    {
        AgentConfig {
            port: 3001,
            hostname: String::from_str("localhost"),
            auth_token: String::from_str("change_me_please"),
        }
    }

    /// What the agent runs with: the loaded configuration when one was
    /// read and parsed, the defaults otherwise.
    pub fn resolve(loaded: Option<AgentConfig>) -> (r: AgentConfig)
        ensures
            loaded is Some ==> r@ == loaded.unwrap()@,
            loaded is None ==> r@ == spec_default_config(),
    {
        match loaded {
            Some(c) => c,
            None => AgentConfig::default_config(),
        }
    }
}

} // verus!
