//! The two roles a node can run in, and the rule that picks one.

use vstd::prelude::*;

verus! {

/// The UDP port that a host listens on, on all local addresses.
pub const HOST_PORT: u16 = 8602;

/// Size of the buffer that a relay receives a tunnel datagram into.
pub const DATAGRAM_BUFFER_LEN: usize = 65536;

/// The role of a node.
#[derive(Clone, Copy, Debug, PartialEq, Eq, Structural)]
pub enum Role {
    /// Serve any number of joining nodes.
    Host,
    /// Tunnel to one host.
    Join,
}

/// Why no role could be picked.
#[derive(Clone, Copy, Debug, PartialEq, Eq, Structural)]
pub enum ConfigError {
    /// Neither role was asked for.
    NoRole,
    /// Both roles were asked for.
    BothRoles,
}

/// The role that goes with what was asked for: exactly one of the two
/// must be.
pub open spec fn role_for(host: bool, join: bool) -> Result<Role, ConfigError> {
    if host && join {
        Err(ConfigError::BothRoles)
    } else if host {
        Ok(Role::Host)
    } else if join {
        Ok(Role::Join)
    } else {
        Err(ConfigError::NoRole)
    }
}

/// Picks the role of this node from whether `host` and `join` were given.
pub fn select_role(host: bool, join: bool) -> (role: Result<Role, ConfigError>)
    ensures
        role == role_for(host, join),
{
    if host && join {
        Err(ConfigError::BothRoles)
    } else if host {
        Ok(Role::Host)
    } else if join {
        Ok(Role::Join)
    } else {
        Err(ConfigError::NoRole)
    }
}

impl ConfigError {
    /// The diagnostic to end the process with.
    pub fn message(&self) -> (text: &'static str)
        ensures
            text@ == match *self {
                ConfigError::NoRole => "Must host or join."@,
                ConfigError::BothRoles => "Can't host and join."@,
            },
    {
        match self {
            ConfigError::NoRole => "Must host or join.",
            ConfigError::BothRoles => "Can't host and join.",
        }
    }
}

} // verus!
