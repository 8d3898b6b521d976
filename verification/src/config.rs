//! The server's configuration as the rest of the server sees it.

use vstd::prelude::*;
use vstd::string::StringExecFns;
use crate::text::{decimal, write_decimal};

verus! {

/// The text `address:port`.
pub open spec fn address_and_port(address: Seq<char>, port: u16) -> Seq<char> {
    address + seq![':'] + decimal(port as nat)
}

/// Where the server listens.
pub struct ServerConfig {
    /// Address the server should start on.
    pub address: String,
    /// Number of the server's port.
    pub port: u16,
}

/// The configuration of game and server.
pub struct Config {
    /// Where the server listens.
    pub server: ServerConfig,
}

impl ServerConfig {
    /// Creates a new configuration.
    pub fn new(address: String, port: u16) -> (config: ServerConfig)
        ensures
            config.address == address,
            config.port == port,
    {
        ServerConfig { address, port }
    }

    /// Writes the configuration as `address:port`, the port in decimal.
    pub fn to_string(&self) -> (text: String)
        ensures
            text@ == address_and_port(self.address@, self.port),
    {
        proof {
            reveal_strlit(":");
        }
        let mut text = self.address.clone();
        text.append(":");
        write_decimal(self.port as u128, &mut text);
        proof {
            assert(":"@ =~= seq![':']);
            assert(text@ =~= address_and_port(self.address@, self.port));
        }
        text
    }
}

} // verus!
