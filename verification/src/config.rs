//! The options of a transfer.

use vstd::prelude::*;
use vstd::string::StringExecFns;
use crate::rendezvous::MAX_RETRIES;

verus! {

/// The number of bytes of a chunk, unless the caller sets another.
pub const DEFAULT_CHUNK_SIZE: usize = 65536;

/// The seconds a handshake step may take, unless the caller sets another
/// limit.
pub const DEFAULT_HANDSHAKE_TIMEOUT_SECS: u64 = 10;

/// The seconds a read or a write of payload may take, unless the caller
/// sets another limit.
pub const DEFAULT_IO_TIMEOUT_SECS: u64 = 600;

/// How the two peers find each other.
#[derive(Clone, Copy, Debug, PartialEq, Eq, Structural)]
pub enum DiscoveryMode {
    /// The receiver connects to an address it was given.
    Direct,
    /// The sender announces itself on the local subnet.
    Broadcast,
}

/// The options of a transfer.
#[derive(Debug)]
pub struct Config {
    /// The most bytes moved by one read or write.
    pub chunk_size: usize,
    /// The STUN servers offered to a negotiated transport.
    pub stun_servers: Vec<String>,
    /// The TURN servers offered to a negotiated transport.
    pub turn_servers: Vec<String>,
    /// How the two peers find each other.
    pub discovery_mode: DiscoveryMode,
    /// The failed attempts after which a session gives up.
    pub retry_budget: u32,
    /// The seconds a handshake step may take.
    pub handshake_timeout_secs: u64,
    /// The seconds a read or a write of payload may take.
    pub io_timeout_secs: u64,
}

impl Default for Config {
    /// Chunks of 64 KiB, one public STUN server and no TURN server, direct
    /// discovery, three retries, ten seconds for a handshake step and ten
    /// minutes for a read or a write.
    fn default() -> (config: Config)
        ensures
            config.chunk_size == DEFAULT_CHUNK_SIZE,
            config.stun_servers@.len() == 1,
            config.stun_servers@[0]@ == "stun:stun.l.google.com:19302"@,
            config.turn_servers@.len() == 0,
            config.discovery_mode == DiscoveryMode::Direct,
            config.retry_budget == MAX_RETRIES,
            config.handshake_timeout_secs == DEFAULT_HANDSHAKE_TIMEOUT_SECS,
            config.io_timeout_secs == DEFAULT_IO_TIMEOUT_SECS,
    {
        let mut stun_servers: Vec<String> = Vec::new();
        stun_servers.push(String::from_str("stun:stun.l.google.com:19302"));
        Config {
            chunk_size: DEFAULT_CHUNK_SIZE,
            stun_servers,
            turn_servers: Vec::new(),
            discovery_mode: DiscoveryMode::Direct,
            retry_budget: MAX_RETRIES,
            handshake_timeout_secs: DEFAULT_HANDSHAKE_TIMEOUT_SECS,
            io_timeout_secs: DEFAULT_IO_TIMEOUT_SECS,
        }
    }
}

} // verus!
