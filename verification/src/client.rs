//! How a client is set up: where it connects and how long it waits.

use vstd::prelude::*;

verus! {

/// Seconds to wait for a reply where the configuration names none.
pub const DEFAULT_READ_TIMEOUT: u64 = 30;

/// Seconds to wait for a request to be written where the configuration
/// names none.
pub const DEFAULT_WRITE_TIMEOUT: u64 = 30;

/// Configuration of a client.
#[derive(Debug, PartialEq, Eq)]
pub struct RCONConfig {
    /// Address of the server, as `host:port`: `0.0.0.0:25575`, say, or
    /// `donkey-engine.host:1337`.
    pub url: String,
    /// Seconds to wait for a request to be written; 30 if `None`.
    pub write_timeout: Option<u64>,
    /// Seconds to wait for a reply; 30 if `None`.
    pub read_timeout: Option<u64>,
}

/// An [`RCONConfig`] with its address as a sequence of characters.
pub struct RCONConfigView {
    pub url: Seq<char>,
    pub write_timeout: Option<u64>,
    pub read_timeout: Option<u64>,
}

impl View for RCONConfig {
    type V = RCONConfigView;

    open spec fn view(&self) -> RCONConfigView {
        RCONConfigView {
            url: self.url@,
            write_timeout: self.write_timeout,
            read_timeout: self.read_timeout,
        }
    }
}

impl RCONConfigView {
    /// Seconds that a write may take: those of the configuration, or the
    /// default.
    pub open spec fn write_timeout_secs(self) -> u64 {
        match self.write_timeout {
            Some(own) => own,
            None => DEFAULT_WRITE_TIMEOUT,
        }
    }

    /// Seconds that a read may take: those of the configuration, or the
    /// default.
    pub open spec fn read_timeout_secs(self) -> u64 {
        match self.read_timeout {
            Some(own) => own,
            None => DEFAULT_READ_TIMEOUT,
        }
    }
}

impl Default for RCONConfig {
    /// No address and no timeouts of its own.
    fn default() -> (config: Self)
        ensures
            config@ == (RCONConfigView {
                url: Seq::empty(),
                write_timeout: None,
                read_timeout: None,
            }),
    {
        RCONConfig { url: String::new(), write_timeout: None, read_timeout: None }
    }
}

impl RCONConfig {
    /// Seconds that a write may take.
    pub fn write_timeout_secs(&self) -> (secs: u64)
        ensures
            secs == self@.write_timeout_secs(),
    {
        match self.write_timeout {
            Some(own) => own,
            None => DEFAULT_WRITE_TIMEOUT,
        }
    }

    /// Seconds that a read may take.
    pub fn read_timeout_secs(&self) -> (secs: u64)
        ensures
            secs == self@.read_timeout_secs(),
    {
        match self.read_timeout {
            Some(own) => own,
            None => DEFAULT_READ_TIMEOUT,
        }
    }
}

} // verus!
