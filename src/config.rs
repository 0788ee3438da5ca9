//! Settings of the notifier, as plain values. Reading them from a file
//! happens outside the library.

use vstd::prelude::*;

verus! {

/// All settings.
pub struct Config {
    pub mcnotify: McNotify,
    pub address: Address,
    pub formats: Formats,
    pub twitter: Option<TwitterConfig>,
    pub ifttt: Option<IFTTTConfig>,
    pub command: Option<CommandConfig>,
    pub stdout: Option<StdoutConfig>,
}

/// Polling settings.
pub struct McNotify {
    /// Seconds between two polls.
    pub check_interval: u16,
}

/// The watched server.
pub struct Address {
    pub hostname: String,
    pub port: u16,
}

/// Messages and templates of notifications.
pub struct Formats {
    /// A notification message sent when the server recovered.
    pub recover_msg: String,
    /// A notification message sent when the server went down.
    pub down_msg: String,
    /// Template of the line listing players who joined.
    pub join_fmt: String,
    /// Template of the line listing players who left.
    pub leave_fmt: String,
    /// Template of the line listing the current players and their count.
    pub players_fmt: String,
    /// Template of the time line; empty for none.
    pub time_fmt: String,
}

/// Credentials for posting to Twitter.
pub struct TwitterConfig {
    pub consumer_key: String,
    pub consumer_secret: String,
    pub access_key: String,
    pub access_secret: String,
}

/// A webhook endpoint and an optional character limit.
pub struct IFTTTConfig {
    pub endpoint_url: String,
    pub truncate: Option<usize>,
}

/// A command to run for each notification.
pub struct CommandConfig {
    pub command: String,
    pub args: Vec<String>,
    pub pipe: bool,
}

/// Printing to the standard output; it has no settings.
pub struct StdoutConfig {}

} // verus!
