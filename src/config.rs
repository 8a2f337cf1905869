//! The resolved configuration of one account, as the engine consumes it.
use vstd::prelude::*;

verus! {

/// One mailbox of an account: its local folder name and its remote folder
/// name.
pub struct Mb {
    pub local: String,
    pub remote: String,
}

/// The configuration of one account.
pub struct Config {
    /// Server host.
    pub url: String,
    pub port: u16,
    /// Login name.
    pub user: String,
    /// The command whose first output line is the password.
    pub pass_cmd: String,
    pub with_tls: bool,
    /// Root of the local store, which may start with `~` or `$HOME`.
    pub folder: String,
    /// The mailboxes, each under its key.
    pub mailboxes: Vec<(String, Mb)>,
}

} // verus!
