//! The logical state of the one FTP session: whether the control connection
//! is live, and the working directory the server last reported. The socket
//! itself lives with the caller, which performs each wire exchange and hands
//! the replies to these functions.

use vstd::prelude::*;
use crate::error::CoreError;
use crate::listing::{FtpEntry, parse_list_entries, parse_lines_spec, entry_views};
use crate::path::{normalize_cwd, normalize_cwd_spec};
use crate::text::seq_views;

verus! {

/// The listing returned to the caller: the directory listed and its entries.
pub struct ListResponse {
    pub cwd: String,
    pub entries: Vec<FtpEntry>,
}

/// Session state tracked across operations.
pub struct Session {
    pub connected: bool,
    pub cwd: String,
}

impl Session {
    /// A fresh, disconnected session.
    pub fn new() -> (s: Session)
        ensures
            !s.connected,
            s.cwd@ == Seq::<char>::empty(),
    {
        Session { connected: false, cwd: String::new() }
    }

    /// Guard for every navigation and transfer operation: on a disconnected
    /// session it fails with "not connected" — it never panics.
    pub fn require_connected(&self) -> (r: Result<(), CoreError>)
        ensures
            r == if self.connected {
                Ok::<(), CoreError>(())
            } else {
                Err::<(), CoreError>(CoreError::NotConnected)
            },
    {
        if self.connected {
            Ok(())
        } else {
            Err(CoreError::NotConnected)
        }
    }

    /// Record a successful connect: the session is live and tracks the
    /// normalized working directory from the server's `PWD` reply.
    pub fn apply_connect(&mut self, pwd_reply: String) -> (cwd: String)
        ensures
            final(self).connected,
            final(self).cwd@ == normalize_cwd_spec(pwd_reply@),
            cwd@ == normalize_cwd_spec(pwd_reply@),
    {
        let cwd = normalize_cwd(pwd_reply);
        self.cwd = cwd.clone();
        self.connected = true;
        cwd
    }

    /// Record a disconnect; idempotent from any state.
    pub fn apply_disconnect(&mut self)
        ensures
            !final(self).connected,
            final(self).cwd@ == Seq::<char>::empty(),
    {
        self.connected = false;
        self.cwd = String::new();
    }

    /// Record the server's `PWD` reply after navigation: the tracked working
    /// directory is updated even when a later step of the operation fails.
    pub fn apply_pwd(&mut self, pwd_reply: String) -> (cwd: String)
        requires
            old(self).connected,
        ensures
            final(self).connected,
            final(self).cwd@ == normalize_cwd_spec(pwd_reply@),
            cwd@ == normalize_cwd_spec(pwd_reply@),
    {
        let cwd = normalize_cwd(pwd_reply);
        self.cwd = cwd.clone();
        cwd
    }

    /// Turn a raw `LIST` reply into the caller's response, first updating the
    /// tracked working directory from the accompanying `PWD` reply.
    pub fn apply_listing(&mut self, pwd_reply: String, lines: Vec<String>) -> (r: ListResponse)
        requires
            old(self).connected,
        ensures
            final(self).connected,
            final(self).cwd@ == normalize_cwd_spec(pwd_reply@),
            r.cwd@ == normalize_cwd_spec(pwd_reply@),
            entry_views(r.entries@) == parse_lines_spec(seq_views(lines@)),
    {
        let cwd = self.apply_pwd(pwd_reply);
        let entries = parse_list_entries(lines);
        ListResponse { cwd, entries }
    }
}

} // verus!
