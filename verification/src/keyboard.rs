//! Reading key events from the keyboard's interrupt endpoint.

use crate::bytes::has_byte;
use vstd::prelude::*;

verus! {

/// How long a read may take, in milliseconds.
pub const READ_TIMEOUT_MS: u64 = 200;

/// A read from an endpoint's interrupt.
#[derive(Clone, Copy, Debug, PartialEq, Eq, Structural)]
pub struct InterruptRead {
    pub endpoint: u8,
    pub timeout_ms: u64,
}

/// A report that names an event: its first byte is one of the wanted ones, and
/// one of the next four is set.
pub open spec fn is_key_event(report: Seq<u8>, filter: Seq<u8>) -> bool {
    &&& filter.contains(report[0])
    &&& exists|i: int| 1 <= i <= 4 && #[trigger] report[i] != 0
}

/// Reads the key events of one device.
pub struct KeyboardReader {
    endpoint: u8,
    filter: Vec<u8>,
}

impl KeyboardReader {
    /// The endpoint that is read.
    pub closed spec fn reads_from(&self) -> u8 {
        self.endpoint
    }

    /// The first bytes of the reports that are wanted.
    pub closed spec fn wanted(&self) -> Seq<u8> {
        self.filter@
    }

    /// A reader for an endpoint, with the first bytes of the reports that are
    /// wanted.
    pub fn new(key_endpoint: u8, filter: Vec<u8>) -> (reader: Self)
        ensures
            reader.reads_from() == key_endpoint,
            reader.wanted() == filter@,
    {
        KeyboardReader { endpoint: key_endpoint, filter }
    }

    /// The read that fetches the next report.
    pub fn next_read(&self) -> (read: InterruptRead)
        ensures
            read == (InterruptRead { endpoint: self.reads_from(), timeout_ms: READ_TIMEOUT_MS }),
    {
        InterruptRead { endpoint: self.endpoint, timeout_ms: READ_TIMEOUT_MS }
    }

    /// The report that was read, if it is one of the relevant ones; `read` is
    /// `None` where the read failed.
    pub fn poll_keyboard(&self, read: Option<[u8; 32]>) -> (report: Option<[u8; 32]>)
        ensures
            report == match read {
                Some(buf) if is_key_event(buf@, self.wanted()) => Some(buf),
                _ => None,
            },
            read is None ==> report is None,
            read matches Some(buf) ==> (if self.wanted().contains(buf@[0]) && (buf@[1] != 0
                || buf@[2] != 0 || buf@[3] != 0 || buf@[4] != 0) {
                report == Some(buf)
            } else {
                report is None
            }),
    {
        if let Some(buf) = read {
            if has_byte(&self.filter, buf[0]) && (buf[1] != 0 || buf[2] != 0 || buf[3] != 0
                || buf[4] != 0) {
                return Some(buf);
            }
        }
        None
    }
}

/// A report names an event exactly if its first byte is one of the wanted ones and
/// its second, third, fourth or fifth byte is not 0; no other byte counts.
pub proof fn law_which_reports_are_events(report: Seq<u8>, filter: Seq<u8>)
    ensures
        is_key_event(report, filter) <==> (exists|i: int|
            0 <= i < filter.len() && filter[i] == report[0]) && (report[1] != 0 || report[2] != 0
            || report[3] != 0 || report[4] != 0),
{
}

} // verus!
