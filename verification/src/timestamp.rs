//! Points in time, as seconds and nanoseconds since the Unix epoch (UTC).
use vstd::prelude::*;

use crate::storage::configs::opt_str_view;

verus! {

/// A point in time: whole seconds since 1970-01-01T00:00:00Z and the
/// nanoseconds within that second.
#[derive(Debug, Clone, Copy, PartialEq, Eq, Structural)]
pub struct Timestamp {
    pub secs: i64,
    pub nanos: u32,
}

/// `a` lies strictly before `b`.
pub open spec fn ts_before(a: Timestamp, b: Timestamp) -> bool {
    a.secs < b.secs || (a.secs == b.secs && a.nanos < b.nanos)
}

impl Timestamp {
    /// Whether `self` lies strictly before `other`.
    pub fn is_before(&self, other: &Timestamp) -> (r: bool)
        ensures
            r == ts_before(*self, *other),
    {
        self.secs < other.secs || (self.secs == other.secs && self.nanos < other.nanos)
    }
}

/// The format of the time stamp in a backup's file name.
pub const BACKUP_STAMP_FORMAT: &'static str = "%Y-%m-%dT%H-%M-%S-%3f";

/// The format of the time stamp in the label of an imported configuration.
pub const LABEL_STAMP_FORMAT: &'static str = "%Y%m%d%H%M%S";

/// What `chrono` prints for the UTC time `secs`.`nanos` in the format
/// `fmt`; none when `chrono` cannot represent that time.
pub uninterp spec fn spec_utc_format(secs: i64, nanos: u32, fmt: Seq<char>) -> Option<Seq<char>>;

/// Calls `chrono::DateTime::<Utc>::from_timestamp(secs, nanos)` and, when it
/// gives a time, prints it with `format(fmt)`.  The contract names the
/// outcome; `fmt` is one of the two formats the library uses, which `chrono`
/// can always print.
#[verifier::external_body]
fn utc_format(secs: i64, nanos: u32, fmt: &str) -> (r: Option<String>)
    requires
        fmt@ == BACKUP_STAMP_FORMAT@ || fmt@ == LABEL_STAMP_FORMAT@,
    ensures
        opt_str_view(r) == spec_utc_format(secs, nanos, fmt@),
{
    match chrono::DateTime::from_timestamp(secs, nanos) {
        Some(t) => Some(t.format(fmt).to_string()),
        None => None,
    }
}

impl Timestamp {
    /// The stamp of a backup taken at this time: `%Y-%m-%dT%H-%M-%S-%3f`
    /// (none for a time out of `chrono`'s range).
    pub fn backup_stamp(&self) -> (r: Option<String>)
        ensures
            opt_str_view(r) == spec_utc_format(self.secs, self.nanos, BACKUP_STAMP_FORMAT@),
    {
        utc_format(self.secs, self.nanos, BACKUP_STAMP_FORMAT)
    }

    /// The stamp in the label of a configuration imported at this time:
    /// `%Y%m%d%H%M%S` (none for a time out of `chrono`'s range).
    pub fn label_stamp(&self) -> (r: Option<String>)
        ensures
            opt_str_view(r) == spec_utc_format(self.secs, self.nanos, LABEL_STAMP_FORMAT@),
    {
        utc_format(self.secs, self.nanos, LABEL_STAMP_FORMAT)
    }
}

} // verus!
