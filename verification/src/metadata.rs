//! What is known of one entry of the file system at the moment it was asked
//! for: size, kind, time of last change, owner and group.

use vstd::prelude::*;

verus! {

/// Seconds from the Unix epoch back to the first second of the year 262144
/// BCE in UTC, as a negative number: the earliest time that a listing can
/// show, for the calendar that writes it goes no further back.
pub const MIN_SECONDS: i64 = -8_334_601_228_800;

/// Seconds from the Unix epoch to the last second of the year 262142 CE in
/// UTC: the latest time that a listing can show.
pub const MAX_SECONDS: i64 = 8_210_266_876_799;

/// Nanoseconds in one second.
pub const NANOS_PER_SECOND: u32 = 1_000_000_000;

/// Whether `seconds` and `nanos` denote a time that a listing can show: one
/// between the years 262144 BCE and 262142 CE.
pub open spec fn spec_in_range(seconds: i64, nanos: u32) -> bool {
    MIN_SECONDS <= seconds <= MAX_SECONDS && nanos < NANOS_PER_SECOND
}

/// A point in time: whole seconds since the Unix epoch (1970-01-01 00:00:00
/// UTC; negative before it) and the nanoseconds into that second. Every value
/// is a time that a listing can show.
#[derive(Clone, Copy, Debug, PartialEq, Eq, Structural)]
pub struct Timestamp {
    seconds: i64,
    nanos: u32,
}

impl Timestamp {
    #[verifier::type_invariant]
    spec fn in_range(self) -> bool {
        spec_in_range(self.seconds, self.nanos)
    }

    /// Whole seconds since the Unix epoch.
    pub closed spec fn spec_seconds(self) -> i64 {
        self.seconds
    }

    /// Nanoseconds into the second.
    pub closed spec fn spec_nanos(self) -> u32 {
        self.nanos
    }

    /// The time `seconds` and `nanos` after the Unix epoch; `None` where that
    /// lies before the year 262144 BCE or after the year 262142 CE, or `nanos`
    /// is a second or more.
    pub fn new(seconds: i64, nanos: u32) -> (t: Option<Timestamp>)
        ensures
            t is Some <==> spec_in_range(seconds, nanos),
            t matches Some(time) ==> time.spec_seconds() == seconds && time.spec_nanos() == nanos,
    {
        if MIN_SECONDS <= seconds && seconds <= MAX_SECONDS && nanos < NANOS_PER_SECOND {
            Some(Timestamp { seconds, nanos })
        } else {
            None
        }
    }

    /// Nanoseconds since the Unix epoch; negative before it.
    pub open spec fn spec_total_nanos(self) -> int {
        self.spec_seconds() * NANOS_PER_SECOND + self.spec_nanos()
    }

    /// The time `seconds` and `nanos` after the Unix epoch, as the platform
    /// counts a time that is not before the epoch; `None` where that lies
    /// after the year 262142 CE or `nanos` is a second or more.
    pub fn after_epoch(seconds: u64, nanos: u32) -> (t: Option<Timestamp>)
        ensures
            t is Some <==> seconds <= MAX_SECONDS && nanos < NANOS_PER_SECOND,
            t matches Some(time) ==> time.spec_total_nanos() == seconds * NANOS_PER_SECOND + nanos,
    {
        if seconds <= MAX_SECONDS as u64 && nanos < NANOS_PER_SECOND {
            Some(Timestamp { seconds: seconds as i64, nanos })
        } else {
            None
        }
    }

    /// The time `seconds` and `nanos` before the Unix epoch, as the platform
    /// counts a time that is before the epoch; `None` where that lies before
    /// the year 262144 BCE or `nanos` is a second or more.
    pub fn before_epoch(seconds: u64, nanos: u32) -> (t: Option<Timestamp>)
        ensures
            t is Some <==> seconds * NANOS_PER_SECOND + nanos <= -MIN_SECONDS * NANOS_PER_SECOND
                && nanos < NANOS_PER_SECOND,
            t matches Some(time) ==> time.spec_total_nanos() == -(seconds * NANOS_PER_SECOND
                + nanos),
    {
        let first = (-MIN_SECONDS) as u64;
        if nanos >= NANOS_PER_SECOND || seconds > first {
            None
        } else if nanos == 0 {
            Some(Timestamp { seconds: -(seconds as i64), nanos: 0 })
        } else if seconds < first {
            Some(Timestamp { seconds: -(seconds as i64) - 1, nanos: NANOS_PER_SECOND - nanos })
        } else {
            None
        }
    }

    /// The Unix epoch itself.
    pub closed spec fn spec_epoch() -> Timestamp {
        Timestamp { seconds: 0, nanos: 0 }
    }

    /// The Unix epoch itself.
    pub fn epoch() -> (t: Timestamp)
        ensures
            t == Timestamp::spec_epoch(),
            t.spec_seconds() == 0,
            t.spec_nanos() == 0,
    {
        Timestamp { seconds: 0, nanos: 0 }
    }

    /// Whole seconds since the Unix epoch.
    pub fn seconds(&self) -> (s: i64)
        ensures
            s == self.spec_seconds(),
            spec_in_range(s, self.spec_nanos()),
    {
        proof {
            use_type_invariant(self);
        }
        self.seconds
    }

    /// Nanoseconds into the second.
    pub fn nanos(&self) -> (n: u32)
        ensures
            n == self.spec_nanos(),
            spec_in_range(self.spec_seconds(), n),
    {
        proof {
            use_type_invariant(self);
        }
        self.nanos
    }
}

/// Why a query of metadata has no answer.
#[derive(Clone, Copy, Debug, PartialEq, Eq, Structural)]
pub enum QueryError {
    /// The platform does not supply the value.
    Unavailable,
}

/// The answers of one entry, taken once and not updated.
#[derive(Clone, Copy, Debug, PartialEq, Eq)]
pub struct FileStat {
    /// Size in bytes.
    pub len: u64,
    /// Whether the entry is a directory.
    pub is_dir: bool,
    /// Whether the entry is a regular file.
    pub is_file: bool,
    /// Time of the last change, where the platform supplies it.
    pub modified: Result<Timestamp, QueryError>,
    /// Identifier of the owning user; 0 where the platform has none.
    pub uid: u32,
    /// Identifier of the owning group; 0 where the platform has none.
    pub gid: u32,
}

/// Read-only queries over the metadata of one entry. Each query is pure: it
/// answers from the snapshot `view`, the same on every call.
pub trait Metadata {
    /// The snapshot that the queries answer from.
    spec fn view(&self) -> FileStat;

    /// Size in bytes.
    fn len(&self) -> (n: u64)
        ensures
            n == self.view().len,
    ;

    /// Whether the size is zero.
    fn is_empty(&self) -> (b: bool)
        ensures
            b == (self.view().len == 0),
    ;

    /// Whether the entry is a directory.
    fn is_dir(&self) -> (b: bool)
        ensures
            b == self.view().is_dir,
    ;

    /// Whether the entry is a regular file.
    fn is_file(&self) -> (b: bool)
        ensures
            b == self.view().is_file,
    ;

    /// Time of the last change, or why there is none.
    fn modified(&self) -> (t: Result<Timestamp, QueryError>)
        ensures
            t == self.view().modified,
    ;

    /// Identifier of the owning group.
    fn gid(&self) -> (id: u32)
        ensures
            id == self.view().gid,
    ;

    /// Identifier of the owning user.
    fn uid(&self) -> (id: u32)
        ensures
            id == self.view().uid,
    ;
}

impl Metadata for FileStat {
    open spec fn view(&self) -> FileStat {
        *self
    }

    fn len(&self) -> (n: u64) {
        self.len
    }

    fn is_empty(&self) -> (b: bool) {
        self.len == 0
    }

    fn is_dir(&self) -> (b: bool) {
        self.is_dir
    }

    fn is_file(&self) -> (b: bool) {
        self.is_file
    }

    fn modified(&self) -> (t: Result<Timestamp, QueryError>) {
        self.modified
    }

    fn gid(&self) -> (id: u32) {
        self.gid
    }

    fn uid(&self) -> (id: u32) {
        self.uid
    }
}

} // verus!
