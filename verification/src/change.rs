//! The change decision: is a source file newer than what the destination holds?

use vstd::prelude::*;

verus! {

/// A modification time: seconds since the epoch and the nanoseconds within
/// the second.
#[derive(Clone, Copy, Debug, PartialEq, Eq, Structural)]
pub struct Timestamp {
    pub secs: i64,
    pub nanos: u32,
}

/// The number of nanoseconds in a second.
pub const NANOS_PER_SEC: u32 = 1_000_000_000;

/// The most whole seconds that a time may lie from the epoch, on either side.
pub const MAX_EPOCH_SECS: u64 = 0x7FFF_FFFF_FFFF_FFFE;

/// A count of seconds, brought down to `MAX_EPOCH_SECS` where it is above.
pub open spec fn clamped_secs(secs: u64) -> int {
    if secs > MAX_EPOCH_SECS {
        MAX_EPOCH_SECS as int
    } else {
        secs as int
    }
}

/// A count of nanoseconds within a second, brought below a full second
/// where it is not.
pub open spec fn clamped_nanos(nanos: u32) -> int {
    if nanos >= NANOS_PER_SEC {
        NANOS_PER_SEC - 1
    } else {
        nanos as int
    }
}

/// The nanoseconds from the epoch to a time that lies `secs` seconds and
/// `nanos` nanoseconds after it, or before it: negative for a time before.
pub open spec fn offset_spec(before_epoch: bool, secs: u64, nanos: u32) -> int {
    let distance = clamped_secs(secs) * NANOS_PER_SEC + clamped_nanos(nanos);
    if before_epoch {
        -distance
    } else {
        distance
    }
}

impl Timestamp {
    /// The nanoseconds from the epoch to `self`.
    pub open spec fn instant(self) -> int {
        self.secs * NANOS_PER_SEC + self.nanos
    }

    /// The nanoseconds lie within the second.
    pub open spec fn wf(self) -> bool {
        self.nanos < NANOS_PER_SEC
    }

    /// The time that lies `secs` seconds and `nanos` nanoseconds after the
    /// epoch, or before it. The seconds of a time before the epoch are
    /// negative, and its nanoseconds count up from the start of its second.
    pub fn from_offset(before_epoch: bool, secs: u64, nanos: u32) -> (t: Timestamp)
        ensures
            t.wf(),
            t.instant() == offset_spec(before_epoch, secs, nanos),
    {
        let s: i64 = if secs > MAX_EPOCH_SECS {
            MAX_EPOCH_SECS as i64
        } else {
            secs as i64
        };
        let n: u32 = if nanos >= NANOS_PER_SEC {
            NANOS_PER_SEC - 1
        } else {
            nanos
        };
        if !before_epoch {
            Timestamp { secs: s, nanos: n }
        } else if n == 0 {
            Timestamp { secs: -s, nanos: 0 }
        } else {
            Timestamp { secs: -s - 1, nanos: NANOS_PER_SEC - n }
        }
    }

    /// `self` is strictly later than `other`.
    pub open spec fn later_than(self, other: Timestamp) -> bool {
        self.secs > other.secs || (self.secs == other.secs && self.nanos > other.nanos)
    }

    /// Whether `self` is strictly later than `other`.
    pub fn is_after(&self, other: &Timestamp) -> (r: bool)
        ensures
            r == self.later_than(*other),
    {
        self.secs > other.secs || (self.secs == other.secs && self.nanos > other.nanos)
    }
}

/// Of two times whose nanoseconds lie within the second, the later one is
/// the one further from the epoch onward: the order of times is the order
/// of their nanoseconds from the epoch, also across the epoch.
pub proof fn lemma_later_is_further(a: Timestamp, b: Timestamp)
    requires
        a.wf(),
        b.wf(),
    ensures
        a.later_than(b) <==> a.instant() > b.instant(),
        a == b <==> a.instant() == b.instant(),
{
}

/// The comparison could not be made: the destination can be read, the
/// source cannot.
#[derive(Clone, Copy, Debug, PartialEq, Eq, Structural)]
pub enum ChangeError {
    SourceUnreadable,
}

/// The change decision on two modification times, `None` standing for
/// metadata that cannot be read. A destination that cannot be read counts as
/// missing, and the source is then newer. Otherwise the source is newer
/// exactly if it was modified strictly later.
pub open spec fn is_newer_spec(src: Option<Timestamp>, dest: Option<Timestamp>) -> Result<
    bool,
    ChangeError,
> {
    match dest {
        None => Ok(true),
        Some(d) => match src {
            Some(s) => Ok(s.later_than(d)),
            None => Err(ChangeError::SourceUnreadable),
        },
    }
}

/// Return true if the source is newer than the destination, by modification
/// time. Equal times make the file unchanged; a missing destination makes the
/// source newer.
pub fn is_newer(src: Option<Timestamp>, dest: Option<Timestamp>) -> (r: Result<bool, ChangeError>)
    ensures
        r == is_newer_spec(src, dest),
        dest is None ==> r == Ok::<bool, ChangeError>(true),
        src is Some && src == dest ==> r == Ok::<bool, ChangeError>(false),
{
    match dest {
        None => Ok(true),
        Some(d) => match src {
            Some(s) => Ok(s.is_after(&d)),
            None => Err(ChangeError::SourceUnreadable),
        },
    }
}

} // verus!
