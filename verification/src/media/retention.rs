//! How long stored files are kept.

use vstd::prelude::*;

verus! {

/// How long a stored file is kept, and how often old ones are looked for, in seconds.
pub const RETENTION_SECS: u64 = 600;

/// A point in time: `nanos` nanoseconds after `secs` seconds from the Unix epoch.
#[derive(Clone, Copy, Debug, PartialEq, Eq, Structural)]
pub struct Timestamp {
    pub secs: i64,
    pub nanos: u32,
}

impl Timestamp {
    /// The nanoseconds are less than a second.
    pub open spec fn valid(self) -> bool {
        self.nanos < 1_000_000_000
    }

    /// The nanoseconds from the Unix epoch.
    pub open spec fn instant(self) -> int {
        self.secs * 1_000_000_000 + self.nanos
    }

    /// `self` comes before `other`.
    pub open spec fn precedes(self, other: Timestamp) -> bool {
        self.secs < other.secs || self.secs == other.secs && self.nanos < other.nanos
    }
}

/// Files that were last changed before this time are old at the time `now`. It is the
/// Unix epoch where the time that far back is out of range.
pub open spec fn cutoff(now: Timestamp) -> Timestamp {
    if now.secs - RETENTION_SECS >= i64::MIN {
        Timestamp { secs: (now.secs - RETENTION_SECS) as i64, nanos: now.nanos }
    } else {
        Timestamp { secs: 0, nanos: 0 }
    }
}

/// A file that was last changed at the time `modified` is old; one of which that time
/// is not known is not.
pub open spec fn is_expired(modified: Option<Timestamp>, cutoff: Timestamp) -> bool {
    match modified {
        Some(modified) => modified.precedes(cutoff),
        None => false,
    }
}

/// The time before which files are old, at the time `now`.
pub fn cleanup_cutoff(now: Timestamp) -> (res: Timestamp)
    ensures
        res == cutoff(now),
        now.valid() ==> res.valid(),
        now.secs >= i64::MIN + 600 ==> res.secs == now.secs - 600 && res.nanos == now.nanos,
        now.secs < i64::MIN + 600 ==> res.secs == 0 && res.nanos == 0,
{
    match now.secs.checked_sub(RETENTION_SECS as i64) {
        Some(secs) => Timestamp { secs, nanos: now.nanos },
        None => Timestamp { secs: 0, nanos: 0 },
    }
}

/// Decides whether a file is to be removed that was last changed at the time
/// `modified`, where that is known.
pub fn expired(modified: Option<Timestamp>, cutoff: Timestamp) -> (res: bool)
    ensures
        res == is_expired(modified, cutoff),
        modified is None ==> !res,
        modified matches Some(time) ==> (time.nanos < 1_000_000_000 && cutoff.nanos < 1_000_000_000
            ==> res == (time.secs * 1_000_000_000 + time.nanos < cutoff.secs * 1_000_000_000
            + cutoff.nanos)),
        modified matches Some(time) ==> {
            &&& time.secs < cutoff.secs ==> res
            &&& time.secs == cutoff.secs ==> res == (time.nanos < cutoff.nanos)
            &&& time.secs > cutoff.secs ==> !res
        },
{
    match modified {
        Some(modified) => modified.secs < cutoff.secs || (modified.secs == cutoff.secs
            && modified.nanos < cutoff.nanos),
        None => false,
    }
}

/// A file is removed exactly when its last change is longer ago than files are kept.
pub proof fn law_files_are_kept_for_the_retention_time(now: Timestamp, modified: Timestamp)
    requires
        now.valid(),
        modified.valid(),
        now.secs - RETENTION_SECS >= i64::MIN,
    ensures
        is_expired(Some(modified), cutoff(now)) <==> now.instant() - modified.instant()
            > RETENTION_SECS * 1_000_000_000,
        is_expired(Some(modified), cutoff(now)) <==> (now.secs - modified.secs) * 1_000_000_000 + (
        now.nanos - modified.nanos) > 600_000_000_000,
{
}

/// One point in time comes before another exactly when fewer nanoseconds have gone by
/// until it.
pub proof fn law_time_is_counted_in_nanoseconds(modified: Timestamp, cutoff: Timestamp)
    requires
        modified.nanos < 1_000_000_000,
        cutoff.nanos < 1_000_000_000,
    ensures
        is_expired(Some(modified), cutoff) <==> modified.secs * 1_000_000_000 + modified.nanos
            < cutoff.secs * 1_000_000_000 + cutoff.nanos,
{
}

/// Files are old that were last changed more than ten minutes ago. Where there is no time
/// ten minutes ago, those from before the Unix epoch are. A file of which nobody knows
/// when it was last changed is never old.
pub proof fn law_files_grow_old_in_ten_minutes(now: Timestamp, time: Timestamp)
    ensures
        now.secs >= i64::MIN + 600 ==> cutoff(now).secs == now.secs - 600 && cutoff(now).nanos
            == now.nanos,
        now.secs < i64::MIN + 600 ==> (is_expired(Some(time), cutoff(now)) <==> time.secs < 0),
        !is_expired(None, cutoff(now)),
        now.secs >= i64::MIN + 600 ==> {
            let since = now.secs - time.secs;
            &&& since < 600 ==> !is_expired(Some(time), cutoff(now))
            &&& since == 600 ==> (is_expired(Some(time), cutoff(now)) <==> time.nanos < now.nanos)
            &&& since > 600 ==> is_expired(Some(time), cutoff(now))
        },
{
}

/// A file that is old stays old as time goes by.
pub proof fn law_old_files_stay_old(
    now: Timestamp,
    later: Timestamp,
    modified: Option<Timestamp>,
)
    requires
        now.secs - RETENTION_SECS >= i64::MIN,
        !later.precedes(now),
        is_expired(modified, cutoff(now)),
    ensures
        is_expired(modified, cutoff(later)),
{
}

} // verus!
