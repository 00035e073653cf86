use vstd::prelude::*;

verus! {

/// Why a reading of the host's CPU time could not be produced.
#[derive(Debug, Clone, Copy, PartialEq, Eq, Structural)]
pub enum StatsError {
    /// An operating-system call reported failure; the field is the error code
    /// that the system gave for it.
    Os(i32),
    /// The host's answer is no tick frequency (zero, negative, or beyond the
    /// machine word), or the frequency is zero or too large to divide a
    /// duration by.
    InvalidTickRate,
    /// A counter field is not an unsigned decimal number that fits 64 bits,
    /// or a buffer of per-core records does not hold whole records.
    Malformed,
    /// A raw per-core counter is negative.
    NegativeCounter,
    /// The counters of all cores together exceed 64 bits.
    Overflow,
}

/// Judges the status that an operating-system call returned: `-1` is the
/// failure indicator, and the failure carries the system's error code `errno`.
pub fn check_status(ret: i32, errno: i32) -> (r: Result<(), StatsError>)
    ensures
        ret == -1 ==> r == Err::<(), StatsError>(StatsError::Os(errno)),
        ret != -1 ==> r == Ok::<(), StatsError>(()),
{
    if ret == -1 {
        Err(StatsError::Os(errno))
    } else {
        Ok(())
    }
}

} // verus!
