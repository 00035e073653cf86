use crate::error::StatsError;
use vstd::prelude::*;

verus! {

/// What the answer `ret` of the host's configuration query resolves to, with
/// `errno` the error code that went with it: `-1` reports a failed query; any
/// other answer must be a valid tick frequency.
pub open spec fn resolved_ticks(ret: i64, errno: i32) -> Result<usize, StatsError> {
    if ret == -1 {
        Err(StatsError::Os(errno))
    } else if 0 < ret <= usize::MAX {
        Ok(ret as usize)
    } else {
        Err(StatsError::InvalidTickRate)
    }
}

/// Judges the answer of the host's configuration query for the number of
/// clock ticks per second.
pub fn sysconf_clock_ticks(ret: i64, errno: i32) -> (r: Result<usize, StatsError>)
    ensures
        r == resolved_ticks(ret, errno),
        r matches Ok(ticks) ==> ticks > 0,
{
    if ret == -1 {
        Err(StatsError::Os(errno))
    } else if 0 < ret && ret as u64 <= usize::MAX as u64 {
        Ok(ret as usize)
    } else {
        Err(StatsError::InvalidTickRate)
    }
}

/// The tick frequency of the host, resolved at most once and kept from then
/// on.
pub struct TickCache {
    ticks: Option<usize>,
}

impl TickCache {
    /// The frequency that the cache holds, if it has been resolved.
    pub closed spec fn view(&self) -> Option<usize> {
        self.ticks
    }

    #[verifier::type_invariant]
    spec fn holds_positive_ticks(&self) -> bool {
        self.ticks matches Some(t) ==> t > 0
    }

    /// A cache in which nothing is resolved yet.
    pub fn new() -> (cache: Self)
        ensures
            cache@ is None,
    {
        TickCache { ticks: None }
    }

    /// The frequency that the cache holds, if it has been resolved. A
    /// resolved frequency is positive.
    pub fn get(&self) -> (r: Option<usize>)
        ensures
            r == self@,
            r matches Some(ticks) ==> ticks > 0,
    {
        proof {
            use_type_invariant(self);
        }
        self.ticks
    }
}

/// One call for the tick frequency, as a step from the cache before it to the
/// result and the cache after it. A resolved cache answers by itself and
/// stays as it is; an empty one takes the answer of the host's query, and
/// keeps it if it is a frequency.
pub open spec fn tick_step(cached: Option<usize>, ret: i64, errno: i32) -> (
    Result<usize, StatsError>,
    Option<usize>,
) {
    match cached {
        Some(ticks) => (Ok(ticks), cached),
        None => match resolved_ticks(ret, errno) {
            Ok(ticks) => (Ok(ticks), Some(ticks)),
            Err(e) => (Err(e), None),
        },
    }
}

/// Returns the number of CPU clock ticks per second. `ret` and `errno` are
/// the answer of the host's configuration query and the error code that went
/// with it; they are consulted only while the cache is empty.
pub fn clock_ticks(cache: &mut TickCache, ret: i64, errno: i32) -> (r: Result<usize, StatsError>)
    ensures
        (r, final(cache)@) == tick_step(old(cache)@, ret, errno),
        r matches Ok(ticks) ==> ticks > 0,
{
    match cache.get() {
        Some(ticks) => Ok(ticks),
        None => match sysconf_clock_ticks(ret, errno) {
            Ok(ticks) => {
                *cache = TickCache { ticks: Some(ticks) };
                Ok(ticks)
            },
            Err(e) => Err(e),
        },
    }
}

/// Once a call has succeeded, every later call gives the same frequency and
/// leaves the cache as it is, whatever the host's query would answer then.
pub proof fn lemma_clock_ticks_idempotent(
    cached: Option<usize>,
    ret: i64,
    errno: i32,
    later_ret: i64,
    later_errno: i32,
)
    requires
        tick_step(cached, ret, errno).0 is Ok,
    ensures
        tick_step(tick_step(cached, ret, errno).1, later_ret, later_errno) == tick_step(
            cached,
            ret,
            errno,
        ),
{
}

/// A successful call never gives a frequency of zero, provided that what the
/// cache held before was positive.
pub proof fn lemma_clock_ticks_positive(cached: Option<usize>, ret: i64, errno: i32)
    requires
        cached matches Some(t) ==> t > 0,
    ensures
        tick_step(cached, ret, errno).0 matches Ok(ticks) ==> ticks > 0,
{
}

/// A first call that the host answers with a positive frequency within the
/// machine word returns that very frequency and keeps it.
pub proof fn lemma_first_call_returns_the_answer(ret: i64, errno: i32)
    requires
        0 < ret <= usize::MAX,
    ensures
        tick_step(None, ret, errno) == (Ok::<usize, StatsError>(ret as usize), Some(ret as usize)),
{
}

} // verus!
