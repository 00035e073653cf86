use crate::error::StatsError;
use std::time::Duration;
use vstd::arithmetic::div_mod::{lemma_fundamental_div_mod, lemma_fundamental_div_mod_converse};
use vstd::prelude::*;

verus! {

/// Nanoseconds in one second.
pub const NANOS_PER_SEC: u64 = 1_000_000_000;

/// The whole number of nanoseconds that a `Duration` spans: what its
/// `as_nanos` reports.
pub uninterp spec fn duration_nanos(d: Duration) -> nat;

/// A tick frequency that a duration can be divided by: positive, and within
/// the 32 bits of the divisor.
pub open spec fn valid_ticks(ticks: usize) -> bool {
    0 < ticks <= u32::MAX
}

/// The nanoseconds that stand for `raw` ticks at `ticks` per second: `raw`
/// read as whole seconds, divided by the frequency, rounded down.
pub open spec fn scaled_nanos(raw: u64, ticks: usize) -> nat
    recommends
        valid_ticks(ticks),
{
    (raw as nat * NANOS_PER_SEC as nat) / (ticks as nat)
}

/// Calls `Duration::from_secs`. Believed of it: the result spans `secs` whole
/// seconds and no fraction of one.
#[verifier::external_body]
fn duration_from_secs(secs: u64) -> (d: Duration)
    ensures
        duration_nanos(d) == secs as nat * NANOS_PER_SEC as nat,
{
    Duration::from_secs(secs)
}

/// Divides a `Duration` by a `u32` with the `/` that std gives the pair.
/// Believed of it: the quotient is the dividend's nanoseconds divided by
/// `rhs`, rounded down to a whole nanosecond. A divisor of zero makes std
/// panic and is left out.
#[verifier::external_body]
fn duration_div(d: Duration, rhs: u32) -> (q: Duration)
    requires
        rhs != 0,
    ensures
        duration_nanos(q) == duration_nanos(d) / (rhs as nat),
{
    d / rhs
}

/// Converts a raw tick count to a duration: `raw` taken as whole seconds and
/// divided by the tick frequency. A frequency that is zero or exceeds 32 bits
/// is refused.
pub fn ticks_to_duration(raw: u64, ticks: usize) -> (r: Result<Duration, StatsError>)
    ensures
        valid_ticks(ticks) ==> r is Ok && duration_nanos(r->Ok_0) == scaled_nanos(raw, ticks),
        !valid_ticks(ticks) ==> r == Err::<Duration, StatsError>(StatsError::InvalidTickRate),
{
    if ticks == 0 || ticks > u32::MAX as usize {
        return Err(StatsError::InvalidTickRate);
    }
    let whole = duration_from_secs(raw);
    Ok(duration_div(whole, ticks as u32))
}

/// The conversion in seconds and fraction: the whole seconds of the result
/// are the whole quotient of the tick count by the frequency, and its
/// nanoseconds below a second are what the remaining ticks give at a thousand
/// million nanoseconds each, divided by the frequency.
pub proof fn lemma_scaled_nanos_parts(raw: u64, ticks: usize)
    requires
        valid_ticks(ticks),
    ensures
        scaled_nanos(raw, ticks) / (NANOS_PER_SEC as nat) == raw as nat / (ticks as nat),
        scaled_nanos(raw, ticks) % (NANOS_PER_SEC as nat) == ((raw as nat % (ticks as nat))
            * NANOS_PER_SEC as nat) / (ticks as nat),
{
    let n = NANOS_PER_SEC as int;
    let t = ticks as int;
    let q = raw as int / t;
    let r = raw as int % t;
    let e = (r * n) / t;
    let f = (r * n) % t;
    lemma_fundamental_div_mod(raw as int, t);
    lemma_fundamental_div_mod(r * n, t);
    assert(raw as int * n == (q * n + e) * t + f) by (nonlinear_arith)
        requires
            raw as int == t * q + r,
            r * n == t * e + f,
    ;
    lemma_fundamental_div_mod_converse(raw as int * n, t, q * n + e, f);
    assert(0 <= e < n) by (nonlinear_arith)
        requires
            r * n == t * e + f,
            0 <= r < t,
            0 <= f < t,
            n > 0,
    ;
    lemma_fundamental_div_mod_converse(q * n + e, n, q, e);
}

/// A tick count converts to a span of zero exactly when the count, times the
/// nanoseconds in a second, stays below the frequency. So at a frequency of
/// up to a thousand million every count but zero gives a positive span.
pub proof fn lemma_scaled_nanos_zero(raw: u64, ticks: usize)
    requires
        valid_ticks(ticks),
    ensures
        scaled_nanos(raw, ticks) == 0 <==> (raw as nat) * (NANOS_PER_SEC as nat) < ticks as nat,
{
    let x = raw as int * NANOS_PER_SEC as int;
    let t = ticks as int;
    lemma_fundamental_div_mod(x, t);
    assert(x / t == 0 <==> x < t) by (nonlinear_arith)
        requires
            x == t * (x / t) + (x % t),
            0 <= x % t < t,
            0 <= x,
            t > 0,
    ;
}

/// Aggregate CPU time of the host since boot.
#[derive(Debug, Clone, Copy)]
pub struct CpuStats {
    /// normal processes executing in user mode
    pub user: Duration,
    /// processes executing in kernel mode
    pub system: Duration,
}

impl CpuStats {
    /// The two spans in nanoseconds, user mode first. Each is a natural
    /// number: a span is never negative.
    pub open spec fn view(&self) -> (nat, nat) {
        (duration_nanos(self.user), duration_nanos(self.system))
    }
}

impl Default for CpuStats {
    /// No time in either mode.
    fn default() -> (s: Self)
        ensures
            s@ == (0nat, 0nat),
    {
        CpuStats { user: duration_from_secs(0), system: duration_from_secs(0) }
    }
}

} // verus!
