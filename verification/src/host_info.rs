use crate::duration::{scaled_nanos, ticks_to_duration, valid_ticks, CpuStats};
use crate::error::{check_status, StatsError};
use vstd::prelude::*;

verus! {

/// The counters of one core, in the order in which the host reports them:
/// user, system, idle, nice.
pub type CoreTicks = (usize, usize, usize, usize);

/// How many counters the host reports for each core.
pub const COUNTERS_PER_CORE: usize = 4;

/// The record with index `k` in a buffer of raw counters.
pub open spec fn record_at(raw: Seq<i32>, k: int) -> CoreTicks {
    (
        raw[4 * k] as usize,
        raw[4 * k + 1] as usize,
        raw[4 * k + 2] as usize,
        raw[4 * k + 3] as usize,
    )
}

/// The records that a buffer of raw counters holds, four counters to a core.
pub open spec fn records_of(raw: Seq<i32>) -> Seq<CoreTicks> {
    Seq::new(raw.len() / 4, |k: int| record_at(raw, k))
}

/// No counter in the buffer is negative.
pub open spec fn no_negative(raw: Seq<i32>) -> bool {
    forall|i: int| 0 <= i < raw.len() ==> #[trigger] raw[i] >= 0
}

/// What a buffer of raw counters decodes to: it must hold whole records, and
/// no negative counter; the length is judged first.
pub open spec fn decoded(raw: Seq<i32>) -> Result<Seq<CoreTicks>, StatsError> {
    if raw.len() % 4 != 0 {
        Err(StatsError::Malformed)
    } else if !no_negative(raw) {
        Err(StatsError::NegativeCounter)
    } else {
        Ok(records_of(raw))
    }
}

/// Whether a vector of records is what a decoding asks for.
pub open spec fn records_match(
    r: Result<Vec<CoreTicks>, StatsError>,
    want: Result<Seq<CoreTicks>, StatsError>,
) -> bool {
    match want {
        Ok(records) => r is Ok && r->Ok_0@ == records,
        Err(e) => r == Err::<Vec<CoreTicks>, StatsError>(e),
    }
}

/// Copies the per-core records out of a buffer of raw counters.
pub fn decode_processor_info(raw: &[i32]) -> (r: Result<Vec<CoreTicks>, StatsError>)
    ensures
        records_match(r, decoded(raw@)),
{
    let len = raw.len();
    if len % COUNTERS_PER_CORE != 0 {
        return Err(StatsError::Malformed);
    }
    let cores = len / COUNTERS_PER_CORE;
    let mut records: Vec<CoreTicks> = Vec::new();
    let mut k: usize = 0;
    while k < cores
        invariant
            len == raw@.len(),
            len == 4 * cores,
            k <= cores,
            records@.len() == k,
            forall|j: int| 0 <= j < k ==> records@[j] == record_at(raw@, j),
            forall|i: int| 0 <= i < 4 * k ==> #[trigger] raw@[i] >= 0,
        decreases cores - k,
    {
        let base = COUNTERS_PER_CORE * k;
        let user = raw[base];
        let system = raw[base + 1];
        let idle = raw[base + 2];
        let nice = raw[base + 3];
        if user < 0 || system < 0 || idle < 0 || nice < 0 {
            return Err(StatsError::NegativeCounter);
        }
        records.push((user as usize, system as usize, idle as usize, nice as usize));
        k += 1;
    }
    assert(records@ =~= records_of(raw@));
    Ok(records)
}

/// The outcome of asking the host for its per-core counters: a failed query
/// comes first, then a buffer that does not decode, then a failed release of
/// the buffer.
pub open spec fn processor_info_outcome(
    ret: i32,
    errno: i32,
    raw: Seq<i32>,
    release_ret: i32,
    release_errno: i32,
) -> Result<Seq<CoreTicks>, StatsError> {
    if ret == -1 {
        Err(StatsError::Os(errno))
    } else if decoded(raw) is Err {
        decoded(raw)
    } else if release_ret == -1 {
        Err(StatsError::Os(release_errno))
    } else {
        decoded(raw)
    }
}

/// Judges a query for the host's per-core counters. `ret` and `errno` are the
/// status of the query and the error code that went with it, `raw` the
/// counters copied from the buffer that the host filled, `release_ret` and
/// `release_errno` the status and error code of giving that buffer back.
pub fn get_host_processor_info(
    ret: i32,
    errno: i32,
    raw: &[i32],
    release_ret: i32,
    release_errno: i32,
) -> (r: Result<Vec<CoreTicks>, StatsError>)
    ensures
        records_match(r, processor_info_outcome(ret, errno, raw@, release_ret, release_errno)),
{
    match check_status(ret, errno) {
        Err(e) => {
            return Err(e);
        },
        Ok(_) => {},
    }
    let records = match decode_processor_info(raw) {
        Err(e) => {
            return Err(e);
        },
        Ok(records) => records,
    };
    match check_status(release_ret, release_errno) {
        Err(e) => Err(e),
        Ok(_) => Ok(records),
    }
}

/// Judges the release of the host handle: a status of `-1` is a failure that
/// carries the error code `errno`.
pub fn deallocate_host_port(ret: i32, errno: i32) -> (r: Result<(), StatsError>)
    ensures
        ret == -1 ==> r == Err::<(), StatsError>(StatsError::Os(errno)),
        ret != -1 ==> r == Ok::<(), StatsError>(()),
{
    check_status(ret, errno)
}

/// User-mode ticks of all cores together.
pub open spec fn user_total(records: Seq<CoreTicks>) -> nat
    decreases records.len(),
{
    if records.len() == 0 {
        0
    } else {
        user_total(records.drop_last()) + records.last().0 as nat
    }
}

/// Kernel-mode ticks of all cores together.
pub open spec fn system_total(records: Seq<CoreTicks>) -> nat
    decreases records.len(),
{
    if records.len() == 0 {
        0
    } else {
        system_total(records.drop_last()) + records.last().1 as nat
    }
}

/// The totals of a prefix of the records do not exceed those of all of them.
pub proof fn lemma_totals_monotonic(records: Seq<CoreTicks>, k: int)
    requires
        0 <= k <= records.len(),
    ensures
        user_total(records.subrange(0, k)) <= user_total(records),
        system_total(records.subrange(0, k)) <= system_total(records),
    decreases records.len(),
{
    if k == records.len() {
        assert(records.subrange(0, k) =~= records);
    } else {
        assert(records.drop_last().subrange(0, k) =~= records.subrange(0, k));
        lemma_totals_monotonic(records.drop_last(), k);
    }
}

/// The totals depend on the user and system counters alone: two runs of
/// records that agree on those, core by core, have the same totals, whatever
/// their idle and nice counters are.
pub proof fn lemma_totals_ignore_idle_and_nice(a: Seq<CoreTicks>, b: Seq<CoreTicks>)
    requires
        a.len() == b.len(),
        forall|k: int| 0 <= k < a.len() ==> a[k].0 == b[k].0 && a[k].1 == b[k].1,
    ensures
        user_total(a) == user_total(b),
        system_total(a) == system_total(b),
    decreases a.len(),
{
    if a.len() > 0 {
        lemma_totals_ignore_idle_and_nice(a.drop_last(), b.drop_last());
    }
}

/// Sums the user and the system counters over all cores, each into 64 bits.
pub fn core_totals(records: &[CoreTicks]) -> (r: Result<(u64, u64), StatsError>)
    ensures
        user_total(records@) <= u64::MAX && system_total(records@) <= u64::MAX ==> r == Ok::<
            (u64, u64),
            StatsError,
        >((user_total(records@) as u64, system_total(records@) as u64)),
        user_total(records@) > u64::MAX || system_total(records@) > u64::MAX ==> r == Err::<
            (u64, u64),
            StatsError,
        >(StatsError::Overflow),
{
    let n = records.len();
    let mut user: u64 = 0;
    let mut system: u64 = 0;
    let mut k: usize = 0;
    while k < n
        invariant
            n == records@.len(),
            k <= n,
            user == user_total(records@.subrange(0, k as int)),
            system == system_total(records@.subrange(0, k as int)),
        decreases n - k,
    {
        let record = records[k];
        proof {
            let next = records@.subrange(0, k + 1);
            assert(next.drop_last() =~= records@.subrange(0, k as int));
            assert(next.last() == record);
            lemma_totals_monotonic(records@, k + 1);
        }
        let grown_user = user.checked_add(record.0 as u64);
        let grown_system = system.checked_add(record.1 as u64);
        match (grown_user, grown_system) {
            (Some(u), Some(s)) => {
                user = u;
                system = s;
            },
            _ => {
                return Err(StatsError::Overflow);
            },
        }
        k += 1;
    }
    assert(records@.subrange(0, n as int) =~= records@);
    Ok((user, system))
}

/// The reading that the per-core records give at `ticks` per second, as
/// nanoseconds of user and of kernel time: a failed release of the host
/// handle comes first, then totals beyond 64 bits, then an invalid frequency.
pub open spec fn host_reading(
    records: Seq<CoreTicks>,
    port_ret: i32,
    port_errno: i32,
    ticks: usize,
) -> Result<(nat, nat), StatsError> {
    if port_ret == -1 {
        Err(StatsError::Os(port_errno))
    } else if user_total(records) > u64::MAX || system_total(records) > u64::MAX {
        Err(StatsError::Overflow)
    } else if !valid_ticks(ticks) {
        Err(StatsError::InvalidTickRate)
    } else {
        Ok(
            (
                scaled_nanos(user_total(records) as u64, ticks),
                scaled_nanos(system_total(records) as u64, ticks),
            ),
        )
    }
}

/// Aggregate CPU times from the per-core records of a host query. `port_ret`
/// and `port_errno` are the status and error code of releasing the host
/// handle after the query.
pub fn cpu_stats(records: &[CoreTicks], port_ret: i32, port_errno: i32, ticks: usize) -> (r: Result<
    CpuStats,
    StatsError,
>)
    ensures
        match host_reading(records@, port_ret, port_errno, ticks) {
            Ok(reading) => r is Ok && r->Ok_0@ == reading,
            Err(e) => r == Err::<CpuStats, StatsError>(e),
        },
{
    match deallocate_host_port(port_ret, port_errno) {
        Err(e) => {
            return Err(e);
        },
        Ok(_) => {},
    }
    let (user_ticks, system_ticks) = match core_totals(records) {
        Err(e) => {
            return Err(e);
        },
        Ok(totals) => totals,
    };
    let user = match ticks_to_duration(user_ticks, ticks) {
        Err(e) => {
            return Err(e);
        },
        Ok(d) => d,
    };
    let system = match ticks_to_duration(system_ticks, ticks) {
        Err(e) => {
            return Err(e);
        },
        Ok(d) => d,
    };
    Ok(CpuStats { user, system })
}

/// The reading does not reflect idle and nice counters: two runs of records
/// that agree on the user and system counters, core by core, give the same
/// reading under the same release status and frequency.
pub proof fn lemma_reading_ignores_idle_and_nice(
    a: Seq<CoreTicks>,
    b: Seq<CoreTicks>,
    port_ret: i32,
    port_errno: i32,
    ticks: usize,
)
    requires
        a.len() == b.len(),
        forall|k: int| 0 <= k < a.len() ==> a[k].0 == b[k].0 && a[k].1 == b[k].1,
    ensures
        host_reading(a, port_ret, port_errno, ticks) == host_reading(b, port_ret, port_errno, ticks),
{
    lemma_totals_ignore_idle_and_nice(a, b);
}

} // verus!
