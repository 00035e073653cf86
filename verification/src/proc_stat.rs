use crate::decimal::{parse_u64, parse_u64_spec};
use crate::duration::{duration_nanos, scaled_nanos, ticks_to_duration, valid_ticks, CpuStats};
use crate::error::StatsError;
use crate::fields::{first_line, first_line_field, lemma_first_line_is_one_line, line_field};
use std::time::Duration;
use vstd::prelude::*;
use vstd::string::StringSliceAdditionalSpecFns;

verus! {

/// Position of the user-mode counter among the fields of the statistics line.
pub const USER_FIELD: usize = 1;

/// Position of the kernel-mode counter among the fields of the statistics line.
pub const SYSTEM_FIELD: usize = 3;

/// What a counter text stands for at `ticks` per second, in nanoseconds: the
/// text must read as an unsigned number, and the frequency must be valid; the
/// text is judged first.
pub open spec fn counter_nanos(v: Seq<u8>, ticks: usize) -> Result<nat, StatsError> {
    match parse_u64_spec(v) {
        None => Err(StatsError::Malformed),
        Some(raw) => if valid_ticks(ticks) {
            Ok(scaled_nanos(raw, ticks))
        } else {
            Err(StatsError::InvalidTickRate)
        },
    }
}

/// What a field contributes: no time where the line has no such field, else
/// what its text stands for.
pub open spec fn field_nanos(field: Option<Seq<u8>>, ticks: usize) -> Result<nat, StatsError> {
    match field {
        None => Ok(0),
        Some(v) => counter_nanos(v, ticks),
    }
}

/// The reading that the two counter fields give, the user field judged
/// before the kernel field.
pub open spec fn reading_of(
    user: Option<Seq<u8>>,
    system: Option<Seq<u8>>,
    ticks: usize,
) -> Result<(nat, nat), StatsError> {
    match field_nanos(user, ticks) {
        Err(e) => Err(e),
        Ok(user_nanos) => match field_nanos(system, ticks) {
            Err(e) => Err(e),
            Ok(system_nanos) => Ok((user_nanos, system_nanos)),
        },
    }
}

/// The reading that a statistics text gives: user time from the second field
/// of its first line and kernel time from the fourth, as nanoseconds. The
/// label in front, the third field and all later ones play no part, nor does
/// any later line. The user field is judged before the kernel field.
pub open spec fn proc_stat_reading(text: Seq<u8>, ticks: usize) -> Result<(nat, nat), StatsError> {
    reading_of(
        first_line_field(text, USER_FIELD as int),
        first_line_field(text, SYSTEM_FIELD as int),
        ticks,
    )
}

/// Two texts whose first lines agree on the second and on the fourth field
/// give the same reading: the label, the third field and every field from the
/// fifth on are ignored.
pub proof fn lemma_reading_uses_two_fields(a: Seq<u8>, b: Seq<u8>, ticks: usize)
    requires
        first_line_field(a, USER_FIELD as int) == first_line_field(b, USER_FIELD as int),
        first_line_field(a, SYSTEM_FIELD as int) == first_line_field(b, SYSTEM_FIELD as int),
    ensures
        proc_stat_reading(a, ticks) == proc_stat_reading(b, ticks),
{
}

/// What follows the first line is ignored: a text reads as its first line
/// alone does.
pub proof fn lemma_reading_uses_first_line(text: Seq<u8>, ticks: usize)
    ensures
        proc_stat_reading(text, ticks) == proc_stat_reading(first_line(text), ticks),
{
    lemma_first_line_is_one_line(text);
}

/// Whether a duration spans what a reading asks for.
pub open spec fn duration_matches(r: Result<Duration, StatsError>, want: Result<nat, StatsError>) -> bool {
    match want {
        Ok(nanos) => r is Ok && duration_nanos(r->Ok_0) == nanos,
        Err(e) => r == Err::<Duration, StatsError>(e),
    }
}

/// Converts the bytes of one counter field to a duration.
pub fn counter_to_duration(v: &[u8], ticks: usize) -> (r: Result<Duration, StatsError>)
    ensures
        duration_matches(r, counter_nanos(v@, ticks)),
{
    match parse_u64(v) {
        Some(raw) => ticks_to_duration(raw, ticks),
        None => Err(StatsError::Malformed),
    }
}

/// Converts the text of one counter field to a duration: the text is read as
/// an unsigned decimal number of ticks, taken as whole seconds and divided by
/// the tick frequency.
pub fn parse_to_duration(v: &str, ticks: usize) -> (r: Result<Duration, StatsError>)
    ensures
        duration_matches(r, counter_nanos(v.spec_bytes(), ticks)),
{
    counter_to_duration(v.as_bytes(), ticks)
}

/// Reads the aggregate CPU times off the kernel's statistics text, of which
/// only the first line counts.
pub fn read_proc_stat_cpu(text: &str, ticks: usize) -> (r: Result<CpuStats, StatsError>)
    ensures
        match proc_stat_reading(text.spec_bytes(), ticks) {
            Ok(reading) => r is Ok && r->Ok_0@ == reading,
            Err(e) => r == Err::<CpuStats, StatsError>(e),
        },
{
    let bytes = text.as_bytes();
    let mut stats = CpuStats::default();
    match line_field(bytes, USER_FIELD) {
        Some(v) => match counter_to_duration(v, ticks) {
            Ok(d) => {
                stats.user = d;
            },
            Err(e) => {
                return Err(e);
            },
        },
        None => {},
    }
    match line_field(bytes, SYSTEM_FIELD) {
        Some(v) => match counter_to_duration(v, ticks) {
            Ok(d) => {
                stats.system = d;
            },
            Err(e) => {
                return Err(e);
            },
        },
        None => {},
    }
    Ok(stats)
}

} // verus!
