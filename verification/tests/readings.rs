use cpustat::{
    clock_ticks, core_totals, cpu_stats, deallocate_host_port, decode_processor_info,
    get_host_processor_info, parse_to_duration, read_proc_stat_cpu, sysconf_clock_ticks,
    ticks_to_duration, CpuStats, StatsError, TickCache,
};
use std::time::Duration;

#[test]
fn test_clock_ticks() {
    let mut cache = TickCache::new();
    let ticks = clock_ticks(&mut cache, 100, 0).unwrap();
    assert!(ticks > 0);
}

#[test]
fn test_cpu_stats() {
    let records = vec![(100, 50, 10, 5), (200, 75, 20, 5)];
    let stats = cpu_stats(&records, 0, 0, 100).unwrap();
    assert!(!stats.user.is_zero());
    assert!(!stats.system.is_zero());
}

#[test]
fn conversion_divides_whole_seconds_by_the_frequency() {
    assert_eq!(ticks_to_duration(1000, 100), Ok(Duration::from_secs(10)));
    assert_eq!(ticks_to_duration(500, 100), Ok(Duration::from_secs(5)));
    assert_eq!(ticks_to_duration(7, 2), Ok(Duration::new(3, 500_000_000)));
    assert_eq!(ticks_to_duration(1, 3), Ok(Duration::new(0, 333_333_333)));
    assert_eq!(ticks_to_duration(0, 100), Ok(Duration::ZERO));
    assert_eq!(ticks_to_duration(42, 1), Ok(Duration::from_secs(42)));
}

#[test]
fn conversion_differs_from_a_plain_quotient_of_seconds() {
    let d = ticks_to_duration(150, 100).unwrap();
    assert_eq!(d.as_secs(), 1);
    assert_eq!(d.subsec_nanos(), 500_000_000);
    assert_ne!(d, Duration::from_secs(150 / 100));
}

#[test]
fn conversion_is_the_same_on_every_call() {
    let first = ticks_to_duration(123_456_789, 250);
    let second = ticks_to_duration(123_456_789, 250);
    assert_eq!(first, second);
    assert_eq!(first, Ok(Duration::from_secs(123_456_789) / 250));
}

#[test]
fn conversion_of_the_largest_counter() {
    assert_eq!(ticks_to_duration(u64::MAX, 1), Ok(Duration::from_secs(u64::MAX)));
    assert_eq!(
        ticks_to_duration(u64::MAX, u32::MAX as usize),
        Ok(Duration::from_secs(u64::MAX) / u32::MAX)
    );
}

#[test]
fn conversion_refuses_an_invalid_frequency() {
    assert_eq!(ticks_to_duration(1000, 0), Err(StatsError::InvalidTickRate));
    if usize::BITS > 32 {
        let beyond = (u32::MAX as u64 + 1) as usize;
        assert_eq!(ticks_to_duration(1000, beyond), Err(StatsError::InvalidTickRate));
    }
    assert!(ticks_to_duration(1000, u32::MAX as usize).is_ok());
}

#[test]
fn a_small_counter_at_a_high_frequency_is_zero() {
    assert_eq!(ticks_to_duration(1, 1_000_000_001), Ok(Duration::ZERO));
    assert_eq!(ticks_to_duration(1, 1_000_000_000), Ok(Duration::new(0, 1)));
}

#[test]
fn counter_text_is_parsed_and_converted() {
    assert_eq!(parse_to_duration("1000", 100), Ok(Duration::from_secs(10)));
    assert_eq!(parse_to_duration("+1000", 100), Ok(Duration::from_secs(10)));
    assert_eq!(parse_to_duration("0007", 2), Ok(Duration::new(3, 500_000_000)));
    assert_eq!(parse_to_duration("0", 100), Ok(Duration::ZERO));
    assert_eq!(
        parse_to_duration("18446744073709551615", 1),
        Ok(Duration::from_secs(u64::MAX))
    );
}

#[test]
fn counter_text_that_is_no_number_is_malformed() {
    for text in ["", "+", "-", "-1", "12a", "a12", " 12", "12 ", "1.5", "++1", "+-1", "١٢"] {
        assert_eq!(parse_to_duration(text, 100), Err(StatsError::Malformed));
    }
    assert_eq!(parse_to_duration("18446744073709551616", 100), Err(StatsError::Malformed));
    assert_eq!(parse_to_duration("99999999999999999999999", 100), Err(StatsError::Malformed));
}

#[test]
fn counter_text_agrees_with_the_standard_parser() {
    for text in ["0", "1", "+0", "00", "4294967296", "18446744073709551615", "x", "", "+", "-0"] {
        let expected = match text.parse::<u64>() {
            Ok(raw) => Ok(Duration::from_secs(raw) / 100),
            Err(_) => Err(StatsError::Malformed),
        };
        assert_eq!(parse_to_duration(text, 100), expected);
    }
}

#[test]
fn counter_text_is_judged_before_the_frequency() {
    assert_eq!(parse_to_duration("x", 0), Err(StatsError::Malformed));
    assert_eq!(parse_to_duration("1", 0), Err(StatsError::InvalidTickRate));
}

#[test]
fn statistics_line_gives_second_and_fourth_field() {
    let stats = read_proc_stat_cpu("cpu 1000 200 500 300 7 8 9 10 11 12", 1).unwrap();
    assert_eq!(stats.user, Duration::from_secs(1000));
    assert_eq!(stats.system, Duration::from_secs(500));
    let scaled = read_proc_stat_cpu("cpu 1000 200 500 300 7 8 9 10 11 12", 100).unwrap();
    assert_eq!(scaled.user, Duration::from_secs(10));
    assert_eq!(scaled.system, Duration::from_secs(5));
}

#[test]
fn statistics_line_ignores_label_third_and_later_fields() {
    let a = read_proc_stat_cpu("cpu 1000 200 500 300", 100).unwrap();
    let b = read_proc_stat_cpu("anything 1000 nonsense 500 -3 x y z", 100).unwrap();
    assert_eq!(a.user, b.user);
    assert_eq!(a.system, b.system);
    assert_eq!(b.user, Duration::from_secs(10));
    assert_eq!(b.system, Duration::from_secs(5));
}

#[test]
fn statistics_text_counts_only_its_first_line() {
    let text = "cpu  74608 2520 24433 1117073 6176 4054 0 0 0 0\ncpu0 1 2 3 4 5 6 7 8 9 10\n";
    let stats = read_proc_stat_cpu(text, 100).unwrap();
    assert_eq!(stats.user, Duration::new(746, 80_000_000));
    assert_eq!(stats.system, Duration::new(244, 330_000_000));
    let short = read_proc_stat_cpu("cpu 12\n34 56 78\n", 1).unwrap();
    assert_eq!(short.user, Duration::from_secs(12));
    assert_eq!(short.system, Duration::ZERO);
    let bare = read_proc_stat_cpu("cpu\n1 2 3 4\n", 1).unwrap();
    assert_eq!(bare.user, Duration::ZERO);
    assert_eq!(bare.system, Duration::ZERO);
}

#[test]
fn statistics_line_splits_on_any_ascii_whitespace() {
    let stats = read_proc_stat_cpu("\t cpu\t\t300 \x0c 1 \r 200\r\n", 100).unwrap();
    assert_eq!(stats.user, Duration::from_secs(3));
    assert_eq!(stats.system, Duration::from_secs(2));
    let vertical_tab = read_proc_stat_cpu("cpu 300\x0b1 2 200", 100);
    assert_eq!(vertical_tab.unwrap_err(), StatsError::Malformed);
    let no_break_space = read_proc_stat_cpu("cpu\u{a0}300 1 200", 100).unwrap();
    assert_eq!(no_break_space.user, Duration::from_millis(10));
    assert_eq!(no_break_space.system, Duration::ZERO);
}

#[test]
fn statistics_line_with_missing_fields_leaves_zero() {
    for text in ["", "\n", "   ", "cpu", "cpu\n"] {
        let stats = read_proc_stat_cpu(text, 100).unwrap();
        assert_eq!(stats.user, Duration::ZERO);
        assert_eq!(stats.system, Duration::ZERO);
    }
    for text in ["cpu 1000", "cpu 1000 200", "cpu 1000 200\n"] {
        let stats = read_proc_stat_cpu(text, 100).unwrap();
        assert_eq!(stats.user, Duration::from_secs(10));
        assert_eq!(stats.system, Duration::ZERO);
    }
}

#[test]
fn statistics_line_without_counters_never_asks_for_the_frequency() {
    let stats = read_proc_stat_cpu("cpu", 0).unwrap();
    assert_eq!(stats.user, Duration::ZERO);
    assert_eq!(stats.system, Duration::ZERO);
    assert_eq!(read_proc_stat_cpu("cpu 1", 0).unwrap_err(), StatsError::InvalidTickRate);
}

#[test]
fn statistics_line_with_a_bad_counter_is_malformed() {
    assert_eq!(read_proc_stat_cpu("cpu x 200 500", 100).unwrap_err(), StatsError::Malformed);
    assert_eq!(read_proc_stat_cpu("cpu 1000 200 y", 100).unwrap_err(), StatsError::Malformed);
    assert_eq!(read_proc_stat_cpu("cpu -5 200 500", 100).unwrap_err(), StatsError::Malformed);
    assert_eq!(
        read_proc_stat_cpu("cpu 18446744073709551616 200 500", 100).unwrap_err(),
        StatsError::Malformed
    );
    assert_eq!(read_proc_stat_cpu("cpu x 200 500", 0).unwrap_err(), StatsError::Malformed);
    assert_eq!(read_proc_stat_cpu("cpu 1 200 y", 0).unwrap_err(), StatsError::InvalidTickRate);
}

#[test]
fn statistics_text_agrees_with_the_standard_splitter() {
    let texts = [
        "cpu 1000 200 500 300",
        "  cpu\t9 8\r7 6  ",
        "cpu 5",
        "",
        "a b c d e f",
        "cpu 3 4 5\n6 7 8 9",
    ];
    for text in texts {
        let line = text.split('\n').next().unwrap();
        let fields: Vec<&str> = line.split_ascii_whitespace().collect();
        let expect = |n: usize| match fields.get(n) {
            None => Ok(Duration::ZERO),
            Some(v) => match v.parse::<u64>() {
                Ok(raw) => Ok(Duration::from_secs(raw) / 100),
                Err(_) => Err(StatsError::Malformed),
            },
        };
        let got = read_proc_stat_cpu(text, 100);
        match (expect(1), expect(3)) {
            (Ok(user), Ok(system)) => {
                let stats = got.unwrap();
                assert_eq!(stats.user, user);
                assert_eq!(stats.system, system);
            }
            (Err(e), _) | (Ok(_), Err(e)) => assert_eq!(got.unwrap_err(), e),
        }
    }
}

#[test]
fn raw_counters_decode_four_to_a_core() {
    let raw = [100, 50, 10, 5, 200, 75, 20, 5];
    assert_eq!(
        decode_processor_info(&raw),
        Ok(vec![(100, 50, 10, 5), (200, 75, 20, 5)])
    );
    assert_eq!(decode_processor_info(&[]), Ok(vec![]));
    assert_eq!(
        decode_processor_info(&[i32::MAX, 0, 1, 2]),
        Ok(vec![(i32::MAX as usize, 0, 1, 2)])
    );
}

#[test]
fn raw_counters_that_are_no_whole_records_are_malformed() {
    assert_eq!(decode_processor_info(&[1]), Err(StatsError::Malformed));
    assert_eq!(decode_processor_info(&[1, 2, 3]), Err(StatsError::Malformed));
    assert_eq!(decode_processor_info(&[1, 2, 3, 4, 5]), Err(StatsError::Malformed));
    assert_eq!(decode_processor_info(&[-1, 2, 3, 4, 5]), Err(StatsError::Malformed));
}

#[test]
fn negative_raw_counter_is_an_error() {
    assert_eq!(decode_processor_info(&[-1, 2, 3, 4]), Err(StatsError::NegativeCounter));
    assert_eq!(decode_processor_info(&[1, -2, 3, 4]), Err(StatsError::NegativeCounter));
    assert_eq!(decode_processor_info(&[1, 2, -3, 4]), Err(StatsError::NegativeCounter));
    assert_eq!(decode_processor_info(&[1, 2, 3, i32::MIN]), Err(StatsError::NegativeCounter));
    assert_eq!(
        decode_processor_info(&[1, 2, 3, 4, 5, 6, 7, -8]),
        Err(StatsError::NegativeCounter)
    );
}

#[test]
fn host_query_reports_each_failure_in_order() {
    let raw = [100, 50, 10, 5];
    assert_eq!(get_host_processor_info(0, 0, &raw, 0, 0), Ok(vec![(100, 50, 10, 5)]));
    assert_eq!(get_host_processor_info(-1, 13, &raw, 0, 0), Err(StatsError::Os(13)));
    assert_eq!(get_host_processor_info(-1, 13, &raw, -1, 9), Err(StatsError::Os(13)));
    assert_eq!(get_host_processor_info(-1, 13, &[1], 0, 0), Err(StatsError::Os(13)));
    assert_eq!(get_host_processor_info(0, 0, &raw, -1, 9), Err(StatsError::Os(9)));
    assert_eq!(get_host_processor_info(0, 0, &[1, 2], -1, 9), Err(StatsError::Malformed));
    assert_eq!(
        get_host_processor_info(0, 0, &[1, 2, 3, -4], -1, 9),
        Err(StatsError::NegativeCounter)
    );
    assert_eq!(get_host_processor_info(5, 1, &raw, 4, 2), Ok(vec![(100, 50, 10, 5)]));
}

#[test]
fn releasing_the_host_handle_fails_on_minus_one_only() {
    assert_eq!(deallocate_host_port(0, 0), Ok(()));
    assert_eq!(deallocate_host_port(0, 22), Ok(()));
    assert_eq!(deallocate_host_port(1, 22), Ok(()));
    assert_eq!(deallocate_host_port(-2, 22), Ok(()));
    assert_eq!(deallocate_host_port(-1, 22), Err(StatsError::Os(22)));
    assert_eq!(cpustat::error::check_status(-1, 5), Err(StatsError::Os(5)));
    assert_eq!(cpustat::error::check_status(3, 5), Ok(()));
}

#[test]
fn cores_are_summed_before_conversion() {
    let records = [(100, 50, 10, 5), (200, 75, 20, 5)];
    assert_eq!(core_totals(&records), Ok((300, 125)));
    assert_eq!(core_totals(&[]), Ok((0, 0)));
    let stats = cpu_stats(&records, 0, 0, 100).unwrap();
    assert_eq!(stats.user, Duration::from_secs(3));
    assert_eq!(stats.system, Duration::new(1, 250_000_000));
    let at_one = cpu_stats(&records, 0, 0, 1).unwrap();
    assert_eq!(at_one.user, Duration::from_secs(300));
    assert_eq!(at_one.system, Duration::from_secs(125));
}

#[test]
fn idle_and_nice_are_not_reflected() {
    let a = [(100, 50, 10, 5), (200, 75, 20, 5)];
    let b = [(100, 50, 999_999, 0), (200, 75, 0, 123_456)];
    assert_eq!(core_totals(&a), core_totals(&b));
    let sa = cpu_stats(&a, 0, 0, 100).unwrap();
    let sb = cpu_stats(&b, 0, 0, 100).unwrap();
    assert_eq!(sa.user, sb.user);
    assert_eq!(sa.system, sb.system);
}

#[test]
fn totals_beyond_sixty_four_bits_overflow() {
    let big = [(usize::MAX, 0, 0, 0); 3];
    if usize::BITS == 64 {
        assert_eq!(core_totals(&big[..1]), Ok((u64::MAX, 0)));
        assert_eq!(core_totals(&big[..2]), Err(StatsError::Overflow));
        assert_eq!(core_totals(&[(0, usize::MAX, 0, 0), (0, 1, 0, 0)]), Err(StatsError::Overflow));
        assert_eq!(cpu_stats(&big, 0, 0, 100).unwrap_err(), StatsError::Overflow);
        assert_eq!(cpu_stats(&big, 0, 0, 0).unwrap_err(), StatsError::Overflow);
        assert_eq!(cpu_stats(&big, -1, 4, 100).unwrap_err(), StatsError::Os(4));
    } else {
        assert!(core_totals(&big).is_ok());
    }
    assert_eq!(core_totals(&[(1, 2, usize::MAX, usize::MAX); 4]), Ok((4, 8)));
}

#[test]
fn host_reading_reports_each_failure_in_order() {
    let records = [(100, 50, 10, 5)];
    assert_eq!(cpu_stats(&records, -1, 16, 100).unwrap_err(), StatsError::Os(16));
    assert_eq!(cpu_stats(&records, -1, 16, 0).unwrap_err(), StatsError::Os(16));
    assert_eq!(cpu_stats(&records, 0, 16, 0).unwrap_err(), StatsError::InvalidTickRate);
    assert_eq!(cpu_stats(&[], 0, 0, 0).unwrap_err(), StatsError::InvalidTickRate);
    let none = cpu_stats(&[], 0, 0, 100).unwrap();
    assert_eq!(none.user, Duration::ZERO);
    assert_eq!(none.system, Duration::ZERO);
}

#[test]
fn tick_query_answer_is_judged() {
    assert_eq!(sysconf_clock_ticks(100, 0), Ok(100));
    assert_eq!(sysconf_clock_ticks(1, 0), Ok(1));
    assert_eq!(sysconf_clock_ticks(u32::MAX as i64, 0), Ok(u32::MAX as usize));
    assert_eq!(sysconf_clock_ticks(-1, 22), Err(StatsError::Os(22)));
    assert_eq!(sysconf_clock_ticks(0, 22), Err(StatsError::InvalidTickRate));
    assert_eq!(sysconf_clock_ticks(-2, 22), Err(StatsError::InvalidTickRate));
    assert_eq!(sysconf_clock_ticks(i64::MIN, 22), Err(StatsError::InvalidTickRate));
}

#[test]
fn tick_query_answer_above_thirty_two_bits_is_returned() {
    if usize::BITS == 64 {
        let beyond = u32::MAX as i64 + 1;
        assert_eq!(sysconf_clock_ticks(beyond, 0), Ok(beyond as usize));
        assert_eq!(sysconf_clock_ticks(i64::MAX, 0), Ok(i64::MAX as usize));
        let mut cache = TickCache::new();
        assert_eq!(clock_ticks(&mut cache, beyond, 0), Ok(beyond as usize));
        assert_eq!(cache.get(), Some(beyond as usize));
        assert_eq!(clock_ticks(&mut cache, 100, 0), Ok(beyond as usize));
        assert_eq!(ticks_to_duration(1000, beyond as usize), Err(StatsError::InvalidTickRate));
    } else {
        assert_eq!(sysconf_clock_ticks(i64::MAX, 0), Err(StatsError::InvalidTickRate));
        assert_eq!(sysconf_clock_ticks(u32::MAX as i64 + 1, 0), Err(StatsError::InvalidTickRate));
    }
}

#[test]
fn clock_ticks_are_resolved_once_and_kept() {
    let mut cache = TickCache::new();
    assert_eq!(cache.get(), None);
    assert_eq!(clock_ticks(&mut cache, 100, 0), Ok(100));
    assert_eq!(cache.get(), Some(100));
    assert_eq!(clock_ticks(&mut cache, 250, 0), Ok(100));
    assert_eq!(clock_ticks(&mut cache, -1, 5), Ok(100));
    assert_eq!(clock_ticks(&mut cache, 0, 0), Ok(100));
    assert_eq!(cache.get(), Some(100));
}

#[test]
fn failed_tick_query_leaves_the_cache_empty() {
    let mut cache = TickCache::new();
    assert_eq!(clock_ticks(&mut cache, -1, 38), Err(StatsError::Os(38)));
    assert_eq!(cache.get(), None);
    assert_eq!(clock_ticks(&mut cache, 0, 0), Err(StatsError::InvalidTickRate));
    assert_eq!(cache.get(), None);
    assert_eq!(clock_ticks(&mut cache, 1000, 0), Ok(1000));
    assert_eq!(cache.get(), Some(1000));
}

#[test]
fn resolved_ticks_within_thirty_two_bits_are_accepted_by_the_conversion() {
    let mut cache = TickCache::new();
    for answer in [1, 100, 1024, u32::MAX as i64] {
        let ticks = sysconf_clock_ticks(answer, 0).unwrap();
        assert_eq!(ticks, answer as usize);
        assert!(ticks_to_duration(1000, ticks).is_ok());
    }
    let ticks = clock_ticks(&mut cache, 100, 0).unwrap();
    assert_eq!(ticks_to_duration(1000, ticks), Ok(Duration::from_secs(10)));
}

#[test]
fn default_stats_are_zero() {
    let stats = CpuStats::default();
    assert_eq!(stats.user, Duration::ZERO);
    assert_eq!(stats.system, Duration::ZERO);
    let copy = stats;
    assert!(copy.user.is_zero() && stats.system.is_zero());
}
