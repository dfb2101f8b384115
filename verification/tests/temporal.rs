use chrono::{Local, TimeZone};
use lettuce_ai::memory::MemoryEmbedding;
use lettuce_ai::temporal::{
    detect_temporal_query_range, format_memory_for_prompt, memory_matches_temporal_range,
    normalized_query, parse_count, parse_i64, plan_temporal_range, time_placeholder_values,
    weekday_number, CivilDate, RangePlan, TemporalRange, range_from_midnights, range_from_local_dates,
    temporal_candidate_indices, LocalMoment,
};

fn local_ms(year: i32, month: u32, day: u32, hour: u32) -> u64 {
    Local
        .with_ymd_and_hms(year, month, day, hour, 0, 0)
        .earliest()
        .expect("valid local datetime")
        .timestamp_millis() as u64
}

fn memory(observed_at: Option<u64>) -> MemoryEmbedding {
    MemoryEmbedding {
        id: "123456".to_string(),
        text: "We went to the lake".to_string(),
        observed_at,
        embedding_len: 0,
        embedding_dimensions: None,
        embedding_source_version: None,
        is_pinned: false,
        is_cold: false,
    }
}

fn day(year: i32, month: u32, day: u32) -> CivilDate {
    CivilDate { year, month, day }
}

#[test]
fn parses_last_week() {
    let reference = local_ms(2026, 5, 10, 12);
    let range = detect_temporal_query_range("what place did we go to last week", reference)
        .expect("range");
    assert!(range.start_ms < range.end_ms);
}

#[test]
fn parses_days_ago() {
    let reference = local_ms(2026, 5, 10, 12);
    let range =
        detect_temporal_query_range("where did we eat 2 days ago", reference).expect("range");
    assert!(range.start_ms < range.end_ms);
}

#[test]
fn parses_last_saturday() {
    let reference = local_ms(2026, 5, 10, 12);
    let range =
        detect_temporal_query_range("what did we do after coffee last saturday", reference)
            .expect("range");
    assert!(range.start_ms < range.end_ms);
}

#[test]
fn parses_five_weeks_ago_today() {
    let reference = local_ms(2026, 5, 10, 12);
    let range = detect_temporal_query_range("what did we do 5 week ago today", reference)
        .expect("range");
    assert!(range.end_ms - range.start_ms <= 86_400_000);
}

#[test]
fn parses_word_number_weekday_ago() {
    let reference = local_ms(2026, 5, 10, 12);
    let range = detect_temporal_query_range("what did we do two fridays ago", reference)
        .expect("range");
    assert!(range.start_ms < range.end_ms);
}

#[test]
fn query_without_time_gives_no_range() {
    let reference = local_ms(2026, 5, 10, 12);
    assert!(detect_temporal_query_range("what is your favourite colour", reference).is_none());
}

#[test]
fn rolling_days_end_at_the_reference() {
    let reference = local_ms(2026, 5, 10, 12);
    let range = detect_temporal_query_range("where did we eat 2 days ago", reference).unwrap();
    assert_eq!(range.end_ms, reference);
    assert_eq!(range.start_ms, reference - 2 * 86_400_000);
}

#[test]
fn past_weeks_roll_back_seven_days_each() {
    let reference = local_ms(2026, 5, 10, 12);
    let range = detect_temporal_query_range("in the past 3 weeks", reference).unwrap();
    assert_eq!(range.end_ms, reference);
    assert_eq!(range.start_ms, reference - 21 * 86_400_000);
}

#[test]
fn yesterday_is_one_local_day_before_today() {
    let reference = local_ms(2026, 5, 10, 12);
    let range = detect_temporal_query_range("Yesterday, what happened?", reference).unwrap();
    assert!(range.start_ms < reference);
    assert!(range.end_ms <= reference);
    assert!(range.end_ms - range.start_ms <= 25 * 3_600_000);
}

#[test]
fn plan_for_yesterday_and_today() {
    let t = day(2026, 5, 10);
    assert_eq!(
        plan_temporal_range("yesterday", t),
        Some(RangePlan::Dates { start: day(2026, 5, 9), end: t })
    );
    assert_eq!(
        plan_temporal_range("tonight", t),
        Some(RangePlan::Dates { start: t, end: day(2026, 5, 11) })
    );
}

#[test]
fn plan_for_weeks_starts_on_monday() {
    // 2026-05-10 is a Sunday.
    let t = day(2026, 5, 10);
    assert_eq!(
        plan_temporal_range("this week", t),
        Some(RangePlan::Dates { start: day(2026, 5, 4), end: day(2026, 5, 11) })
    );
    assert_eq!(
        plan_temporal_range("last week", t),
        Some(RangePlan::Dates { start: day(2026, 4, 27), end: day(2026, 5, 4) })
    );
}

#[test]
fn plan_for_months_and_years() {
    let t = day(2026, 1, 15);
    assert_eq!(
        plan_temporal_range("last month", t),
        Some(RangePlan::Dates { start: day(2025, 12, 1), end: day(2026, 1, 1) })
    );
    let t = day(2026, 12, 3);
    assert_eq!(
        plan_temporal_range("earlier this month", t),
        Some(RangePlan::Dates { start: day(2026, 12, 1), end: day(2027, 1, 1) })
    );
    assert_eq!(
        plan_temporal_range("last year", t),
        Some(RangePlan::Dates { start: day(2025, 1, 1), end: day(2026, 1, 1) })
    );
    assert_eq!(
        plan_temporal_range("this year", t),
        Some(RangePlan::Dates { start: day(2026, 1, 1), end: day(2027, 1, 1) })
    );
}

#[test]
fn plan_for_weekdays() {
    // 2026-05-10 is a Sunday.
    let t = day(2026, 5, 10);
    assert_eq!(
        plan_temporal_range("last saturday", t),
        Some(RangePlan::Dates { start: day(2026, 5, 9), end: day(2026, 5, 10) })
    );
    assert_eq!(
        plan_temporal_range("last sunday", t),
        Some(RangePlan::Dates { start: day(2026, 5, 3), end: day(2026, 5, 4) })
    );
    assert_eq!(
        plan_temporal_range("this monday", t),
        Some(RangePlan::Dates { start: day(2026, 5, 4), end: day(2026, 5, 5) })
    );
    assert_eq!(
        plan_temporal_range("two fridays ago", t),
        Some(RangePlan::Dates { start: day(2026, 5, 1), end: day(2026, 5, 2) })
    );
}

#[test]
fn plan_for_units_ago() {
    let t = day(2026, 3, 31);
    assert_eq!(plan_temporal_range("2 days ago", t), Some(RangePlan::Rolling { days: 2 }));
    // "today" is read as the phrase before any pattern is tried.
    assert_eq!(
        plan_temporal_range("2 days ago today", t),
        Some(RangePlan::Dates { start: t, end: day(2026, 4, 1) })
    );
    assert_eq!(
        plan_temporal_range("one month ago tonight", t),
        Some(RangePlan::Dates { start: t, end: day(2026, 4, 1) })
    );
    assert_eq!(
        plan_temporal_range("3 months ago", t),
        Some(RangePlan::Dates { start: day(2025, 12, 1), end: day(2026, 1, 1) })
    );
    assert_eq!(
        plan_temporal_range("a year ago", t),
        None
    );
    assert_eq!(
        plan_temporal_range("2 years ago", t),
        Some(RangePlan::Dates { start: day(2024, 1, 1), end: day(2025, 1, 1) })
    );
}

#[test]
fn plan_for_past_ranges() {
    let t = day(2026, 3, 31);
    assert_eq!(plan_temporal_range("past 2 days", t), Some(RangePlan::Rolling { days: 2 }));
    assert_eq!(plan_temporal_range("last 2 weeks", t), Some(RangePlan::Rolling { days: 14 }));
    assert_eq!(
        plan_temporal_range("within the last 3 months", t),
        Some(RangePlan::Rolling { days: 90 })
    );
    assert_eq!(plan_temporal_range("previous 2 years", t), Some(RangePlan::Rolling { days: 730 }));
}

#[test]
fn normalizes_punctuation_and_case() {
    assert_eq!(normalized_query("Last-Week? YES!"), "last week  yes ");
}

#[test]
fn parses_counts() {
    assert_eq!(parse_count("twelve"), Some(12));
    assert_eq!(parse_count("one"), Some(1));
    assert_eq!(parse_count("42"), Some(42));
    assert_eq!(parse_count("a dozen"), None);
}

#[test]
fn parses_integers_like_std() {
    for text in ["0", "+7", "-7", "9223372036854775807", "-9223372036854775808"] {
        assert_eq!(parse_i64(text), text.parse::<i64>().ok(), "{}", text);
    }
    for text in ["", "+", "-", "9223372036854775808", "1 ", "12a", "١٢"] {
        assert_eq!(parse_i64(text), None, "{}", text);
    }
}

#[test]
fn weekday_numbers_start_on_monday() {
    assert_eq!(weekday_number("monday"), Some(0));
    assert_eq!(weekday_number("sunday"), Some(6));
    assert_eq!(weekday_number("Sunday"), None);
}

#[test]
fn memory_matches_half_open_range() {
    let range = TemporalRange { start_ms: 100, end_ms: 200 };
    assert!(memory_matches_temporal_range(&memory(Some(100)), &range));
    assert!(memory_matches_temporal_range(&memory(Some(199)), &range));
    assert!(!memory_matches_temporal_range(&memory(Some(200)), &range));
    assert!(!memory_matches_temporal_range(&memory(Some(99)), &range));
    assert!(!memory_matches_temporal_range(&memory(None), &range));
}

#[test]
fn memory_line_without_time() {
    assert_eq!(format_memory_for_prompt(&memory(None)), "- We went to the lake");
}

#[test]
fn memory_line_with_time() {
    let line = format_memory_for_prompt(&memory(Some(local_ms(2026, 5, 10, 12))));
    assert!(line.starts_with("- We went to the lake (observed 2026-05-10 12:00"));
    assert!(line.ends_with(')'));
}

#[test]
fn time_placeholders_in_order() {
    let values = time_placeholder_values(local_ms(2026, 5, 10, 9));
    let keys: Vec<&str> = values.iter().map(|(k, _)| *k).collect();
    assert_eq!(
        keys,
        vec![
            "{{date}}",
            "{{date_full}}",
            "{{weekday}}",
            "{{time_hour}}",
            "{{time_minute}}",
            "{{time_second}}",
            "{{time_full}}",
            "{{time_12hour_format}}",
            "{{time_timezone}}",
            "{{time_timezone_name}}",
            "{{datetime_iso}}",
        ]
    );
    assert_eq!(values[0].1, "2026-05-10");
    assert_eq!(values[1].1, "Sunday, May 10, 2026");
    assert_eq!(values[2].1, "Sunday");
    assert_eq!(values[3].1, "09");
    assert_eq!(values[7].1, "09:00 AM");
}

fn moment(millis: i64, day: u32) -> LocalMoment {
    LocalMoment {
        millis,
        offset_secs: 0,
        date: CivilDate { year: 2024, month: 3, day },
        secs_of_day: 0,
    }
}

fn bounds(r: TemporalRange) -> (u64, u64) {
    (r.start_ms, r.end_ms)
}

#[test]
fn ranges_are_built_from_midnights() {
    let a = moment(1_709_251_200_000, 1);
    let b = moment(1_709_337_600_000, 2);
    let now = LocalMoment {
        millis: 1_709_400_000_000,
        offset_secs: 0,
        date: CivilDate { year: 2024, month: 3, day: 2 },
        secs_of_day: 62_400,
    };
    assert_eq!(bounds(range_from_local_dates(a, b)), (1_709_251_200_000, 1_709_337_600_000));
    assert_eq!(bounds(range_from_midnights(Some(a), Some(b), now)), (1_709_251_200_000, 1_709_337_600_000));
    assert_eq!(bounds(range_from_midnights(Some(a), None, now)), (1_709_251_200_000, 1_709_400_000_000));
    assert_eq!(bounds(range_from_midnights(None, Some(b), now)), (1_709_400_000_000, 1_709_337_600_000));
    assert_eq!(range_from_local_dates(moment(-5, 1), b).start_ms, 0);
}

#[test]
fn temporal_candidates_are_the_memories_in_range() {
    let ms = vec![memory(Some(5)), memory(None), memory(Some(10)), memory(Some(7)), memory(Some(20))];
    let range = TemporalRange { start_ms: 5, end_ms: 10 };
    assert_eq!(temporal_candidate_indices(&ms, &range), vec![0, 3]);
}
