use balloon_predictor::calendar::{parse_date_midnight, parse_rfc3339, rfc3339};
use balloon_predictor::runs::{
    available_gfs_runs, choose_available_run, dates_readable, parse_available_gfs_cycles,
    parse_available_gfs_dates, resolve_gfs_run_time, resolve_gfs_run_time_at,
    select_available_gfs_run_time, select_model_run_time,
};
use balloon_predictor::time::{floor_to_gfs_cycle, UtcTime};

fn utc(value: &str) -> UtcTime {
    parse_rfc3339(value).expect("valid UTC timestamp")
}

const PAGE: &str = r#"
            <span onClick="click_subdir(0, 'gfs.20260909', this)">gfs.20260909</span>
            <span onClick="click_subdir(0, 'gfs.20260908', this)">gfs.20260908</span>
            <h2>Cycle:</h2>
            <span onClick="click_subdir(1, '18', this)">18</span>
            <span onClick="click_subdir(1, '12', this)">12</span>
            <span onClick="click_subdir(1, '06', this)">06</span>
            <span onClick="click_subdir(1, '00', this)">00</span>
            <h2>Subdirectory:</h2>
        "#;

#[test]
fn future_launch_uses_a_run_that_already_exists() {
    let now = utc("2026-09-09T05:00:00Z");
    let launch = utc("2026-09-16T04:00:00Z");
    assert_eq!(select_model_run_time(now, launch), utc("2026-09-08T18:00:00Z"));
}

#[test]
fn past_launch_does_not_use_a_run_after_launch() {
    let now = utc("2026-09-09T14:00:00Z");
    let launch = utc("2026-09-09T04:00:00Z");
    assert_eq!(select_model_run_time(now, launch), utc("2026-09-09T00:00:00Z"));
}

#[test]
fn parses_available_gfs_dates_and_cycles() {
    assert!(dates_readable(PAGE));
    assert_eq!(
        parse_available_gfs_dates(PAGE),
        vec![utc("2026-09-08T00:00:00Z"), utc("2026-09-09T00:00:00Z")]
    );
    assert_eq!(parse_available_gfs_cycles(PAGE), vec![0, 6, 12, 18]);
}

#[test]
fn runs_combine_dates_and_cycles_in_order() {
    let runs = available_gfs_runs(PAGE);
    assert_eq!(runs.len(), 8);
    assert_eq!(runs[0], utc("2026-09-08T00:00:00Z"));
    assert_eq!(runs[3], utc("2026-09-08T18:00:00Z"));
    assert_eq!(runs[7], utc("2026-09-09T18:00:00Z"));
}

#[test]
fn choose_latest_listed_run_not_after_launch_or_now() {
    let now = utc("2026-09-09T14:00:00Z");
    let launch = utc("2026-09-16T04:00:00Z");
    assert_eq!(
        select_available_gfs_run_time(now, launch, Some(PAGE)),
        utc("2026-09-09T12:00:00Z")
    );
    let early = utc("2026-09-08T05:00:00Z");
    assert_eq!(
        select_available_gfs_run_time(now, early, Some(PAGE)),
        utc("2026-09-08T00:00:00Z")
    );
    let before_all = utc("2026-09-01T00:00:00Z");
    assert_eq!(
        select_available_gfs_run_time(now, before_all, Some(PAGE)),
        select_model_run_time(now, before_all)
    );
    assert_eq!(
        select_available_gfs_run_time(now, launch, None),
        utc("2026-09-09T06:00:00Z")
    );
    assert_eq!(
        choose_available_run(now, launch, &vec![utc("2026-09-09T18:00:00Z")]),
        select_model_run_time(now, launch)
    );
}

#[test]
fn dates_need_eight_digits_and_a_real_date() {
    let page = "gfs.2026 gfs.20261301 gfs.2026010 gfs.20260102x gfs.20260102";
    assert_eq!(parse_available_gfs_dates(page), vec![utc("2026-01-02T00:00:00Z")]);
    assert!(!dates_readable("gfs.2026090\u{e9}"));
    assert_eq!(
        parse_date_midnight("20260909", "%Y%m%d"),
        Some(utc("2026-09-09T00:00:00Z"))
    );
    assert_eq!(parse_date_midnight("20260230", "%Y%m%d"), None);
}

#[test]
fn cycles_keep_model_hours_only() {
    let page = "Cycle value='07' value= \"12\" click_subdir(1, '30') value=12 value='00' Subdirectory value='06'";
    assert_eq!(parse_available_gfs_cycles(page), vec![0, 12]);
    assert_eq!(parse_available_gfs_cycles("no section value='18'"), vec![18]);
}

#[test]
fn gfs_run_is_a_cycle_before_launch_and_lag() {
    let now = utc("2026-09-09T14:00:00Z");
    assert_eq!(
        resolve_gfs_run_time_at(now, utc("2026-09-16T04:00:00Z")),
        utc("2026-09-09T06:00:00Z")
    );
    assert_eq!(
        resolve_gfs_run_time_at(now, utc("2026-09-09T04:59:59Z")),
        utc("2026-09-09T00:00:00Z")
    );
    let launch = utc("2020-01-01T07:30:00Z");
    assert_eq!(resolve_gfs_run_time(launch), utc("2020-01-01T06:00:00Z"));
    assert_eq!(rfc3339(floor_to_gfs_cycle(utc("2026-09-09T23:59:59.5Z"))), "2026-09-09T18:00:00Z");
}
