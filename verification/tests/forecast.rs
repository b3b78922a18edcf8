use balloon_predictor::balloon::manufacturer_coefficient;
use balloon_predictor::calendar::{now, parse_rfc3339, rfc3339};
use balloon_predictor::ensemble::{gefs_members_to_run, monte_carlo_sample_count, split_paths};
use balloon_predictor::forecast::{
    gefs_cache_file_name, gefs_member_forecast_hours, gfs_backtrack_failure, gfs_cache_file_name,
    gfs_forecast_window, gfs_run_candidates, gfs_unavailable_message, resolve_gefs_forecasts, ForecastWindow,
    ForecastWindowError,
};
use balloon_predictor::gefs::{gefs_filter_url, gefs_forecast_hours, GefsMember, GefsResolution, RegionBounds};
use balloon_predictor::time::{UtcTime, whole_seconds_since};

fn utc(value: &str) -> UtcTime {
    parse_rfc3339(value).unwrap()
}

fn region() -> RegionBounds {
    RegionBounds {
        top_lat: "40".to_string(),
        left_lon: "134".to_string(),
        right_lon: "144".to_string(),
        bottom_lat: "30".to_string(),
        cache_key: "30_40_134_144".to_string(),
    }
}

#[test]
fn gefs_names() {
    assert_eq!(GefsMember::Control.file_prefix(), "gec00");
    assert_eq!(GefsMember::Perturbed(3).file_prefix(), "gep03");
    assert_eq!(GefsMember::Perturbed(30).file_prefix(), "gep30");
    assert_eq!(GefsMember::Mean.file_prefix(), "geavg");
    assert_eq!(GefsMember::Spread.file_prefix(), "gespr");
    assert_eq!(GefsMember::Perturbed(7).display_name(), "perturbed (07)");
    assert_eq!(GefsMember::Control.display_name(), "control (c00)");
    assert_eq!(GefsMember::Perturbed(7).key(), "p07");
    assert_eq!(GefsResolution::Select0p25.max_forecast_hour(), 240);
    assert_eq!(GefsResolution::Primary0p5.filter_script(), "filter_gefs_atmos_0p50a.pl");
}

#[test]
fn gefs_url_layout() {
    let url = gefs_filter_url("20260916", "06", 12, GefsMember::Perturbed(5), &region(), GefsResolution::Primary0p5);
    assert_eq!(
        url,
        "https://nomads.ncep.noaa.gov/cgi-bin/filter_gefs_atmos_0p50a.pl?dir=%2Fgefs.20260916%2F06%2Fatmos%2Fpgrb2ap5&file=gep05.t06z.pgrb2a.0p50.f012&var_HGT=on&var_TMP=on&var_UGRD=on&var_VGRD=on&all_lev=on&subregion=&toplat=40&leftlon=134&rightlon=144&bottomlat=30"
    );
    let anl = gefs_filter_url("20260916", "00", 0, GefsMember::Control, &region(), GefsResolution::Select0p25);
    assert!(anl.contains("file=gec00.t00z.pgrb2s.0p25.anl&"));
    assert!(anl.contains("filter_gefs_atmos_0p25s.pl?dir=%2Fgefs.20260916%2F00%2Fatmos%2Fpgrb2sp25"));
}

#[test]
fn forecast_hours_schedule() {
    let hours = gefs_forecast_hours(200);
    assert_eq!(hours[0], 0);
    assert_eq!(hours[1], 3);
    assert_eq!(hours[64], 192);
    assert_eq!(hours[65], 198);
    assert_eq!(hours.len(), 66);
    assert_eq!(gefs_forecast_hours(384).last(), Some(&384));
    assert_eq!(gefs_forecast_hours(0), vec![0]);
}

#[test]
fn gfs_window_cases() {
    let run = utc("2026-09-16T00:00:00Z");
    assert_eq!(
        gfs_forecast_window(run, utc("2026-09-16T07:30:00Z")),
        Ok(ForecastWindow { diff_seconds: 27000, forecast_hour_low: 6 })
    );
    assert_eq!(gfs_forecast_window(run, utc("2026-09-15T23:00:00Z")), Err(ForecastWindowError::BeforeRun));
    assert_eq!(
        gfs_forecast_window(run, utc("2026-10-02T01:00:00Z")),
        Err(ForecastWindowError::BeyondHorizon { diff_seconds: 385 * 3600 })
    );
    assert_eq!(
        gfs_forecast_window(run, utc("2026-10-01T23:00:00Z")).unwrap().forecast_hour_low,
        378
    );
}

#[test]
fn gefs_member_hours_and_names() {
    let hours = gefs_member_forecast_hours(utc("2026-09-16T07:00:00Z"), utc("2026-09-16T17:00:00Z")).unwrap();
    assert_eq!(hours, vec![9, 12, 15]);
    assert_eq!(
        gefs_member_forecast_hours(utc("2026-09-16T07:00:00Z"), utc("2026-09-16T05:00:00Z")).unwrap_err(),
        "Error: Launch time cannot be before the GEFS model initialization run time."
    );
    assert_eq!(gfs_cache_file_name("20260916", "06", 9, "k"), "gfs_20260916_06_f009_k.grib2");
    assert_eq!(
        gefs_cache_file_name("20260916", "06", GefsMember::Mean, 120, "k"),
        "gefs_20260916_06_avg_f120_k.grib2"
    );
}

#[test]
fn gefs_forecast_set() {
    let run = utc("2026-09-16T06:00:00Z");
    let launch = utc("2026-09-16T13:30:00Z");
    let members = vec![GefsMember::Control, GefsMember::Perturbed(2)];
    let set = resolve_gefs_forecasts(run, launch, &members, GefsResolution::Primary0p5, &region()).unwrap();
    assert_eq!(set.forecast_hour_low, 6);
    assert_eq!(set.diff_seconds, 27000);
    assert_eq!(set.forecasts.len(), 6);
    assert_eq!(set.forecasts[4].member, GefsMember::Perturbed(2));
    assert_eq!(rfc3339(set.forecasts[4].time), "2026-09-16T15:00:00Z");
    assert_eq!(set.forecasts[4].local_path, "./gefs_20260916_06_p02_f009_30_40_134_144.grib2");
    assert!(set.forecasts[4].url.contains("file=gep02.t06z.pgrb2a.0p50.f009&"));
    assert!(resolve_gefs_forecasts(launch, run, &members, GefsResolution::Primary0p5, &region()).is_err());
}

#[test]
fn run_candidates_back_off_by_cycles() {
    let c = gfs_run_candidates(utc("2026-09-16T13:20:00Z"));
    assert_eq!(c.len(), 9);
    assert_eq!(c[0], utc("2026-09-16T12:00:00Z"));
    assert_eq!(c[8], utc("2026-09-14T12:00:00Z"));
    assert_eq!(
        gfs_backtrack_failure(None),
        "Could not find a usable GFS run after checking up to 8 previous cycles. Last error: unknown download error"
    );
    assert!(gfs_backtrack_failure(Some("HTTP 404".to_string())).ends_with("Last error: HTTP 404"));
}

#[test]
fn ensemble_plans() {
    assert_eq!(gefs_members_to_run(0), vec![GefsMember::Control]);
    assert_eq!(
        gefs_members_to_run(3),
        vec![GefsMember::Control, GefsMember::Perturbed(1), GefsMember::Perturbed(2)]
    );
    assert_eq!(gefs_members_to_run(100).len(), 31);
    assert_eq!(monte_carlo_sample_count(false, 50), 1);
    assert_eq!(monte_carlo_sample_count(true, 0), 1);
    assert_eq!(monte_carlo_sample_count(true, 50), 50);
    let s = split_paths(&vec![false, false, true, true]);
    assert_eq!((s.ascent_end, s.descent_start), (3, Some(2)));
    let s = split_paths(&vec![false, false]);
    assert_eq!((s.ascent_end, s.descent_start), (2, None));
}

#[test]
fn coefficients_and_clock() {
    assert_eq!(manufacturer_coefficient(2000), Some(148));
    assert_eq!(manufacturer_coefficient(1200), None);
    let t = now();
    assert!(t.secs > 1_700_000_000);
    assert_eq!(whole_seconds_since(utc("2026-09-16T00:00:01Z"), utc("2026-09-16T00:00:00.5Z")), 0);
    assert_eq!(whole_seconds_since(utc("2026-09-16T00:00:00Z"), utc("2026-09-16T00:00:01.5Z")), -1);
}

#[test]
fn non_grib_reply_names_its_first_line() {
    assert_eq!(
        gfs_unavailable_message(6, "\n  \r\n  data file is not present: gfs.t00z  \r\nmore\n"),
        "GFS forecast f006 is not available: data file is not present: gfs.t00z"
    );
    assert_eq!(
        gfs_unavailable_message(384, " \n\t\n"),
        "GFS forecast f384 is not available: NOMADS returned a non-GRIB response"
    );
    assert_eq!(
        gfs_unavailable_message(1200, "oops"),
        "GFS forecast f1200 is not available: oops"
    );
}
