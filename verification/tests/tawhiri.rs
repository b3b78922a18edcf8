use balloon_predictor::calendar::{format_instant, parse_rfc3339, rfc3339};
use balloon_predictor::error::{ApiError, ApiErrorKind};
use balloon_predictor::tawhiri::{
    attachment_stamps_at, kml_marker_points, map_predict_error, parse_balloon_class,
    parse_request, parse_request_with_balloon_class, require_implemented_profile,
    require_kml_profile, split_stages, NumberCheck, NumberChecks, OutputFormat, ProfileKind,
};
use balloon_predictor::time::{datetime_at_millis, UtcTime};

fn start() -> UtcTime {
    parse_rfc3339("2026-09-16T00:00:00Z").unwrap()
}

fn params(pairs: &[(&str, &str)]) -> Vec<(String, String)> {
    pairs
        .iter()
        .map(|(k, v)| ((*k).to_string(), (*v).to_string()))
        .collect()
}

fn standard_params() -> Vec<(String, String)> {
    params(&[
        ("launch_latitude", "35.0"),
        ("launch_longitude", "139.0"),
        ("launch_datetime", "2026-09-16T12:00:00Z"),
        ("ascent_rate", "5"),
        ("burst_altitude", "30000"),
        ("descent_rate", "6"),
    ])
}

fn set(p: &mut Vec<(String, String)>, key: &str, value: &str) {
    p.retain(|(k, _)| k != key);
    p.push((key.to_string(), value.to_string()));
}

fn remove(p: &mut Vec<(String, String)>, key: &str) {
    p.retain(|(k, _)| k != key);
}

fn get<'a>(p: &'a [(String, String)], key: &str) -> Option<&'a str> {
    p.iter().find(|(k, _)| k == key).map(|(_, v)| v.as_str())
}

fn check(p: &[(String, String)], key: &str, valid: impl Fn(f64) -> bool) -> NumberCheck {
    match get(p, key).map(|raw| raw.parse::<f64>()) {
        Some(Ok(v)) if v.is_finite() && valid(v) => NumberCheck::Accepted,
        Some(Ok(_)) => NumberCheck::Rejected,
        _ => NumberCheck::Unparsable,
    }
}

/// The number checks of the query, with the bounds of the Tawhiri API.
fn checks(p: &[(String, String)]) -> NumberChecks {
    let launch_altitude = get(p, "launch_altitude")
        .and_then(|raw| raw.parse::<f64>().ok())
        .unwrap_or(0.0);
    NumberChecks {
        launch_latitude: check(p, "launch_latitude", |x| (-90.0..=90.0).contains(&x)),
        launch_longitude: check(p, "launch_longitude", |x| (0.0..360.0).contains(&x)),
        launch_altitude: check(p, "launch_altitude", |x| x.is_finite()),
        ascent_rate: check(p, "ascent_rate", |x| x > 0.0),
        burst_altitude: check(p, "burst_altitude", |x| x > launch_altitude),
        descent_rate: check(p, "descent_rate", |x| x > 0.0),
        float_altitude: check(p, "float_altitude", |x| x > launch_altitude),
        gross_mass: check(p, "gross_mass", |x| x > 0.0),
    }
}

fn parse(p: &[(String, String)]) -> Result<balloon_predictor::tawhiri::RequestPlan, ApiError> {
    let v = p.to_vec();
    parse_request(&v, &checks(p), start())
}

#[test]
fn missing_launch_datetime_is_request_exception() {
    let mut p = standard_params();
    remove(&mut p, "launch_datetime");
    let err = parse(&p).unwrap_err();
    assert_eq!(err.kind, ApiErrorKind::RequestException);
    assert!(err.description.contains("launch_datetime"));
}

#[test]
fn offset_datetime_is_echoed_in_utc() {
    let mut p = standard_params();
    set(&mut p, "launch_datetime", "2014-08-20T00:00:00+01:00");
    let parsed = parse(&p).unwrap();
    assert_eq!(rfc3339(parsed.launch_datetime), "2014-08-19T23:00:00Z");
}

#[test]
fn rejects_longitude_outside_tawhiri_range() {
    let mut p = standard_params();
    set(&mut p, "launch_longitude", "-122.0");
    let err = parse(&p).unwrap_err();
    assert_eq!(err.kind, ApiErrorKind::RequestException);
    assert!(err.description.contains("launch_longitude"));
}

#[test]
fn unknown_profile_is_request_exception() {
    let mut p = standard_params();
    set(&mut p, "profile", "nope");
    let err = parse(&p).unwrap_err();
    assert!(err.description.contains("Unknown profile"));
}

#[test]
fn unsupported_format_is_internal_exception() {
    let mut p = standard_params();
    set(&mut p, "format", "xml");
    let err = parse(&p).unwrap_err();
    assert_eq!(err.kind, ApiErrorKind::InternalException);
    assert_eq!(err.description, "Format not supported: xml");
}

#[test]
fn float_profile_parses_then_run_is_not_implemented() {
    let p = params(&[
        ("launch_latitude", "35.0"),
        ("launch_longitude", "139.0"),
        ("launch_datetime", "2026-09-16T12:00:00Z"),
        ("profile", "float_profile"),
        ("ascent_rate", "5"),
        ("float_altitude", "18000"),
        ("stop_datetime", "2026-09-16T18:00:00Z"),
    ]);
    let parsed = parse(&p).unwrap();
    let err = require_implemented_profile(parsed.profile, start()).unwrap_err();
    assert_eq!(err.kind, ApiErrorKind::NotYetImplementedException);
}

#[test]
fn path_balloon_class_overrides_default() {
    let p = standard_params();
    let parsed = parse_request_with_balloon_class(&p, &checks(&p), start(), Some(1000)).unwrap();
    assert_eq!(parsed.balloon_class_g, 1000);
}

#[test]
fn path_balloon_class_overrides_query_param() {
    let mut p = standard_params();
    set(&mut p, "balloon_class", "3000");
    let parsed = parse_request_with_balloon_class(&p, &checks(&p), start(), Some(1500)).unwrap();
    assert_eq!(parsed.balloon_class_g, 1500);
}

#[test]
fn rejects_unknown_path_balloon_class() {
    let err = parse_balloon_class("2500", start()).unwrap_err();
    assert_eq!(err.kind, ApiErrorKind::RequestException);
    assert!(err.description.contains("2500"));
}

#[test]
fn stages_share_burst_point() {
    let launch = parse_rfc3339("2026-09-16T12:00:00Z").unwrap();
    let times_s = [0.0f64, 3600.0, 5400.0];
    let is_burst = vec![false, true, true];
    let datetimes: Vec<String> = times_s
        .iter()
        .map(|t| rfc3339(datetime_at_millis(launch, (t * 1000.0).round() as i64)))
        .collect();
    let split = split_stages(&is_burst);
    assert_eq!(split.ascent.len(), 2);
    assert_eq!(split.descent.len(), 2);
    assert_eq!(split.ascent.last(), split.descent.first());
    assert_eq!(datetimes[split.ascent[0]], "2026-09-16T12:00:00Z");
    assert_eq!(datetimes[split.descent[0]], "2026-09-16T13:00:00Z");
    assert_eq!(datetimes[split.descent[1]], "2026-09-16T13:30:00Z");
}

#[test]
fn default_request_is_standard_json_with_default_class() {
    let parsed = parse(&standard_params()).unwrap();
    assert_eq!(parsed.profile, ProfileKind::Standard);
    assert_eq!(parsed.format, OutputFormat::Json);
    assert_eq!(parsed.balloon_class_g, 2000);
    assert_eq!(parsed.dataset, None);
    assert!(!parsed.has_launch_altitude);
    assert!(!parsed.has_gross_mass);
}

#[test]
fn missing_latitude_comes_first() {
    let err = parse(&params(&[])).unwrap_err();
    assert_eq!(err.kind, ApiErrorKind::RequestException);
    assert_eq!(err.description, "Parameter 'launch_latitude' not provided in request.");
    assert_eq!(err.start_datetime, start());
    assert_eq!(err.status(), 400);
}

#[test]
fn unparsable_and_invalid_numbers_have_their_messages() {
    let mut p = standard_params();
    set(&mut p, "launch_latitude", "north");
    assert_eq!(
        parse(&p).unwrap_err().description,
        "Unable to parse parameter 'launch_latitude': north."
    );
    set(&mut p, "launch_latitude", "95");
    assert_eq!(
        parse(&p).unwrap_err().description,
        "Invalid value for parameter 'launch_latitude': 95."
    );
}

#[test]
fn burst_below_launch_altitude_is_invalid() {
    let mut p = standard_params();
    set(&mut p, "launch_altitude", "500");
    set(&mut p, "burst_altitude", "400");
    assert_eq!(
        parse(&p).unwrap_err().description,
        "Invalid value for parameter 'burst_altitude': 400."
    );
}

#[test]
fn bad_launch_datetime_is_unparsable() {
    let mut p = standard_params();
    set(&mut p, "launch_datetime", "tomorrow");
    assert_eq!(
        parse(&p).unwrap_err().description,
        "Unable to parse parameter 'launch_datetime': tomorrow."
    );
}

#[test]
fn float_profile_stop_before_launch_is_invalid() {
    let p = params(&[
        ("launch_latitude", "35.0"),
        ("launch_longitude", "139.0"),
        ("launch_datetime", "2026-09-16T12:00:00Z"),
        ("profile", "float_profile"),
        ("ascent_rate", "5"),
        ("float_altitude", "18000"),
        ("stop_datetime", "2026-09-16T12:00:00Z"),
    ]);
    assert_eq!(
        parse(&p).unwrap_err().description,
        "Invalid value for parameter 'stop_datetime': 2026-09-16T12:00:00Z."
    );
}

#[test]
fn reverse_profile_needs_only_ascent_rate() {
    let p = params(&[
        ("launch_latitude", "35.0"),
        ("launch_longitude", "139.0"),
        ("launch_datetime", "2026-09-16T12:00:00Z"),
        ("profile", "reverse_profile"),
        ("ascent_rate", "5"),
    ]);
    let parsed = parse(&p).unwrap();
    assert_eq!(parsed.profile, ProfileKind::Reverse);
    let err = require_implemented_profile(parsed.profile, start()).unwrap_err();
    assert_eq!(err.description, "Profile 'reverse_profile' is not yet implemented.");
    assert_eq!(err.status(), 501);
}

#[test]
fn dataset_latest_and_explicit() {
    let mut p = standard_params();
    set(&mut p, "dataset", "latest");
    assert_eq!(parse(&p).unwrap().dataset, None);
    set(&mut p, "dataset", "2026-09-16T06:00:00Z");
    let d = parse(&p).unwrap().dataset.unwrap();
    assert_eq!(rfc3339(d), "2026-09-16T06:00:00Z");
    set(&mut p, "dataset", "yesterday");
    assert_eq!(
        parse(&p).unwrap_err().description,
        "Unable to parse parameter 'dataset': yesterday."
    );
}

#[test]
fn query_balloon_class_and_gross_mass() {
    let mut p = standard_params();
    set(&mut p, "balloon_class", "1500");
    set(&mut p, "gross_mass", "4.5");
    let parsed = parse(&p).unwrap();
    assert_eq!(parsed.balloon_class_g, 1500);
    assert!(parsed.has_gross_mass);
    set(&mut p, "balloon_class", "big");
    assert_eq!(parse(&p).unwrap_err().description, "Invalid balloon class 'big'.");
    set(&mut p, "balloon_class", "2000");
    set(&mut p, "gross_mass", "-1");
    assert_eq!(
        parse(&p).unwrap_err().description,
        "Invalid value for parameter 'gross_mass': -1."
    );
}

#[test]
fn balloon_class_parse_cases() {
    assert_eq!(parse_balloon_class("1000", start()).unwrap(), 1000);
    assert_eq!(parse_balloon_class("+3000", start()).unwrap(), 3000);
    assert_eq!(parse_balloon_class("02000", start()).unwrap(), 2000);
    assert_eq!(
        parse_balloon_class("2500", start()).unwrap_err().description,
        "Unknown balloon class: 2500g (expected 1000, 1500, 2000, or 3000)"
    );
    assert_eq!(
        parse_balloon_class("-1000", start()).unwrap_err().description,
        "Invalid balloon class '-1000'."
    );
    assert_eq!(
        parse_balloon_class("99999999999", start()).unwrap_err().description,
        "Invalid balloon class '99999999999'."
    );
    let p = standard_params();
    let err = parse_request_with_balloon_class(&p, &checks(&p), start(), Some(1200)).unwrap_err();
    assert_eq!(
        err.description,
        "Unknown balloon class: 1200g (expected 1000, 1500, 2000, or 3000)"
    );
}

#[test]
fn output_format_round_trip() {
    for f in [OutputFormat::Json, OutputFormat::Csv, OutputFormat::Kml] {
        assert_eq!(OutputFormat::parse(f.as_str()), Some(f));
    }
    assert_eq!(OutputFormat::parse("xml"), None);
    assert_eq!(ProfileKind::Float.name(), "float_profile");
}

#[test]
fn predict_errors_are_classified() {
    let e = map_predict_error("Failed to download GRIB (HTTP 404)", start());
    assert_eq!(e.kind, ApiErrorKind::InvalidDatasetException);
    assert_eq!(e.description, "No matching dataset found: Failed to download GRIB (HTTP 404)");
    assert_eq!(e.status(), 404);
    let e = map_predict_error("Unknown Balloon Class: 5g", start());
    assert_eq!(e.kind, ApiErrorKind::RequestException);
    assert_eq!(e.description, "Unknown Balloon Class: 5g");
    let e = map_predict_error("solver diverged", start());
    assert_eq!(e.kind, ApiErrorKind::PredictionException);
    assert_eq!(e.description, "Prediction did not complete: 'solver diverged'.");
    assert_eq!(e.status(), 500);
    let e = map_predict_error("bad GFS file", start());
    assert_eq!(e.kind, ApiErrorKind::InvalidDatasetException);
}

#[test]
fn error_response_and_message() {
    let e = ApiError::internal("boom".to_string(), start());
    assert_eq!(e.message(), "InternalException: boom");
    let body = e.error_response();
    assert_eq!(body.error.kind, "InternalException");
    assert_eq!(body.error.description, "boom");
    assert_eq!(body.metadata.start_datetime, "2026-09-16T00:00:00Z");
    assert!(body.metadata.complete_datetime.ends_with('Z'));
    assert_eq!(ApiErrorKind::NotYetImplementedException.type_label(), "NotYetImplementedException");
    assert_eq!(ApiErrorKind::InvalidDatasetException.status(), 404);
}

#[test]
fn kml_profile_check() {
    assert!(require_kml_profile("standard_profile", start()).is_ok());
    let e = require_kml_profile("float_profile", start()).unwrap_err();
    assert_eq!(e.kind, ApiErrorKind::InternalException);
    assert_eq!(e.description, "Unknown Flight Profile for KML export: float_profile.");
}

#[test]
fn kml_markers_pick_launch_burst_landing() {
    assert_eq!(kml_marker_points(&vec![]), None);
    assert_eq!(kml_marker_points(&vec![0, 3]), None);
    assert_eq!(kml_marker_points(&vec![3, 4]), Some(((0, 0), (0, 2), (1, 3))));
    assert_eq!(kml_marker_points(&vec![3, 0]), Some(((0, 0), (0, 2), (0, 2))));
}

#[test]
fn stage_split_without_burst_and_with_early_burst() {
    let split = split_stages(&vec![false, false]);
    assert_eq!(split.ascent, vec![0, 1]);
    assert!(split.descent.is_empty());
    let split = split_stages(&vec![false, true, true]);
    assert_eq!(split.ascent, vec![0, 1]);
    assert_eq!(split.descent, vec![1, 2]);
    let split = split_stages(&vec![true, true]);
    assert_eq!(split.ascent, vec![0]);
    assert_eq!(split.descent, vec![0, 1]);
    assert!(split_stages(&vec![]).ascent.is_empty());
}

#[test]
fn attachment_stamps_fall_back() {
    let now = parse_rfc3339("2026-01-02T03:04:05Z").unwrap();
    let (l, d) = attachment_stamps_at("2026-09-16T12:00:00Z", "2026-09-16T06:00:00Z", now);
    assert_eq!(l, "20260916-120000Z");
    assert_eq!(d, "2026091606Z");
    let (l, d) = attachment_stamps_at("?", "?", now);
    assert_eq!(l, "20260102-030405Z");
    assert_eq!(d, "2026010203Z");
    assert_eq!(format_instant(now, "%H"), "03");
}

#[test]
fn millisecond_offsets() {
    let launch = parse_rfc3339("2026-09-16T12:00:00Z").unwrap();
    assert_eq!(rfc3339(datetime_at_millis(launch, 1500)), "2026-09-16T12:00:01.500Z");
    assert_eq!(rfc3339(datetime_at_millis(launch, -3_600_000)), "2026-09-16T11:00:00Z");
    let far = datetime_at_millis(launch, i64::MAX / 2);
    assert_eq!(far, launch);
}
