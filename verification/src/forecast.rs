//! Which forecast files a launch needs: the forecast-hour window around the
//! launch, model-run backtracking, cache file names and the GEFS file set.
use vstd::prelude::*;

use crate::calendar::{format_instant, strftime_text};
use crate::gefs::{gefs_filter_url, gefs_url, GefsMember, GefsResolution, RegionBounds};
use crate::terrain::{trimmed, trimmed_bounds};
use crate::text::{chars_of, decimal, push_char, zero_padded, zero_padded_decimal};
use crate::time::{
    cycle_floor, floor_model_cycle, seconds_since, shift_hours, shift_hours_ok, shifted,
    whole_seconds_since, UtcTime, MIN_TIMESTAMP,
};

verus! {

/// Longest forecast lead time of GFS, in hours.
pub const GFS_MAX_FORECAST_HOUR: u32 = 384;

/// How many earlier cycles are tried when a GFS run cannot be used.
pub const MAX_GFS_RUN_BACKTRACKS: usize = 8;

/// Why no forecast window exists for a launch.
#[derive(Debug, Clone, Copy, PartialEq, Eq, Structural)]
pub enum ForecastWindowError {
    /// The launch is before the model run.
    BeforeRun,
    /// The launch is more than 384 hours after the model run; the whole
    /// seconds between them are kept for the message.
    BeyondHorizon { diff_seconds: i64 },
}

/// The three forecast hours around a launch and the launch's distance from the run.
#[derive(Debug, Clone, Copy, PartialEq, Eq, Structural)]
pub struct ForecastWindow {
    /// Whole seconds from the model run to the launch.
    pub diff_seconds: i64,
    /// The first of the three forecast hours `low`, `low + 3`, `low + 6`.
    pub forecast_hour_low: u32,
}

/// The forecast hour (a multiple of 3) at or before a launch `diff_seconds`
/// after the model run.
pub open spec fn hour_low(diff_seconds: int) -> int {
    (diff_seconds / 10800) * 3
}

/// The GFS forecast window of a launch: the launch must not precede the run
/// nor lie more than 384 h after it; the window starts at most at f378 so
/// that all three hours exist.
pub open spec fn gfs_window(run: UtcTime, launch: UtcTime) -> Result<
    ForecastWindow,
    ForecastWindowError,
> {
    let diff = seconds_since(launch, run);
    if diff < 0 {
        Err(ForecastWindowError::BeforeRun)
    } else if diff > 384 * 3600 {
        Err(ForecastWindowError::BeyondHorizon { diff_seconds: diff as i64 })
    } else {
        let low = hour_low(diff);
        Ok(
            ForecastWindow {
                diff_seconds: diff as i64,
                forecast_hour_low: (if low < 378 { low } else { 378 }) as u32,
            },
        )
    }
}

/// The forecast window of a GFS run for a launch.
pub fn gfs_forecast_window(run: UtcTime, launch: UtcTime) -> (r: Result<
    ForecastWindow,
    ForecastWindowError,
>)
    requires
        run.wf(),
        launch.wf(),
    ensures
        r == gfs_window(run, launch),
{
    let diff = whole_seconds_since(launch, run);
    if diff < 0 {
        Err(ForecastWindowError::BeforeRun)
    } else if diff > 384 * 3600 {
        Err(ForecastWindowError::BeyondHorizon { diff_seconds: diff })
    } else {
        let low: i64 = (diff / 10800) * 3;
        let low = if low < 378 { low } else { 378 };
        Ok(ForecastWindow { diff_seconds: diff, forecast_hour_low: low as u32 })
    }
}

/// The first forecast hour of a launch `diff` seconds after the run is the
/// multiple of 3 whose three-hour block holds the launch.
pub proof fn hour_low_holds_the_launch(diff: int)
    requires
        diff >= 0,
    ensures
        hour_low(diff) % 3 == 0,
        hour_low(diff) >= 0,
        hour_low(diff) * 3600 <= diff < (hour_low(diff) + 3) * 3600,
{
    assert((diff / 10800) * 10800 <= diff < (diff / 10800) * 10800 + 10800) by (nonlinear_arith)
        requires
            diff >= 0,
    ;
    assert(diff / 10800 >= 0) by (nonlinear_arith)
        requires
            diff >= 0,
    ;
}

/// The GFS window of a launch: refused when the launch is before the run or
/// more than 384 h after it; otherwise it starts at a multiple of 3 hours,
/// at most f378, no later than the launch, and (below f378) less than three
/// hours before it, so the three files `low`, `low + 3`, `low + 6` hold the launch.
pub proof fn gfs_window_holds_the_launch(run: UtcTime, launch: UtcTime)
    ensures
        ({
            let d = seconds_since(launch, run);
            &&& (d < 0 <==> gfs_window(run, launch) == Err::<ForecastWindow, ForecastWindowError>(
                ForecastWindowError::BeforeRun,
            ))
            &&& (d > 384 * 3600 ==> gfs_window(run, launch) == Err::<
                ForecastWindow,
                ForecastWindowError,
            >(ForecastWindowError::BeyondHorizon { diff_seconds: d as i64 }))
            &&& (0 <= d <= 384 * 3600 ==> (gfs_window(run, launch) matches Ok(w) && {
                &&& w.diff_seconds == d
                &&& w.forecast_hour_low % 3 == 0
                &&& w.forecast_hour_low <= 378
                &&& w.forecast_hour_low * 3600 <= d
                &&& (w.forecast_hour_low < 378 ==> d < (w.forecast_hour_low + 3) * 3600)
            }))
        }),
{
    let d = seconds_since(launch, run);
    if 0 <= d <= 384 * 3600 {
        hour_low_holds_the_launch(d);
    }
}

/// The message that a launch before the model run is refused with.
pub open spec fn before_run_message(model: Seq<char>) -> Seq<char> {
    "Error: Launch time cannot be before the "@ + model + " model initialization run time."@
}

fn before_run_text(model: &str) -> (r: String)
    ensures
        r@ == before_run_message(model@),
{
    let mut r = "Error: Launch time cannot be before the ".to_owned();
    r.append(model);
    r.append(" model initialization run time.");
    r
}

/// The GEFS forecast window of a launch (no horizon limit); its three hours
/// must fit in 32 bits.
pub open spec fn gefs_window_fits(run: UtcTime, launch: UtcTime) -> bool {
    let diff = seconds_since(launch, run);
    diff >= 0 ==> hour_low(diff) + 6 <= u32::MAX
}

/// The forecast hours `low`, `low + 3`, `low + 6` of a GEFS member's files
/// for a launch, counted from the run's cycle, or the refusal of a launch
/// before that cycle.
pub fn gefs_member_forecast_hours(gefs_run_time: UtcTime, launch_time: UtcTime) -> (r: Result<
    Vec<u32>,
    String,
>)
    requires
        gefs_run_time.wf(),
        launch_time.wf(),
        gefs_window_fits(cycle_floor(gefs_run_time), launch_time),
    ensures
        ({
            let diff = seconds_since(launch_time, cycle_floor(gefs_run_time));
            match r {
                Err(e) => diff < 0 && e@ == before_run_message("GEFS"@),
                Ok(hours) => diff >= 0 && hours@ == seq![
                    hour_low(diff) as u32,
                    (hour_low(diff) + 3) as u32,
                    (hour_low(diff) + 6) as u32,
                ],
            }
        }),
{
    let rounded = floor_model_cycle(gefs_run_time);
    let diff = whole_seconds_since(launch_time, rounded);
    if diff < 0 {
        return Err(before_run_text("GEFS"));
    }
    let low = ((diff / 10800) * 3) as u32;
    let mut hours = Vec::new();
    hours.push(low);
    hours.push(low + 3);
    hours.push(low + 6);
    Ok(hours)
}

/// The cached file name of a GFS forecast file.
pub open spec fn gfs_file_name_spec(
    date: Seq<char>,
    cycle: Seq<char>,
    forecast_hour: u32,
    cache_key: Seq<char>,
) -> Seq<char> {
    "gfs_"@ + date + "_"@ + cycle + "_f"@ + zero_padded(decimal(forecast_hour as nat), 3) + "_"@
        + cache_key + ".grib2"@
}

/// The cached file name of a GEFS forecast file.
pub open spec fn gefs_file_name_spec(
    date: Seq<char>,
    cycle: Seq<char>,
    member: GefsMember,
    forecast_hour: u32,
    cache_key: Seq<char>,
) -> Seq<char> {
    "gefs_"@ + date + "_"@ + cycle + "_"@ + member.spec_key() + "_f"@ + zero_padded(
        decimal(forecast_hour as nat),
        3,
    ) + "_"@ + cache_key + ".grib2"@
}

/// The name under which a GFS forecast file is cached.
pub fn gfs_cache_file_name(date_str: &str, cycle_str: &str, forecast_hour: u32, cache_key: &str) -> (r:
    String)
    ensures
        r@ == gfs_file_name_spec(date_str@, cycle_str@, forecast_hour, cache_key@),
{
    let fh = zero_padded_decimal(forecast_hour as u64, 3);
    let mut r = "gfs_".to_owned();
    r.append(date_str);
    r.append("_");
    r.append(cycle_str);
    r.append("_f");
    r.append(fh.as_str());
    r.append("_");
    r.append(cache_key);
    r.append(".grib2");
    r
}

/// The name under which a GEFS forecast file is cached.
pub fn gefs_cache_file_name(
    date_str: &str,
    cycle_str: &str,
    member: GefsMember,
    forecast_hour: u32,
    cache_key: &str,
) -> (r: String)
    ensures
        r@ == gefs_file_name_spec(date_str@, cycle_str@, member, forecast_hour, cache_key@),
{
    let key = member.key();
    let fh = zero_padded_decimal(forecast_hour as u64, 3);
    let mut r = "gefs_".to_owned();
    r.append(date_str);
    r.append("_");
    r.append(cycle_str);
    r.append("_");
    r.append(key.as_str());
    r.append("_f");
    r.append(fh.as_str());
    r.append("_");
    r.append(cache_key);
    r.append(".grib2");
    r
}

/// The GFS runs tried for a launch: the cycle of `gfs_run_time`, then each
/// of the 8 cycles before it, newest first.
pub fn gfs_run_candidates(gfs_run_time: UtcTime) -> (r: Vec<UtcTime>)
    requires
        gfs_run_time.wf(),
        cycle_floor(gfs_run_time).secs - 8 * 21600 >= MIN_TIMESTAMP,
    ensures
        r.len() == MAX_GFS_RUN_BACKTRACKS + 1,
        forall|k: int|
            0 <= k < r.len() ==> #[trigger] r[k] == (UtcTime {
                secs: (cycle_floor(gfs_run_time).secs - k * 21600) as i64,
                nanos: 0,
            }) && r[k].wf(),
{
    let initial = floor_model_cycle(gfs_run_time);
    let mut candidate = initial;
    let mut r: Vec<UtcTime> = Vec::new();
    let mut attempt: usize = 0;
    while attempt <= MAX_GFS_RUN_BACKTRACKS
        invariant
            attempt <= MAX_GFS_RUN_BACKTRACKS + 1,
            r.len() == attempt,
            initial == cycle_floor(gfs_run_time),
            gfs_run_time.wf(),
            initial.secs - 8 * 21600 >= MIN_TIMESTAMP,
            initial.wf(),
            attempt <= MAX_GFS_RUN_BACKTRACKS ==> candidate == (UtcTime {
                secs: (initial.secs - attempt * 21600) as i64,
                nanos: 0,
            }),
            forall|k: int|
                0 <= k < r.len() ==> #[trigger] r[k] == (UtcTime {
                    secs: (initial.secs - k * 21600) as i64,
                    nanos: 0,
                }) && r[k].wf(),
        decreases MAX_GFS_RUN_BACKTRACKS + 1 - attempt,
    {
        proof {
            crate::time::lemma_cycle_floor(gfs_run_time);
        }
        assert((initial.secs - attempt * 21600) % 60 == 0) by (nonlinear_arith)
            requires
                initial.secs % 21600 == 0,
        ;
        r.push(candidate);
        if attempt < MAX_GFS_RUN_BACKTRACKS {
            candidate = shift_hours(candidate, -6);
        }
        attempt = attempt + 1;
    }
    r
}

/// The first line of `text` (lines end at `\n`) that holds more than
/// whitespace, trimmed: the current line starts at `line_start` and the scan
/// goes on from `i`.
pub open spec fn first_filled_line_from(text: Seq<char>, line_start: int, i: int) -> Option<
    Seq<char>,
>
    decreases text.len() - i,
{
    if i >= text.len() {
        let t = trimmed(text.subrange(line_start, text.len() as int));
        if t.len() > 0 {
            Some(t)
        } else {
            None
        }
    } else if text[i] == '\n' {
        let t = trimmed(text.subrange(line_start, i));
        if t.len() > 0 {
            Some(t)
        } else {
            first_filled_line_from(text, i + 1, i + 1)
        }
    } else {
        first_filled_line_from(text, line_start, i + 1)
    }
}

/// The first line of `text` that holds more than whitespace, trimmed.
pub open spec fn first_filled_line(text: Seq<char>) -> Option<Seq<char>> {
    first_filled_line_from(text, 0, 0)
}

/// The error for a forecast file that NOMADS answered with something other
/// than GRIB: the first non-blank line of the reply, or a generic note.
pub open spec fn unavailable_forecast_message(forecast_hour: u32, preview: Seq<char>) -> Seq<char> {
    "GFS forecast f"@ + zero_padded(decimal(forecast_hour as nat), 3) + " is not available: "@
        + match first_filled_line(preview) {
        Some(line) => line,
        None => "NOMADS returned a non-GRIB response"@,
    }
}

/// The error for a GFS forecast file whose download did not start with the
/// GRIB magic; `preview` is the start of what was received, as text.
pub fn gfs_unavailable_message(forecast_hour: u32, preview: &str) -> (r: String)
    ensures
        r@ == unavailable_forecast_message(forecast_hour, preview@),
{
    let cs = chars_of(preview);
    let mut bounds: Option<(usize, usize)> = None;
    let mut line_start: usize = 0;
    let mut i: usize = 0;
    loop
        invariant_except_break
            line_start <= i <= cs.len(),
            bounds is None,
            first_filled_line(cs@) == first_filled_line_from(cs@, line_start as int, i as int),
        ensures
            match bounds {
                Some(b) => b.0 <= b.1 <= cs.len() && first_filled_line(cs@) == Some(
                    cs@.subrange(b.0 as int, b.1 as int),
                ),
                None => first_filled_line(cs@) is None,
            },
        decreases cs.len() - i,
    {
        if i == cs.len() || cs[i] == '\n' {
            let (lo, hi) = trimmed_bounds(&cs, line_start, i);
            if lo < hi {
                bounds = Some((lo, hi));
                break;
            }
            if i == cs.len() {
                break;
            }
            line_start = i + 1;
        }
        i = i + 1;
    }
    let mut r = "GFS forecast f".to_owned();
    let fh = zero_padded_decimal(forecast_hour as u64, 3);
    r.append(fh.as_str());
    r.append(" is not available: ");
    match bounds {
        Some((lo, hi)) => {
            let ghost head = r@;
            let mut k = lo;
            while k < hi
                invariant
                    lo <= k <= hi <= cs.len(),
                    r@ == head + cs@.subrange(lo as int, k as int),
                decreases hi - k,
            {
                push_char(&mut r, cs[k]);
                k = k + 1;
                assert(r@ =~= head + cs@.subrange(lo as int, k as int));
            }
        },
        None => r.append("NOMADS returned a non-GRIB response"),
    }
    r
}

/// The message when no GFS run within the backtracking limit could be used.
pub open spec fn backtrack_failure_message(last_error: Option<Seq<char>>) -> Seq<char> {
    "Could not find a usable GFS run after checking up to 8 previous cycles. Last error: "@
        + match last_error {
        Some(e) => e,
        None => "unknown download error"@,
    }
}

/// The error reported when every candidate GFS run failed; `last_error`
/// is the failure of the last one tried.
pub fn gfs_backtrack_failure(last_error: Option<String>) -> (r: String)
    ensures
        r@ == backtrack_failure_message(
            match last_error {
                Some(e) => Some(e@),
                None => None,
            },
        ),
{
    let mut r = "Could not find a usable GFS run after checking up to 8 previous cycles. Last error: ".to_owned();
    match last_error {
        Some(e) => r.append(e.as_str()),
        None => r.append("unknown download error"),
    }
    r
}

/// A GEFS forecast file for one member and one forecast hour.
#[derive(Debug, Clone)]
pub struct GefsForecast {
    /// Where the file is downloaded from.
    pub url: String,
    /// When the forecast is valid.
    pub time: UtcTime,
    /// Where the file is cached.
    pub local_path: String,
    /// The region the file is cut to.
    pub region: RegionBounds,
    pub member: GefsMember,
}

/// The forecast files of a launch and the launch's distance from the run.
#[derive(Debug, Clone)]
pub struct GefsForecastSet {
    /// Three files per member, members in the order given, hours ascending.
    pub forecasts: Vec<GefsForecast>,
    /// Whole seconds from the run to the launch; the launch offset in hours
    /// from the first file is `diff_seconds / 3600 - forecast_hour_low`.
    pub diff_seconds: i64,
    pub forecast_hour_low: u32,
}

/// Shifting forward by fewer hours stays in range when shifting by more does.
proof fn lemma_shift_ok_below(t: UtcTime, h: int, bound: int)
    requires
        t.wf(),
        0 <= h <= bound,
        shift_hours_ok(t, bound),
    ensures
        shift_hours_ok(t, h),
{
}

/// The run plus `hours` hours.
pub open spec fn after_hours(run: UtcTime, hours: int) -> UtcTime {
    UtcTime { secs: shifted(run, hours * 3600).0 as i64, nanos: shifted(run, hours * 3600).1 as u32 }
}

/// The forecast files of every member for a launch: hours `low`, `low + 3`
/// and `low + 6` of `gefs_run_time`, cut to `region`.
pub fn resolve_gefs_forecasts(
    gefs_run_time: UtcTime,
    launch_time: UtcTime,
    members: &Vec<GefsMember>,
    resolution: GefsResolution,
    region: &RegionBounds,
) -> (r: Result<GefsForecastSet, String>)
    requires
        gefs_run_time.wf(),
        launch_time.wf(),
        gefs_window_fits(gefs_run_time, launch_time),
        seconds_since(launch_time, gefs_run_time) >= 0 ==> shift_hours_ok(
            gefs_run_time,
            hour_low(seconds_since(launch_time, gefs_run_time)) + 6,
        ),
        members.len() * 3 <= usize::MAX,
    ensures
        ({
            let diff = seconds_since(launch_time, gefs_run_time);
            let date = strftime_text(gefs_run_time.secs as int, gefs_run_time.nanos as int, "%Y%m%d"@);
            let cycle = strftime_text(gefs_run_time.secs as int, gefs_run_time.nanos as int, "%H"@);
            match r {
                Err(e) => diff < 0 && e@ == before_run_message("GEFS"@),
                Ok(set) => {
                    &&& diff >= 0
                    &&& set.diff_seconds == diff
                    &&& set.forecast_hour_low == hour_low(diff)
                    &&& set.forecasts.len() == 3 * members.len()
                    &&& forall|m: int, j: int|
                        0 <= m < members.len() && 0 <= j < 3 ==> {
                            let f = #[trigger] set.forecasts[3 * m + j];
                            let fh = (hour_low(diff) + 3 * j) as u32;
                            &&& f.member == members[m]
                            &&& f.time == after_hours(gefs_run_time, fh as int)
                            &&& f.time.wf()
                            &&& f.url@ == gefs_url(date, cycle, fh, members[m], *region, resolution)
                            &&& f.local_path@ == "./"@ + gefs_file_name_spec(
                                date,
                                cycle,
                                members[m],
                                fh,
                                region.cache_key@,
                            )
                            &&& f.region == *region
                        }
                },
            }
        }),
{
    let diff = whole_seconds_since(launch_time, gefs_run_time);
    if diff < 0 {
        return Err(before_run_text("GEFS"));
    }
    let low = ((diff / 10800) * 3) as u32;
    let date_str = format_instant(gefs_run_time, "%Y%m%d");
    let cycle_str = format_instant(gefs_run_time, "%H");
    let mut forecasts: Vec<GefsForecast> = Vec::new();
    let mut m: usize = 0;
    while m < members.len()
        invariant
            m <= members.len(),
            members.len() * 3 <= usize::MAX,
            diff == seconds_since(launch_time, gefs_run_time),
            diff >= 0,
            low == hour_low(diff as int),
            low + 6 <= u32::MAX,
            gefs_run_time.wf(),
            shift_hours_ok(gefs_run_time, low + 6),
            date_str@ == strftime_text(gefs_run_time.secs as int, gefs_run_time.nanos as int, "%Y%m%d"@),
            cycle_str@ == strftime_text(gefs_run_time.secs as int, gefs_run_time.nanos as int, "%H"@),
            forecasts.len() == 3 * m,
            forall|mm: int, j: int|
                0 <= mm < m && 0 <= j < 3 ==> {
                    let f = #[trigger] forecasts[3 * mm + j];
                    let fh = (low + 3 * j) as u32;
                    &&& f.member == members[mm]
                    &&& f.time == after_hours(gefs_run_time, fh as int)
                    &&& f.time.wf()
                    &&& f.url@ == gefs_url(date_str@, cycle_str@, fh, members[mm], *region, resolution)
                    &&& f.local_path@ == "./"@ + gefs_file_name_spec(
                        date_str@,
                        cycle_str@,
                        members[mm],
                        fh,
                        region.cache_key@,
                    )
                    &&& f.region == *region
                },
        decreases members.len() - m,
    {
        let member = members[m];
        let mut j: u32 = 0;
        while j < 3
            invariant
                j <= 3,
                m < members.len(),
                member == members[m as int],
                members.len() * 3 <= usize::MAX,
                low + 6 <= u32::MAX,
                gefs_run_time.wf(),
                shift_hours_ok(gefs_run_time, low + 6),
                forecasts.len() == 3 * m + j,
                forall|mm: int, jj: int|
                    (0 <= mm < m && 0 <= jj < 3) || (mm == m && 0 <= jj < j) ==> {
                        let f = #[trigger] forecasts[3 * mm + jj];
                        let fh = (low + 3 * jj) as u32;
                        &&& f.member == members[mm]
                        &&& f.time == after_hours(gefs_run_time, fh as int)
                        &&& f.time.wf()
                        &&& f.url@ == gefs_url(date_str@, cycle_str@, fh, members[mm], *region, resolution)
                        &&& f.local_path@ == "./"@ + gefs_file_name_spec(
                            date_str@,
                            cycle_str@,
                            members[mm],
                            fh,
                            region.cache_key@,
                        )
                        &&& f.region == *region
                    },
            decreases 3 - j,
        {
            let fh = low + 3 * j;
            proof {
                lemma_shift_ok_below(gefs_run_time, fh as int, low + 6);
            }
            let time = shift_hours(gefs_run_time, fh as i64);
            let url = gefs_filter_url(date_str.as_str(), cycle_str.as_str(), fh, member, region, resolution);
            let name = gefs_cache_file_name(date_str.as_str(), cycle_str.as_str(), member, fh, region.cache_key.as_str());
            let mut local_path = "./".to_owned();
            local_path.append(name.as_str());
            forecasts.push(GefsForecast { url, time, local_path, region: region.duplicate(), member });
            j = j + 1;
        }
        m = m + 1;
    }
    Ok(GefsForecastSet { forecasts, diff_seconds: diff, forecast_hour_low: low })
}

} // verus!
