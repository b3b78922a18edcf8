//! Instants in UTC, held as a Unix timestamp plus nanoseconds, with the
//! model-cycle arithmetic that the forecast selection needs.
use vstd::prelude::*;

verus! {

/// Earliest timestamp that `chrono::DateTime<Utc>` can hold (year -262143, Jan 1, 00:00:00).
pub const MIN_TIMESTAMP: i64 = -8334601228800;

/// Latest timestamp that `chrono::DateTime<Utc>` can hold (year 262142, Dec 31, 23:59:59).
pub const MAX_TIMESTAMP: i64 = 8210266876799;

/// Seconds in one model cycle of six hours.
pub const CYCLE_SECONDS: i64 = 21600;

/// The pairs (seconds, nanoseconds) that a `chrono::DateTime<Utc>` can take:
/// a nanosecond count of one second or more marks a leap second, which only
/// follows the 59th second of a minute.
pub open spec fn valid_instant(secs: int, nanos: int) -> bool {
    &&& MIN_TIMESTAMP <= secs <= MAX_TIMESTAMP
    &&& 0 <= nanos < 2_000_000_000
    &&& (nanos < 1_000_000_000 || secs % 60 == 59)
}

/// An instant in UTC: seconds since 1970-01-01T00:00:00Z (leap seconds not
/// counted) and the nanoseconds past that second.
#[derive(Debug, Clone, Copy, PartialEq, Eq, Structural)]
pub struct UtcTime {
    pub secs: i64,
    pub nanos: u32,
}

impl UtcTime {
    pub open spec fn wf(self) -> bool {
        valid_instant(self.secs as int, self.nanos as int)
    }

    /// The chronological order of two instants.
    pub open spec fn le(self, other: UtcTime) -> bool {
        self.secs < other.secs || (self.secs == other.secs && self.nanos <= other.nanos)
    }

    pub open spec fn lt(self, other: UtcTime) -> bool {
        self.le(other) && self != other
    }

    /// The instant `secs` seconds (and `nanos` nanoseconds) after the epoch, if
    /// a UTC date-time can hold it.
    pub fn from_timestamp(secs: i64, nanos: u32) -> (r: Option<UtcTime>)
        ensures
            r is Some <==> valid_instant(secs as int, nanos as int),
            r matches Some(t) ==> t.secs == secs && t.nanos == nanos,
    {
        let minute_rem = secs % 60;
        let minute_rem = if minute_rem < 0 { minute_rem + 60 } else { minute_rem };
        if MIN_TIMESTAMP <= secs && secs <= MAX_TIMESTAMP && nanos < 2_000_000_000 && (nanos
            < 1_000_000_000 || minute_rem == 59) {
            Some(UtcTime { secs, nanos })
        } else {
            None
        }
    }

    /// Whether `self` comes strictly before `other`.
    pub fn is_before(&self, other: &UtcTime) -> (r: bool)
        ensures
            r == self.lt(*other),
    {
        self.secs < other.secs || (self.secs == other.secs && self.nanos < other.nanos)
    }

    /// The earlier of two instants (the first one when they are equal).
    pub fn earliest(self, other: UtcTime) -> (r: UtcTime)
        ensures
            r == (if self.le(other) { self } else { other }),
    {
        if other.is_before(&self) {
            other
        } else {
            self
        }
    }
}

/// The instant that `chrono` gives for `t` shifted by `k` whole seconds: a
/// leap second is first left towards the side the shift goes.
pub open spec fn shifted(t: UtcTime, k: int) -> (int, int) {
    if t.nanos >= 1_000_000_000 && k > 0 {
        (t.secs + k, t.nanos - 1_000_000_000)
    } else if t.nanos >= 1_000_000_000 && k < 0 {
        (t.secs + 1 + k, t.nanos - 1_000_000_000)
    } else {
        (t.secs + k, t.nanos as int)
    }
}

/// `t + Duration::hours(h)` stays within the range of a UTC date-time.
pub open spec fn shift_hours_ok(t: UtcTime, h: int) -> bool {
    let s = shifted(t, h * 3600);
    valid_instant(s.0, s.1)
}

/// `t + Duration::hours(hours)`.
pub fn shift_hours(t: UtcTime, hours: i64) -> (r: UtcTime)
    requires
        t.wf(),
        -2_000_000_000_000_000 <= hours <= 2_000_000_000_000_000,
        shift_hours_ok(t, hours as int),
    ensures
        r.wf(),
        (r.secs as int, r.nanos as int) == shifted(t, hours * 3600),
{
    let k: i64 = hours * 3600;
    if t.nanos >= 1_000_000_000 && k > 0 {
        UtcTime { secs: t.secs + k, nanos: t.nanos - 1_000_000_000 }
    } else if t.nanos >= 1_000_000_000 && k < 0 {
        UtcTime { secs: t.secs + 1 + k, nanos: t.nanos - 1_000_000_000 }
    } else {
        UtcTime { secs: t.secs + k, nanos: t.nanos }
    }
}

/// Start of the six-hour model cycle (00, 06, 12 or 18 UTC) that holds `t`.
pub open spec fn cycle_floor(t: UtcTime) -> UtcTime {
    UtcTime { secs: (t.secs - t.secs % CYCLE_SECONDS) as i64, nanos: 0 }
}

fn floor_to_cycle(t: UtcTime) -> (r: UtcTime)
    requires
        t.wf(),
    ensures
        r == cycle_floor(t),
        r.wf(),
{
    let rem = t.secs % CYCLE_SECONDS;
    let rem = if rem < 0 { rem + CYCLE_SECONDS } else { rem };
    assert(rem == t.secs % CYCLE_SECONDS);
    assert(MIN_TIMESTAMP % CYCLE_SECONDS == 0);
    assert((t.secs - rem) as int % 21600 == 0) by (nonlinear_arith)
        requires rem as int == t.secs as int % 21600;
    UtcTime { secs: t.secs - rem, nanos: 0 }
}

/// The cycle start is a multiple of six hours, at most six hours before `t`.
pub proof fn lemma_cycle_floor(t: UtcTime)
    requires
        t.wf(),
    ensures
        cycle_floor(t).secs % CYCLE_SECONDS == 0,
        cycle_floor(t).secs <= t.secs < cycle_floor(t).secs + CYCLE_SECONDS,
{
    let x = t.secs as int;
    assert(x == (x / 21600) * 21600 + x % 21600);
    assert(0 <= x % 21600 < 21600);
    assert(cycle_floor(t).secs as int == x - x % 21600);
    vstd::arithmetic::div_mod::lemma_mod_multiples_basic(x / 21600, 21600);
}

/// The GFS initialisation (00/06/12/18 UTC) at or before `dt`.
pub fn floor_to_gfs_cycle(dt: UtcTime) -> (r: UtcTime)
    requires
        dt.wf(),
    ensures
        r == cycle_floor(dt),
        r.wf(),
{
    floor_to_cycle(dt)
}

/// The model cycle at or before `time`.
pub fn floor_model_cycle(time: UtcTime) -> (r: UtcTime)
    requires
        time.wf(),
    ensures
        r == cycle_floor(time),
        r.wf(),
{
    floor_to_cycle(time)
}


/// The whole seconds from `b` to `a` that `chrono` counts
/// (`a.signed_duration_since(b).num_seconds()`): a leap second is counted
/// when it lies between the two times of day, and the result is truncated
/// toward zero.
pub open spec fn seconds_since(a: UtcTime, b: UtcTime) -> int {
    let day_a = a.secs % 86400;
    let day_b = b.secs % 86400;
    let adj: int = if day_a > day_b && b.nanos >= 1_000_000_000 {
        1
    } else if day_a < day_b && a.nanos >= 1_000_000_000 {
        -1
    } else {
        0
    };
    let frac = a.nanos - b.nanos;
    let total = a.secs - b.secs + adj + frac / 1_000_000_000;
    let rem = frac % 1_000_000_000;
    if total < 0 && rem > 0 {
        total + 1
    } else {
        total
    }
}

/// `a.signed_duration_since(b).num_seconds()`.
pub fn whole_seconds_since(a: UtcTime, b: UtcTime) -> (r: i64)
    requires
        a.wf(),
        b.wf(),
    ensures
        r == seconds_since(a, b),
{
    let day_a = a.secs % 86400;
    let day_a = if day_a < 0 { day_a + 86400 } else { day_a };
    let day_b = b.secs % 86400;
    let day_b = if day_b < 0 { day_b + 86400 } else { day_b };
    let adj: i64 = if day_a > day_b && b.nanos >= 1_000_000_000 {
        1
    } else if day_a < day_b && a.nanos >= 1_000_000_000 {
        -1
    } else {
        0
    };
    let frac: i64 = a.nanos as i64 - b.nanos as i64;
    let q: i64 = if frac >= 1_000_000_000 {
        1
    } else if frac >= 0 {
        0
    } else if frac >= -1_000_000_000 {
        -1
    } else {
        -2
    };
    let rem: i64 = frac - q * 1_000_000_000;
    assert(q == frac / 1_000_000_000 && rem == frac % 1_000_000_000);
    let total = a.secs - b.secs + adj + q;
    if total < 0 && rem > 0 {
        total + 1
    } else {
        total
    }
}


/// `t.timestamp_millis()`: whole milliseconds since the epoch (a leap
/// second's extra milliseconds included).
pub open spec fn timestamp_millis(t: UtcTime) -> int {
    t.secs * 1000 + t.nanos / 1_000_000
}

/// The instant `millis` milliseconds after `launch`, as `chrono` builds it
/// from `launch.timestamp_millis() + millis`; `launch` itself when that
/// lies outside the range of a UTC date-time.
pub open spec fn offset_by_millis(launch: UtcTime, millis: int) -> UtcTime {
    let ms = timestamp_millis(launch) + millis;
    let secs = ms / 1000;
    let nanos = (ms % 1000) * 1_000_000;
    if valid_instant(secs, nanos) {
        UtcTime { secs: secs as i64, nanos: nanos as u32 }
    } else {
        launch
    }
}

/// The instant `millis` milliseconds after `launch_time`, or `launch_time`
/// when that is out of range.
pub fn datetime_at_millis(launch_time: UtcTime, millis: i64) -> (r: UtcTime)
    requires
        launch_time.wf(),
        i64::MIN <= timestamp_millis(launch_time) + millis <= i64::MAX,
    ensures
        r == offset_by_millis(launch_time, millis as int),
        r.wf(),
{
    let ms = launch_time.secs * 1000 + (launch_time.nanos / 1_000_000) as i64 + millis;
    let q = ms / 1000;
    let rem = ms % 1000;
    let (q, rem) = if rem < 0 { (q - 1, rem + 1000) } else { (q, rem) };
    assert(q == ms as int / 1000 && rem == ms as int % 1000);
    let nanos = (rem as u32) * 1_000_000;
    match UtcTime::from_timestamp(q, nanos) {
        Some(t) => t,
        None => launch_time,
    }
}


/// The cycle start of an instant is a whole six-hour mark at most six hours
/// before it; it is its own cycle start, and later instants never have an
/// earlier cycle start.
pub proof fn cycle_floor_laws(a: UtcTime, b: UtcTime)
    requires
        a.wf(),
        b.wf(),
    ensures
        cycle_floor(a).wf(),
        cycle_floor(a).nanos == 0,
        cycle_floor(a).secs % CYCLE_SECONDS == 0,
        cycle_floor(a).le(a),
        a.secs - cycle_floor(a).secs < CYCLE_SECONDS,
        cycle_floor(cycle_floor(a)) == cycle_floor(a),
        a.le(b) ==> cycle_floor(a).le(cycle_floor(b)),
{
    lemma_cycle_floor(a);
    lemma_cycle_floor(b);
    assert(MIN_TIMESTAMP % CYCLE_SECONDS == 0);
    let fa = cycle_floor(a);
    assert(fa.wf());
    lemma_cycle_floor(fa);
    if a.le(b) {
        let fb = cycle_floor(b);
        if fb.secs < fa.secs {
            assert(fa.secs - fb.secs >= CYCLE_SECONDS) by {
                let x = fa.secs as int;
                let y = fb.secs as int;
                assert(x == (x / 21600) * 21600);
                assert(y == (y / 21600) * 21600);
                assert(y / 21600 < x / 21600) by (nonlinear_arith)
                    requires
                        x == (x / 21600) * 21600,
                        y == (y / 21600) * 21600,
                        y < x,
                ;
                assert((y / 21600) * 21600 + 21600 <= (x / 21600) * 21600) by (nonlinear_arith)
                    requires
                        y / 21600 < x / 21600,
                ;
            }
        }
    }
}

} // verus!
