//! Choosing the model run that a prediction uses: the conservative choice
//! from the clock, and the choice from the NOMADS availability page.
use vstd::prelude::*;

use crate::calendar::{now, parse_date_midnight, parsed_midnight};
use crate::text::{
    all_digits, chars_of, find_chars, find_from, is_ascii_digit, lemma_find_from, occurs_at,
    parse_u32, parse_u32_spec,
};
use crate::time::{
    cycle_floor, floor_model_cycle, floor_to_gfs_cycle, lemma_cycle_floor, shift_hours,
    shift_hours_ok, shifted, UtcTime, MAX_TIMESTAMP, MIN_TIMESTAMP,
};

verus! {

/// Hours after its initialisation before a GFS cycle is taken as published.
pub const GFS_AVAILABILITY_LAG_HOURS: i64 = 5;

/// Hours after its initialisation before a model cycle is taken as complete
/// when the availability page cannot be read.
pub const FALLBACK_MODEL_RUN_AVAILABILITY_LAG_HOURS: i64 = 6;

/// `t` shifted by `h` hours.
pub open spec fn hours_after(t: UtcTime, h: int) -> UtcTime {
    UtcTime { secs: shifted(t, h * 3600).0 as i64, nanos: shifted(t, h * 3600).1 as u32 }
}

/// The earlier of two instants (the first when equal).
pub open spec fn earlier(a: UtcTime, b: UtcTime) -> UtcTime {
    if a.le(b) {
        a
    } else {
        b
    }
}

/// The GFS run used for a launch when none is asked for: the cycle at or
/// before both the launch and five hours before `now`.
pub open spec fn gfs_run_for(now: UtcTime, launch: UtcTime) -> UtcTime {
    cycle_floor(earlier(hours_after(now, -5), launch))
}

/// The GFS run for a launch, given the current time.
pub fn resolve_gfs_run_time_at(now: UtcTime, launch_time: UtcTime) -> (r: UtcTime)
    requires
        now.wf(),
        launch_time.wf(),
        shift_hours_ok(now, -5),
    ensures
        r == gfs_run_for(now, launch_time),
        r.wf(),
{
    let available_before = shift_hours(now, -GFS_AVAILABILITY_LAG_HOURS);
    let limit = available_before.earliest(launch_time);
    floor_to_gfs_cycle(limit)
}

/// The latest GFS run that is likely published and not after the launch,
/// read against the system clock.
pub fn resolve_gfs_run_time(launch_time: UtcTime) -> (r: UtcTime)
    requires
        launch_time.wf(),
    ensures
        exists|now: UtcTime|
            #![trigger gfs_run_for(now, launch_time)]
            now.wf() && now.secs >= 0 && r == gfs_run_for(now, launch_time),
        r.wf(),
        r.nanos == 0,
        r.secs % 21600 == 0,
        r.le(launch_time),
{
    let current = now();
    let r = resolve_gfs_run_time_at(current, launch_time);
    proof {
        let limit = earlier(hours_after(current, -5), launch_time);
        assert(limit.wf());
        lemma_cycle_floor(limit);
    }
    r
}

/// The conservative run choice: the cycle of the launch, unless the latest
/// cycle completed six hours before `now` is earlier.
pub open spec fn fallback_run(now: UtcTime, launch: UtcTime) -> UtcTime {
    let latest_completed = cycle_floor(hours_after(now, -6));
    let launch_cycle = cycle_floor(launch);
    if launch_cycle.lt(latest_completed) {
        launch_cycle
    } else {
        latest_completed
    }
}

/// The model run to use when the availability page cannot be read.
pub fn select_model_run_time(now: UtcTime, launch_time: UtcTime) -> (r: UtcTime)
    requires
        now.wf(),
        launch_time.wf(),
        shift_hours_ok(now, -6),
    ensures
        r == fallback_run(now, launch_time),
        r.wf(),
{
    let latest_completed = floor_model_cycle(
        shift_hours(now, -FALLBACK_MODEL_RUN_AVAILABILITY_LAG_HOURS),
    );
    let launch_cycle = floor_model_cycle(launch_time);
    if launch_cycle.is_before(&latest_completed) {
        launch_cycle
    } else {
        latest_completed
    }
}

/// Instants in strictly increasing order.
pub open spec fn strictly_increasing(s: Seq<UtcTime>) -> bool {
    forall|i: int, j: int| 0 <= i < j < s.len() ==> s[i].lt(s[j])
}

/// Instants on whole seconds.
pub open spec fn whole_seconds(s: Seq<UtcTime>) -> bool {
    forall|i: int| 0 <= i < s.len() ==> (#[trigger] s[i]).nanos == 0 && s[i].wf()
}

/// Inserts `t` into a strictly increasing list, keeping it so (and not
/// adding it twice).
fn insert_sorted(v: &mut Vec<UtcTime>, t: UtcTime)
    requires
        strictly_increasing(old(v)@),
        whole_seconds(old(v)@),
        t.nanos == 0,
        t.wf(),
    ensures
        strictly_increasing(final(v)@),
        whole_seconds(final(v)@),
        forall|x: UtcTime| final(v)@.contains(x) <==> (old(v)@.contains(x) || x == t),
{
    let mut i: usize = 0;
    while i < v.len() && v[i].secs < t.secs
        invariant
            i <= v.len(),
            v@ == old(v)@,
            forall|k: int| 0 <= k < i ==> v@[k].secs < t.secs,
        decreases v.len() - i,
    {
        i = i + 1;
    }
    if i < v.len() && v[i].secs == t.secs {
        assert(v@[i as int] == t);
        return;
    }
    let ghost before = v@;
    assert(before == old(v)@);
    assert forall|k: int| i <= k < before.len() implies before[k].secs > t.secs by {
        assert(before[i as int].secs > t.secs);
        if k > i {
            assert(before[i as int].lt(before[k]));
        }
    }
    v.insert(i, t);
    assert forall|a: int, b: int| 0 <= a < b < v@.len() implies v@[a].lt(v@[b]) by {
        if b < i {
            assert(before[a].lt(before[b]));
        } else if b == i {
            assert(v@[a] == before[a]);
        } else if a < i {
            assert(v@[b] == before[b - 1]);
        } else if a == i {
            assert(v@[b] == before[b - 1]);
        } else {
            assert(before[a - 1].lt(before[b - 1]));
        }
    }
    assert forall|x: UtcTime| v@.contains(x) <==> (before.contains(x) || x == t) by {
        if v@.contains(x) {
            let k = choose|k: int| 0 <= k < v@.len() && v@[k] == x;
            if k < i {
                assert(before[k] == x);
            } else if k > i {
                assert(before[k - 1] == x);
            }
        }
        if before.contains(x) {
            let k = choose|k: int| 0 <= k < before.len() && before[k] == x;
            if k < i {
                assert(v@[k] == x);
            } else {
                assert(v@[k + 1] == x);
            }
        }
        if x == t {
            assert(v@[i as int] == t);
        }
    }
    assert(forall|x: UtcTime| v@.contains(x) <==> (old(v)@.contains(x) || x == t));
}


/// The bytes that `u8::is_ascii_whitespace` accepts.
pub open spec fn is_ascii_ws(c: char) -> bool {
    c == ' ' || c == '\t' || c == '\n' || c == '\x0C' || c == '\r'
}

/// The first index at or after `i` that does not hold ASCII whitespace.
pub open spec fn skip_ws(text: Seq<char>, i: int) -> int
    decreases text.len() - i,
{
    if 0 <= i < text.len() && is_ascii_ws(text[i]) {
        skip_ws(text, i + 1)
    } else {
        i
    }
}

pub proof fn lemma_skip_ws(text: Seq<char>, i: int)
    requires
        0 <= i <= text.len(),
    ensures
        i <= skip_ws(text, i) <= text.len(),
    decreases text.len() - i,
{
    if i < text.len() && is_ascii_ws(text[i]) {
        lemma_skip_ws(text, i + 1);
    }
}

/// The quoted values that follow `marker` in `text`, scanning from `cursor`:
/// after each occurrence of the marker and any whitespace, a value quoted
/// with `'` or `"` is taken up to the next same quote; an unquoted spot is
/// skipped; a quote that never closes, or the end of the text, ends the scan.
pub open spec fn quoted_values_from(text: Seq<char>, marker: Seq<char>, cursor: int) -> Seq<
    Seq<char>,
>
    decreases text.len() + 1 - cursor,
{
    if marker.len() == 0 || cursor < 0 || cursor > text.len() {
        Seq::empty()
    } else {
        match find_from(text, marker, cursor) {
            None => Seq::empty(),
            Some(p) => {
                proof {
                    lemma_find_from(text, marker, cursor);
                    lemma_skip_ws(text, p + marker.len());
                }
                let vs = skip_ws(text, p + marker.len());
                if vs >= text.len() {
                    Seq::empty()
                } else if text[vs] != '\'' && text[vs] != '"' {
                    quoted_values_from(text, marker, vs)
                } else {
                    match find_from(text, seq![text[vs]], vs + 1) {
                        None => Seq::empty(),
                        Some(e) => {
                            proof {
                                lemma_find_from(text, seq![text[vs]], vs + 1);
                            }
                            seq![text.subrange(vs + 1, e)] + quoted_values_from(text, marker, e + 1)
                        },
                    }
                }
            },
        }
    }
}

/// A `String` of the characters `v[from..to]`.
fn string_from_range(v: &Vec<char>, from: usize, to: usize) -> (r: String)
    requires
        from <= to <= v.len(),
    ensures
        r@ == v@.subrange(from as int, to as int),
{
    let mut r = String::new();
    let mut i = from;
    while i < to
        invariant
            from <= i <= to <= v.len(),
            r@ == v@.subrange(from as int, i as int),
        decreases to - i,
    {
        crate::text::push_char(&mut r, v[i]);
        i = i + 1;
        assert(r@ =~= v@.subrange(from as int, i as int));
    }
    r
}

/// The quoted values that follow each `marker` in `text`.
pub fn extract_quoted_values(text: &Vec<char>, marker: &Vec<char>) -> (r: Vec<String>)
    requires
        marker.len() > 0,
    ensures
        r@.map_values(|s: String| s@) == quoted_values_from(text@, marker@, 0),
{
    let mut values: Vec<String> = Vec::new();
    let mut cursor: usize = 0;
    loop
        invariant
            cursor <= text.len(),
            marker.len() > 0,
            values@.map_values(|s: String| s@) + quoted_values_from(text@, marker@, cursor as int)
                == quoted_values_from(text@, marker@, 0),
        decreases text.len() + 1 - cursor,
    {
        let ghost before = values@.map_values(|s: String| s@);
        let found = find_chars(text, marker, cursor);
        proof {
            lemma_find_from(text@, marker@, cursor as int);
        }
        match found {
            None => {
                assert(before + quoted_values_from(text@, marker@, cursor as int) =~= before);
                return values;
            },
            Some(p) => {
                let mut vs = p + marker.len();
                proof {
                    lemma_skip_ws(text@, vs as int);
                }
                while vs < text.len() && (text[vs] == ' ' || text[vs] == '\t' || text[vs] == '\n'
                    || text[vs] == '\x0C' || text[vs] == '\r')
                    invariant
                        p + marker.len() <= vs <= text.len(),
                        skip_ws(text@, (p + marker.len()) as int) == skip_ws(text@, vs as int),
                    decreases text.len() - vs,
                {
                    vs = vs + 1;
                }
                if vs >= text.len() {
                    assert(before + quoted_values_from(text@, marker@, cursor as int) =~= before);
                    return values;
                }
                let q = text[vs];
                if q != '\'' && q != '"' {
                    cursor = vs;
                } else {
                    let mut quote: Vec<char> = Vec::new();
                    quote.push(q);
                    assert(quote@ =~= seq![text@[vs as int]]);
                    let closing = find_chars(text, &quote, vs + 1);
                    proof {
                        lemma_find_from(text@, quote@, vs + 1);
                    }
                    match closing {
                        None => {
                            assert(before + quoted_values_from(text@, marker@, cursor as int)
                                =~= before);
                            return values;
                        },
                        Some(e) => {
                            let value = string_from_range(text, vs + 1, e);
                            values.push(value);
                            assert(values@.map_values(|s: String| s@) =~= before.push(
                                text@.subrange(vs + 1, e as int),
                            ));
                            cursor = e + 1;
                        },
                    }
                }
            },
        }
    }
}


/// Bytes that the UTF-8 encoding of `c` takes.
pub open spec fn utf8_width(c: char) -> int {
    if (c as u32) < 0x80 {
        1
    } else if (c as u32) < 0x800 {
        2
    } else if (c as u32) < 0x10000 {
        3
    } else {
        4
    }
}

/// The first `budget` bytes of `rest` end inside a character.
pub open spec fn cuts_character(rest: Seq<char>, budget: int) -> bool
    decreases rest.len(),
{
    if budget <= 0 || rest.len() == 0 {
        false
    } else if utf8_width(rest[0]) > budget {
        true
    } else {
        cuts_character(rest.drop_first(), budget - utf8_width(rest[0]))
    }
}

/// Every eight bytes that follow a `gfs.` in the page end on a character
/// boundary, so that reading them as a date cannot split a character.
pub open spec fn date_windows_whole(html: Seq<char>) -> bool {
    forall|p: int| occurs_at(html, "gfs."@, p) ==> !cuts_character(html.skip(p + 4), 8)
}

/// The date that the eight digits after a `gfs.` at `p` name, if they do.
pub open spec fn date_at(html: Seq<char>, p: int) -> Option<UtcTime> {
    if occurs_at(html, "gfs."@, p) && p + 12 <= html.len() && all_digits(
        html.subrange(p + 4, p + 12),
    ) {
        parsed_midnight(html.subrange(p + 4, p + 12), "%Y%m%d"@)
    } else {
        None
    }
}

/// `d` is the midnight of a date listed as `gfs.YYYYMMDD` in the page.
pub open spec fn listed_date(html: Seq<char>, d: UtcTime) -> bool {
    exists|p: int| #[trigger] date_at(html, p) == Some(d)
}

/// Two occurrences of `gfs.` never overlap.
proof fn lemma_marker_no_overlap(html: Seq<char>, p: int, q: int)
    requires
        occurs_at(html, "gfs."@, p),
        p < q < p + 4,
    ensures
        !occurs_at(html, "gfs."@, q),
{
    reveal_strlit("gfs.");
    if occurs_at(html, "gfs."@, q) {
        assert(html.subrange(q, q + 4)[0] == 'g');
        assert(html[q] == 'g');
        assert(html.subrange(p, p + 4)[q - p] == html[q]);
    }
}

/// Whether the first `budget` bytes of `cs[from..]` end inside a character.
fn window_cuts_character(cs: &Vec<char>, from: usize, budget: i64) -> (r: bool)
    requires
        from <= cs.len(),
        0 <= budget <= 8,
    ensures
        r == cuts_character(cs@.skip(from as int), budget as int),
{
    let mut i = from;
    let mut left = budget;
    while left > 0 && i < cs.len()
        invariant
            from <= i <= cs.len(),
            0 <= left <= 8,
            cuts_character(cs@.skip(from as int), budget as int) == cuts_character(
                cs@.skip(i as int),
                left as int,
            ),
        decreases cs.len() - i,
    {
        let c = cs[i];
        let w: i64 = if (c as u32) < 0x80 {
            1
        } else if (c as u32) < 0x800 {
            2
        } else if (c as u32) < 0x10000 {
            3
        } else {
            4
        };
        assert(cs@.skip(i as int).drop_first() =~= cs@.skip(i + 1));
        if w > left {
            return true;
        }
        left = left - w;
        i = i + 1;
    }
    false
}

/// Whether no `gfs.` date window of the page splits a character (else
/// reading the dates would have to cut a character apart).
pub fn dates_readable(html: &str) -> (r: bool)
    ensures
        r == date_windows_whole(html@),
{
    let cs = chars_of(html);
    let pat = chars_of("gfs.");
    let mut cursor: usize = 0;
    loop
        invariant
            cs@ == html@,
            pat@ == "gfs."@,
            cursor <= cs.len(),
            forall|p: int|
                0 <= p < cursor && occurs_at(html@, "gfs."@, p) ==> !cuts_character(
                    html@.skip(p + 4),
                    8,
                ),
        decreases cs.len() + 1 - cursor,
    {
        let found = find_chars(&cs, &pat, cursor);
        proof {
            lemma_find_from(cs@, pat@, cursor as int);
        }
        match found {
            None => {
                return true;
            },
            Some(p) => {
                proof {
                    reveal_strlit("gfs.");
                }
                if window_cuts_character(&cs, p + 4, 8) {
                    return false;
                }
                proof {
                    assert forall|q: int| p < q < p + 4 implies !occurs_at(html@, "gfs."@, q) by {
                        lemma_marker_no_overlap(html@, p as int, q);
                    }
                }
                cursor = p + 4;
            },
        }
    }
}

/// Whether `cs[from..from + 8]` are all ASCII digits.
fn eight_digits(cs: &Vec<char>, from: usize) -> (r: bool)
    requires
        from + 8 <= cs.len(),
    ensures
        r == all_digits(cs@.subrange(from as int, from + 8)),
{
    let mut k: usize = 0;
    while k < 8
        invariant
            k <= 8,
            from + 8 <= cs.len(),
            forall|m: int| 0 <= m < k ==> is_ascii_digit(#[trigger] cs@.subrange(from as int, from + 8)[m]),
        decreases 8 - k,
    {
        let c = cs[from + k];
        if !('0' <= c && c <= '9') {
            assert(!is_ascii_digit(cs@.subrange(from as int, from + 8)[k as int]));
            return false;
        }
        k = k + 1;
    }
    true
}

/// The dates listed on the NOMADS GFS page as `gfs.YYYYMMDD`, as midnights
/// in UTC, in increasing order and each once.
pub fn parse_available_gfs_dates(html: &str) -> (r: Vec<UtcTime>)
    requires
        date_windows_whole(html@),
    ensures
        strictly_increasing(r@),
        whole_seconds(r@),
        forall|i: int| 0 <= i < r.len() ==> (#[trigger] r[i]).secs % 86400 == 0,
        forall|d: UtcTime| r@.contains(d) <==> listed_date(html@, d),
{
    let cs = chars_of(html);
    let pat = chars_of("gfs.");
    let mut dates: Vec<UtcTime> = Vec::new();
    let mut cursor: usize = 0;
    proof {
        reveal_strlit("gfs.");
    }
    loop
        invariant
            cs@ == html@,
            pat@ == "gfs."@,
            pat@.len() == 4,
            cursor <= cs.len(),
            strictly_increasing(dates@),
            whole_seconds(dates@),
            forall|i: int| 0 <= i < dates.len() ==> (#[trigger] dates[i]).secs % 86400 == 0,
            forall|d: UtcTime|
                dates@.contains(d) <==> exists|p: int|
                    0 <= p < cursor && #[trigger] date_at(html@, p) == Some(d),
        decreases cs.len() + 1 - cursor,
    {
        let found = find_chars(&cs, &pat, cursor);
        proof {
            lemma_find_from(cs@, pat@, cursor as int);
        }
        match found {
            None => {
                assert forall|d: UtcTime| dates@.contains(d) <==> listed_date(html@, d) by {
                    if listed_date(html@, d) {
                        let p = choose|p: int| #[trigger] date_at(html@, p) == Some(d);
                        assert(occurs_at(html@, "gfs."@, p));
                    }
                }
                return dates;
            },
            Some(p) => {
                let ghost before = dates@;
                let date_start = p + 4;
                let mut found_date: Option<UtcTime> = None;
                if date_start <= cs.len() && 8 <= cs.len() - date_start {
                    if eight_digits(&cs, date_start) {
                        let text = string_from_range(&cs, date_start, date_start + 8);
                        found_date = parse_date_midnight(text.as_str(), "%Y%m%d");
                    }
                }
                assert(found_date == date_at(html@, p as int));
                match found_date {
                    Some(d) => {
                        insert_sorted(&mut dates, d);
                        assert forall|i: int| 0 <= i < dates.len() implies (#[trigger] dates[i]).secs % 86400 == 0 by {
                            assert(dates@.contains(dates@[i]));
                            if before.contains(dates@[i]) {
                                let k = choose|k: int| 0 <= k < before.len() && before[k] == dates@[i];
                            }
                        }
                    },
                    None => {},
                }
                proof {
                    assert forall|q: int| p < q < p + 4 implies !occurs_at(html@, "gfs."@, q) by {
                        lemma_marker_no_overlap(html@, p as int, q);
                    }
                    assert forall|d: UtcTime|
                        dates@.contains(d) <==> exists|q: int|
                            0 <= q < p + 4 && #[trigger] date_at(html@, q) == Some(d) by {
                        if dates@.contains(d) {
                            if before.contains(d) {
                                let q = choose|q: int|
                                    0 <= q < cursor && #[trigger] date_at(html@, q) == Some(d);
                                assert(0 <= q < p + 4);
                            } else {
                                assert(date_at(html@, p as int) == Some(d));
                            }
                        }
                        if exists|q: int| 0 <= q < p + 4 && #[trigger] date_at(html@, q) == Some(d) {
                            let q = choose|q: int|
                                0 <= q < p + 4 && #[trigger] date_at(html@, q) == Some(d);
                            if q < cursor {
                                assert(before.contains(d));
                            } else if q == p {
                            } else {
                                assert(occurs_at(html@, "gfs."@, q));
                            }
                        }
                    }
                }
                cursor = date_start;
            },
        }
    }
}


/// The part of the page from `Cycle` (or its start) up to the next
/// `Subdirectory` (or its end).
pub open spec fn cycle_section(html: Seq<char>) -> Seq<char> {
    let start = match find_from(html, "Cycle"@, 0) {
        Some(i) => i,
        None => 0,
    };
    let end = match find_from(html, "Subdirectory"@, start) {
        Some(i) => i,
        None => html.len() as int,
    };
    html.subrange(start, end)
}

/// The quoted values of the cycle section: first those after
/// `click_subdir(1,`, then those after `value=`.
pub open spec fn cycle_values(html: Seq<char>) -> Seq<Seq<char>> {
    quoted_values_from(cycle_section(html), "click_subdir(1,"@, 0) + quoted_values_from(
        cycle_section(html),
        "value="@,
        0,
    )
}

/// A model cycle hour (00, 06, 12, 18).
pub open spec fn is_cycle_hour(c: u32) -> bool {
    c < 24 && c % 6 == 0
}

/// `c` is a cycle hour that the page's cycle section lists.
pub open spec fn listed_cycle(html: Seq<char>, c: u32) -> bool {
    exists|i: int|
        0 <= i < cycle_values(html).len() && parse_u32_spec(#[trigger] cycle_values(html)[i])
            == Some(c) && is_cycle_hour(c)
}

pub open spec fn strictly_increasing_u32(s: Seq<u32>) -> bool {
    forall|i: int, j: int| 0 <= i < j < s.len() ==> s[i] < s[j]
}

/// Inserts `x` into a strictly increasing list, keeping it so.
fn insert_sorted_u32(v: &mut Vec<u32>, x: u32)
    requires
        strictly_increasing_u32(old(v)@),
    ensures
        strictly_increasing_u32(final(v)@),
        forall|y: u32| final(v)@.contains(y) <==> (old(v)@.contains(y) || y == x),
{
    let mut i: usize = 0;
    while i < v.len() && v[i] < x
        invariant
            i <= v.len(),
            v@ == old(v)@,
            forall|k: int| 0 <= k < i ==> v@[k] < x,
        decreases v.len() - i,
    {
        i = i + 1;
    }
    if i < v.len() && v[i] == x {
        return;
    }
    let ghost before = v@;
    assert(before == old(v)@);
    assert forall|k: int| i <= k < before.len() implies before[k] > x by {
        if k > i {
            assert(before[i as int] < before[k]);
        }
    }
    v.insert(i, x);
    assert forall|a: int, b: int| 0 <= a < b < v@.len() implies v@[a] < v@[b] by {
        if b < i {
            assert(before[a] < before[b]);
        } else if b == i {
            assert(v@[a] == before[a]);
        } else if a < i {
            assert(v@[b] == before[b - 1]);
        } else if a == i {
            assert(v@[b] == before[b - 1]);
        } else {
            assert(before[a - 1] < before[b - 1]);
        }
    }
    assert forall|y: u32| v@.contains(y) <==> (before.contains(y) || y == x) by {
        if v@.contains(y) {
            let k = choose|k: int| 0 <= k < v@.len() && v@[k] == y;
            if k < i {
                assert(before[k] == y);
            } else if k > i {
                assert(before[k - 1] == y);
            }
        }
        if before.contains(y) {
            let k = choose|k: int| 0 <= k < before.len() && before[k] == y;
            if k < i {
                assert(v@[k] == y);
            } else {
                assert(v@[k + 1] == y);
            }
        }
        if y == x {
            assert(v@[i as int] == x);
        }
    }
    assert(forall|y: u32| v@.contains(y) <==> (old(v)@.contains(y) || y == x));
}

/// The characters `v[from..to]` as a new vector.
fn sub_chars(v: &Vec<char>, from: usize, to: usize) -> (r: Vec<char>)
    requires
        from <= to <= v.len(),
    ensures
        r@ == v@.subrange(from as int, to as int),
{
    let mut r: Vec<char> = Vec::new();
    let mut i = from;
    while i < to
        invariant
            from <= i <= to <= v.len(),
            r@ == v@.subrange(from as int, i as int),
        decreases to - i,
    {
        r.push(v[i]);
        i = i + 1;
        assert(r@ =~= v@.subrange(from as int, i as int));
    }
    r
}

/// The model cycles (00/06/12/18) listed in the cycle section of the NOMADS
/// GFS page, in increasing order and each once.
pub fn parse_available_gfs_cycles(html: &str) -> (r: Vec<u32>)
    ensures
        strictly_increasing_u32(r@),
        forall|c: u32| r@.contains(c) <==> listed_cycle(html@, c),
{
    let cs = chars_of(html);
    let cycle_word = chars_of("Cycle");
    let subdir_word = chars_of("Subdirectory");
    let start = match find_chars(&cs, &cycle_word, 0) {
        Some(i) => i,
        None => 0,
    };
    proof {
        lemma_find_from(cs@, cycle_word@, 0);
    }
    let end = match find_chars(&cs, &subdir_word, start) {
        Some(i) => i,
        None => cs.len(),
    };
    proof {
        lemma_find_from(cs@, subdir_word@, start as int);
        reveal_strlit("Subdirectory");
    }
    let section = sub_chars(&cs, start, end);
    assert(section@ == cycle_section(html@));
    let click = chars_of("click_subdir(1,");
    let value_word = chars_of("value=");
    proof {
        reveal_strlit("click_subdir(1,");
        reveal_strlit("value=");
    }
    let mut all = extract_quoted_values(&section, &click);
    let mut second = extract_quoted_values(&section, &value_word);
    let ghost first_views = all@.map_values(|s: String| s@);
    let ghost second_views = second@.map_values(|s: String| s@);
    all.append(&mut second);
    let ghost values = cycle_values(html@);
    assert(values =~= all@.map_values(|s: String| s@));
    let mut cycles: Vec<u32> = Vec::new();
    let total = all.len();
    let mut k: usize = 0;
    while k < total
        invariant
            total == all.len(),
            values == all@.map_values(|s: String| s@),
            values == cycle_values(html@),
            k <= total,
            strictly_increasing_u32(cycles@),
            forall|c: u32|
                cycles@.contains(c) <==> exists|i: int|
                    0 <= i < k && parse_u32_spec(#[trigger] values[i]) == Some(c) && is_cycle_hour(c),
        decreases total - k,
    {
        let value = &all[k];
        assert(value@ == values[k as int]);
        let ghost before = cycles@;
        match parse_u32(value.as_str()) {
            Some(cycle) => {
                if cycle < 24 && cycle % 6 == 0 {
                    insert_sorted_u32(&mut cycles, cycle);
                }
            },
            None => {},
        }
        proof {
            assert forall|c: u32|
                cycles@.contains(c) <==> exists|i: int|
                    0 <= i < k + 1 && parse_u32_spec(#[trigger] values[i]) == Some(c)
                        && is_cycle_hour(c) by {
                if cycles@.contains(c) && !before.contains(c) {
                    assert(parse_u32_spec(values[k as int]) == Some(c));
                }
                if exists|i: int|
                    0 <= i < k + 1 && parse_u32_spec(#[trigger] values[i]) == Some(c)
                        && is_cycle_hour(c) {
                    let i = choose|i: int|
                        0 <= i < k + 1 && parse_u32_spec(#[trigger] values[i]) == Some(c)
                            && is_cycle_hour(c);
                    if i < k {
                        assert(before.contains(c));
                    }
                }
            }
        }
        k = k + 1;
    }
    cycles
}


/// The run `hour` hours after the midnight `date`.
pub open spec fn run_at(date: UtcTime, hour: u32) -> UtcTime {
    UtcTime { secs: (date.secs + 3600 * hour) as i64, nanos: 0 }
}

/// `x` is a run that the page lists: a listed date at a listed cycle hour.
pub open spec fn listed_run(html: Seq<char>, x: UtcTime) -> bool {
    exists|d: UtcTime, c: u32|
        #![trigger listed_date(html, d), listed_cycle(html, c)]
        listed_date(html, d) && listed_cycle(html, c) && x == run_at(d, c)
}

proof fn lemma_midnights_apart(a: int, b: int)
    requires
        a % 86400 == 0,
        b % 86400 == 0,
        a < b,
    ensures
        a + 86400 <= b,
{
    assert(a == (a / 86400) * 86400);
    assert(b == (b / 86400) * 86400);
    assert(a / 86400 < b / 86400) by (nonlinear_arith)
        requires
            a == (a / 86400) * 86400,
            b == (b / 86400) * 86400,
            a < b,
    ;
    assert((a / 86400) * 86400 + 86400 <= (b / 86400) * 86400) by (nonlinear_arith)
        requires
            a / 86400 < b / 86400,
    ;
}

proof fn lemma_last_midnight(a: int)
    requires
        a % 86400 == 0,
        a <= MAX_TIMESTAMP,
    ensures
        a + 82800 <= MAX_TIMESTAMP,
{
    assert(a == (a / 86400) * 86400);
    assert(a / 86400 <= 95026236) by (nonlinear_arith)
        requires
            a == (a / 86400) * 86400,
            a <= 8210266876799int,
    ;
}

/// The runs that the NOMADS GFS page lists: each listed date at each
/// listed cycle hour, in increasing order.
pub fn available_gfs_runs(html: &str) -> (r: Vec<UtcTime>)
    requires
        date_windows_whole(html@),
    ensures
        strictly_increasing(r@),
        whole_seconds(r@),
        forall|x: UtcTime| r@.contains(x) <==> listed_run(html@, x),
{
    let dates = parse_available_gfs_dates(html);
    let cycles = parse_available_gfs_cycles(html);
    let mut runs: Vec<UtcTime> = Vec::new();
    let mut i: usize = 0;
    while i < dates.len()
        invariant
            i <= dates.len(),
            strictly_increasing(dates@),
            whole_seconds(dates@),
            forall|k: int| 0 <= k < dates.len() ==> (#[trigger] dates[k]).secs % 86400 == 0,
            strictly_increasing_u32(cycles@),
            forall|c: u32| cycles@.contains(c) ==> is_cycle_hour(c),
            strictly_increasing(runs@),
            whole_seconds(runs@),
            i < dates.len() ==> forall|k: int| 0 <= k < runs.len() ==> (#[trigger] runs[k]).secs
                < dates[i as int].secs,
            forall|x: UtcTime|
                runs@.contains(x) <==> exists|a: int, b: int|
                    0 <= a < i && 0 <= b < cycles.len() && x == run_at(
                        #[trigger] dates@[a],
                        #[trigger] cycles@[b],
                    ),
        decreases dates.len() - i,
    {
        let d = dates[i];
        let mut j: usize = 0;
        proof {
            lemma_last_midnight(d.secs as int);
        }
        while j < cycles.len()
            invariant
                i < dates.len(),
                d == dates[i as int],
                d.secs % 86400 == 0,
                d.wf(),
                d.nanos == 0,
                d.secs + 82800 <= MAX_TIMESTAMP,
                j <= cycles.len(),
                strictly_increasing_u32(cycles@),
                forall|c: u32| cycles@.contains(c) ==> is_cycle_hour(c),
                strictly_increasing(runs@),
                whole_seconds(runs@),
                j < cycles.len() ==> forall|k: int| 0 <= k < runs.len() ==> (#[trigger] runs[k]).secs
                    < d.secs + 3600 * cycles[j as int],
                forall|k: int| 0 <= k < runs.len() ==> (#[trigger] runs[k]).secs < d.secs + 86400,
                forall|x: UtcTime|
                    runs@.contains(x) <==> (exists|a: int, b: int|
                        0 <= a < i && 0 <= b < cycles.len() && x == run_at(
                            #[trigger] dates@[a],
                            #[trigger] cycles@[b],
                        )) || (exists|b: int| 0 <= b < j && x == run_at(d, #[trigger] cycles@[b])),
            decreases cycles.len() - j,
        {
            let c = cycles[j];
            assert(cycles@[j as int] == c);
            assert(cycles@.contains(c));
            assert(is_cycle_hour(c));
            assert(c < 24);
            let run = UtcTime { secs: d.secs + 3600 * (c as i64), nanos: 0 };
            assert(run.wf());
            let ghost before = runs@;
            runs.push(run);
            proof {
                assert forall|a: int, b: int| 0 <= a < b < runs@.len() implies runs@[a].lt(runs@[b]) by {
                    if b < before.len() {
                        assert(before[a].lt(before[b]));
                    } else {
                        assert(runs@[a] == before[a]);
                    }
                }
                if j + 1 < cycles.len() {
                    assert(cycles@[j as int] < cycles@[j + 1]);
                }
                assert forall|x: UtcTime|
                    runs@.contains(x) <==> (exists|a: int, b: int|
                        0 <= a < i && 0 <= b < cycles.len() && x == run_at(
                            #[trigger] dates@[a],
                            #[trigger] cycles@[b],
                        )) || (exists|b: int| 0 <= b < j + 1 && x == run_at(d, #[trigger] cycles@[b])) by {
                    if runs@.contains(x) && !before.contains(x) {
                        assert(x == run_at(d, cycles@[j as int]));
                    }
                    if exists|b: int| 0 <= b < j + 1 && x == run_at(d, #[trigger] cycles@[b]) {
                        let b = choose|b: int| 0 <= b < j + 1 && x == run_at(d, #[trigger] cycles@[b]);
                        if b < j {
                            assert(before.contains(x));
                        } else {
                            assert(runs@[before.len() as int] == x);
                        }
                    }
                    if before.contains(x) {
                        let k = choose|k: int| 0 <= k < before.len() && before[k] == x;
                        assert(runs@[k] == x);
                    }
                }
            }
            j = j + 1;
        }
        proof {
            if i + 1 < dates.len() {
                assert(dates@[i as int].lt(dates@[i + 1]));
                lemma_midnights_apart(d.secs as int, dates@[i + 1].secs as int);
            }
            assert forall|x: UtcTime|
                runs@.contains(x) <==> exists|a: int, b: int|
                    0 <= a < i + 1 && 0 <= b < cycles.len() && x == run_at(
                        #[trigger] dates@[a],
                        #[trigger] cycles@[b],
                    ) by {
                if exists|a: int, b: int|
                    0 <= a < i + 1 && 0 <= b < cycles.len() && x == run_at(
                        #[trigger] dates@[a],
                        #[trigger] cycles@[b],
                    ) {
                    let (a, b) = choose|a: int, b: int|
                        0 <= a < i + 1 && 0 <= b < cycles.len() && x == run_at(
                            #[trigger] dates@[a],
                            #[trigger] cycles@[b],
                        );
                    if a == i {
                        assert(exists|bb: int| 0 <= bb < j && x == run_at(d, #[trigger] cycles@[bb]));
                    }
                }
            }
        }
        i = i + 1;
    }
    proof {
        assert forall|x: UtcTime| runs@.contains(x) <==> listed_run(html@, x) by {
            if runs@.contains(x) {
                let (a, b) = choose|a: int, b: int|
                    0 <= a < dates.len() && 0 <= b < cycles.len() && x == run_at(
                        #[trigger] dates@[a],
                        #[trigger] cycles@[b],
                    );
                assert(dates@.contains(dates@[a]));
                assert(cycles@.contains(cycles@[b]));
                assert(listed_date(html@, dates@[a]) && listed_cycle(html@, cycles@[b]));
            }
            if listed_run(html@, x) {
                let (dd, cc) = choose|dd: UtcTime, cc: u32|
                    #![trigger listed_date(html@, dd), listed_cycle(html@, cc)]
                    listed_date(html@, dd) && listed_cycle(html@, cc) && x == run_at(dd, cc);
                assert(dates@.contains(dd));
                assert(cycles@.contains(cc));
                let a = choose|a: int| 0 <= a < dates.len() && dates@[a] == dd;
                let b = choose|b: int| 0 <= b < cycles.len() && cycles@[b] == cc;
                assert(x == run_at(dates@[a], cycles@[b]));
            }
        }
    }
    runs
}


/// The latest run a launch may use: the cycle at or before both the launch
/// and `now`.
pub open spec fn usable_limit(now: UtcTime, launch: UtcTime) -> UtcTime {
    cycle_floor(if launch.lt(now) { launch } else { now })
}

/// `r` is the latest of the runs (for which `usable` holds) not after `limit`.
pub open spec fn is_latest_usable(runs: Set<UtcTime>, limit: UtcTime, r: UtcTime) -> bool {
    &&& runs.contains(r)
    &&& r.le(limit)
    &&& forall|x: UtcTime| #[trigger] runs.contains(x) && x.le(limit) ==> x.le(r)
}

/// The latest listed run not after the usable limit, or the conservative
/// choice when no listed run qualifies.
pub fn choose_available_run(now: UtcTime, launch_time: UtcTime, runs: &Vec<UtcTime>) -> (r: UtcTime)
    requires
        now.wf(),
        launch_time.wf(),
        shift_hours_ok(now, -6),
    ensures
        ({
            let limit = usable_limit(now, launch_time);
            if exists|x: UtcTime| #[trigger] runs@.contains(x) && x.le(limit) {
                is_latest_usable(runs@.to_set(), limit, r)
            } else {
                r == fallback_run(now, launch_time)
            }
        }),
{
    let fallback = select_model_run_time(now, launch_time);
    let latest_allowed = floor_model_cycle(
        if launch_time.is_before(&now) {
            launch_time
        } else {
            now
        },
    );
    let ghost limit = usable_limit(now, launch_time);
    let mut best: Option<UtcTime> = None;
    let mut i: usize = 0;
    while i < runs.len()
        invariant
            i <= runs.len(),
            latest_allowed == limit,
            match best {
                Some(b) => runs@.subrange(0, i as int).contains(b) && b.le(limit) && forall|k: int|
                    0 <= k < i && (#[trigger] runs@[k]).le(limit) ==> runs@[k].le(b),
                None => forall|k: int| 0 <= k < i ==> !(#[trigger] runs@[k]).le(limit),
            },
        decreases runs.len() - i,
    {
        let run = runs[i];
        if !latest_allowed.is_before(&run) {
            let replace = match best {
                Some(b) => !run.is_before(&b),
                None => true,
            };
            if replace {
                best = Some(run);
            }
        }
        proof {
            match best {
                Some(b) => {
                    assert(runs@.subrange(0, i + 1).contains(b)) by {
                        if b == run {
                            assert(runs@.subrange(0, i + 1)[i as int] == b);
                        } else {
                            let k = choose|k: int| 0 <= k < i && runs@.subrange(0, i as int)[k] == b;
                            assert(runs@.subrange(0, i + 1)[k] == b);
                        }
                    }
                },
                None => {},
            }
        }
        i = i + 1;
    }
    assert(runs@.subrange(0, runs.len() as int) =~= runs@);
    match best {
        Some(b) => {
            proof {
                assert forall|x: UtcTime| #[trigger] runs@.to_set().contains(x) && x.le(limit) implies x.le(b) by {
                    let k = choose|k: int| 0 <= k < runs.len() && runs@[k] == x;
                }
            }
            b
        },
        None => fallback,
    }
}

/// The run to use for a launch, from the NOMADS availability page when it
/// could be fetched (`None` when not): the latest listed run at or before
/// both the launch and now, else the conservative choice.
pub fn select_available_gfs_run_time(now: UtcTime, launch_time: UtcTime, page: Option<&str>) -> (r:
    UtcTime)
    requires
        now.wf(),
        launch_time.wf(),
        shift_hours_ok(now, -6),
        page matches Some(html) ==> date_windows_whole(html@),
    ensures
        ({
            let limit = usable_limit(now, launch_time);
            match page {
                None => r == fallback_run(now, launch_time),
                Some(html) => if exists|x: UtcTime| #[trigger] listed_run(html@, x) && x.le(limit) {
                    is_latest_usable(Set::new(|x: UtcTime| listed_run(html@, x)), limit, r)
                } else {
                    r == fallback_run(now, launch_time)
                },
            }
        }),
{
    match page {
        None => select_model_run_time(now, launch_time),
        Some(html) => {
            let runs = available_gfs_runs(html);
            let r = choose_available_run(now, launch_time, &runs);
            proof {
                let limit = usable_limit(now, launch_time);
                assert(runs@.to_set() =~= Set::new(|x: UtcTime| listed_run(html@, x)));
                if exists|x: UtcTime| #[trigger] listed_run(html@, x) && x.le(limit) {
                    let x = choose|x: UtcTime| #[trigger] listed_run(html@, x) && x.le(limit);
                    assert(runs@.contains(x));
                }
            }
            r
        },
    }
}


/// The conservative run is a cycle start no later than the launch's cycle
/// and no later than the cycle completed six hours before `now`; it is one
/// of those two.
pub proof fn fallback_run_laws(now: UtcTime, launch: UtcTime)
    requires
        now.wf(),
        launch.wf(),
        shift_hours_ok(now, -6),
    ensures
        fallback_run(now, launch).nanos == 0,
        fallback_run(now, launch).secs % 21600 == 0,
        fallback_run(now, launch).le(cycle_floor(launch)),
        fallback_run(now, launch).le(cycle_floor(hours_after(now, -6))),
        fallback_run(now, launch) == cycle_floor(launch) || fallback_run(now, launch)
            == cycle_floor(hours_after(now, -6)),
        fallback_run(now, launch).le(launch),
{
    let earlier_now = hours_after(now, -6);
    assert(earlier_now.wf());
    lemma_cycle_floor(launch);
    lemma_cycle_floor(earlier_now);
}

/// The default GFS run is a cycle start at or before the launch and at or
/// before five hours before `now`.
pub proof fn gfs_run_for_laws(now: UtcTime, launch: UtcTime)
    requires
        now.wf(),
        launch.wf(),
        shift_hours_ok(now, -5),
    ensures
        gfs_run_for(now, launch).nanos == 0,
        gfs_run_for(now, launch).secs % 21600 == 0,
        gfs_run_for(now, launch).le(launch),
        gfs_run_for(now, launch).le(hours_after(now, -5)),
{
    let limit = earlier(hours_after(now, -5), launch);
    assert(limit.wf());
    lemma_cycle_floor(limit);
}

/// A run chosen from the availability page is never after the launch nor
/// after now: it is at or before the usable limit, itself at or before both.
pub proof fn usable_limit_laws(now: UtcTime, launch: UtcTime, r: UtcTime)
    requires
        now.wf(),
        launch.wf(),
        r.le(usable_limit(now, launch)),
    ensures
        r.le(launch),
        r.le(now),
{
    let m = if launch.lt(now) { launch } else { now };
    lemma_cycle_floor(m);
}

} // verus!
