//! Terrain-elevation sources for landing detection and the settings of the
//! OpenTopoData service.
use vstd::prelude::*;

use crate::text::{chars_of, contains, contains_chars, str_eq};

verus! {

/// Public OpenTopoData API (without a trailing slash).
pub const DEFAULT_OPENTOPO_BASE_URL: &'static str = "https://api.opentopodata.org";

/// The elevation data used to decide where the balloon lands.
#[derive(Debug, Clone, Copy, PartialEq, Eq, Hash, Structural)]
pub enum DemSource {
    /// GSI DEM10B (Japan, high resolution).
    GsiDem10b,
    /// OpenTopoData (SRTM 30 m, worldwide; may be self-hosted).
    OpenTopoData,
}

impl DemSource {
    pub open spec fn spec_as_str(self) -> Seq<char> {
        match self {
            DemSource::GsiDem10b => "gsi"@,
            DemSource::OpenTopoData => "opentopodata"@,
        }
    }

    pub open spec fn spec_parse(raw: Seq<char>) -> Option<DemSource> {
        if raw == "gsi"@ {
            Some(DemSource::GsiDem10b)
        } else if raw == "opentopodata"@ {
            Some(DemSource::OpenTopoData)
        } else {
            None
        }
    }

    /// The setting value that names the source.
    pub fn as_str(self) -> (r: &'static str)
        ensures
            r@ == self.spec_as_str(),
    {
        match self {
            DemSource::GsiDem10b => "gsi",
            DemSource::OpenTopoData => "opentopodata",
        }
    }

    /// The source that a setting value names, if any.
    pub fn parse(raw: &str) -> (r: Option<DemSource>)
        ensures
            r == DemSource::spec_parse(raw@),
    {
        if str_eq(raw, "gsi") {
            Some(DemSource::GsiDem10b)
        } else if str_eq(raw, "opentopodata") {
            Some(DemSource::OpenTopoData)
        } else {
            None
        }
    }
}

impl Default for DemSource {
    fn default() -> (r: DemSource)
        ensures
            r == DemSource::GsiDem10b,
    {
        DemSource::GsiDem10b
    }
}

/// Every source reads back from its own name, a name that reads as a
/// source is that source's name, and the names are `gsi` and `opentopodata`.
pub proof fn dem_source_roundtrip(source: DemSource, raw: Seq<char>)
    ensures
        DemSource::spec_parse(source.spec_as_str()) == Some(source),
        DemSource::spec_parse(raw) matches Some(s) ==> s.spec_as_str() == raw,
        DemSource::spec_parse("gsi"@) == Some(DemSource::GsiDem10b),
        DemSource::spec_parse("opentopodata"@) == Some(DemSource::OpenTopoData),
{
    reveal_strlit("gsi");
    reveal_strlit("opentopodata");
    assert("gsi"@.len() == 3 && "opentopodata"@.len() == 12);
}

/// The characters that `char::is_whitespace` accepts (Unicode White_Space).
pub open spec fn is_whitespace(c: char) -> bool {
    let u = c as u32;
    ||| 0x09 <= u <= 0x0D
    ||| u == 0x20
    ||| u == 0x85
    ||| u == 0xA0
    ||| u == 0x1680
    ||| 0x2000 <= u <= 0x200A
    ||| u == 0x2028
    ||| u == 0x2029
    ||| u == 0x202F
    ||| u == 0x205F
    ||| u == 0x3000
}

pub open spec fn trim_start(s: Seq<char>) -> Seq<char>
    decreases s.len(),
{
    if s.len() > 0 && is_whitespace(s[0]) {
        trim_start(s.drop_first())
    } else {
        s
    }
}

pub open spec fn trim_end(s: Seq<char>) -> Seq<char>
    decreases s.len(),
{
    if s.len() > 0 && is_whitespace(s.last()) {
        trim_end(s.drop_last())
    } else {
        s
    }
}

/// `s` without its trailing slashes (`str::trim_end_matches('/')`).
pub open spec fn trim_trailing_slashes(s: Seq<char>) -> Seq<char>
    decreases s.len(),
{
    if s.len() > 0 && s.last() == '/' {
        trim_trailing_slashes(s.drop_last())
    } else {
        s
    }
}

/// A base URL without surrounding whitespace and trailing slashes; the
/// public API when nothing is left.
pub open spec fn normalized_base_url(raw: Seq<char>) -> Seq<char> {
    let t = trim_trailing_slashes(trim_end(trim_start(raw)));
    if t.len() == 0 {
        DEFAULT_OPENTOPO_BASE_URL@
    } else {
        t
    }
}

fn is_whitespace_char(c: char) -> (r: bool)
    ensures
        r == is_whitespace(c),
{
    let u = c as u32;
    (0x09 <= u && u <= 0x0D) || u == 0x20 || u == 0x85 || u == 0xA0 || u == 0x1680 || (0x2000 <= u
        && u <= 0x200A) || u == 0x2028 || u == 0x2029 || u == 0x202F || u == 0x205F || u == 0x3000
}

/// `s` without leading and trailing whitespace (`str::trim`).
pub open spec fn trimmed(s: Seq<char>) -> Seq<char> {
    trim_end(trim_start(s))
}

/// The bounds, within `start..end` of `cs`, of that range without its
/// leading and trailing whitespace.
pub(crate) fn trimmed_bounds(cs: &Vec<char>, start: usize, end: usize) -> (r: (usize, usize))
    requires
        start <= end <= cs.len(),
    ensures
        start <= r.0 <= r.1 <= end,
        cs@.subrange(r.0 as int, r.1 as int) == trimmed(cs@.subrange(start as int, end as int)),
{
    let mut lo: usize = start;
    while lo < end && is_whitespace_char(cs[lo])
        invariant
            start <= lo <= end <= cs.len(),
            trim_start(cs@.subrange(start as int, end as int)) == trim_start(
                cs@.subrange(lo as int, end as int),
            ),
        decreases end - lo,
    {
        assert(cs@.subrange(lo as int, end as int).drop_first() =~= cs@.subrange(
            lo + 1,
            end as int,
        ));
        lo = lo + 1;
    }
    assert(trim_start(cs@.subrange(start as int, end as int)) == cs@.subrange(
        lo as int,
        end as int,
    ));
    let mut hi: usize = end;
    while hi > lo && is_whitespace_char(cs[hi - 1])
        invariant
            start <= lo <= hi <= end <= cs.len(),
            trim_end(cs@.subrange(lo as int, end as int)) == trim_end(
                cs@.subrange(lo as int, hi as int),
            ),
        decreases hi,
    {
        assert(cs@.subrange(lo as int, hi as int).drop_last() =~= cs@.subrange(
            lo as int,
            hi - 1,
        ));
        hi = hi - 1;
    }
    (lo, hi)
}

/// Trims whitespace and trailing slashes; an empty result selects the public API.
pub fn normalize_opentopo_base_url(raw: &str) -> (r: String)
    ensures
        r@ == normalized_base_url(raw@),
{
    let cs = chars_of(raw);
    let mut lo: usize = 0;
    assert(cs@.subrange(0, cs.len() as int) =~= cs@);
    while lo < cs.len() && is_whitespace_char(cs[lo])
        invariant
            lo <= cs.len(),
            trim_start(cs@) == trim_start(cs@.subrange(lo as int, cs.len() as int)),
        decreases cs.len() - lo,
    {
        assert(cs@.subrange(lo as int, cs.len() as int).drop_first() =~= cs@.subrange(
            lo + 1,
            cs.len() as int,
        ));
        lo = lo + 1;
    }
    assert(trim_start(cs@) == cs@.subrange(lo as int, cs.len() as int));
    let mut hi: usize = cs.len();
    while hi > lo && is_whitespace_char(cs[hi - 1])
        invariant
            lo <= hi <= cs.len(),
            trim_end(cs@.subrange(lo as int, cs.len() as int)) == trim_end(
                cs@.subrange(lo as int, hi as int),
            ),
        decreases hi,
    {
        assert(cs@.subrange(lo as int, hi as int).drop_last() =~= cs@.subrange(
            lo as int,
            hi - 1,
        ));
        hi = hi - 1;
    }
    let ghost trimmed = cs@.subrange(lo as int, hi as int);
    assert(trim_end(trim_start(cs@)) == trimmed);
    let mut end = hi;
    while end > lo && cs[end - 1] == '/'
        invariant
            lo <= end <= hi,
            hi <= cs.len(),
            trim_trailing_slashes(cs@.subrange(lo as int, hi as int)) == trim_trailing_slashes(
                cs@.subrange(lo as int, end as int),
            ),
        decreases end,
    {
        assert(cs@.subrange(lo as int, end as int).drop_last() =~= cs@.subrange(
            lo as int,
            end - 1,
        ));
        end = end - 1;
    }
    assert(trim_trailing_slashes(trimmed) == cs@.subrange(lo as int, end as int));
    if end == lo {
        DEFAULT_OPENTOPO_BASE_URL.to_owned()
    } else {
        let mut r = String::new();
        let mut i = lo;
        while i < end
            invariant
                lo <= i <= end <= cs.len(),
                r@ == cs@.subrange(lo as int, i as int),
            decreases end - i,
        {
            crate::text::push_char(&mut r, cs[i]);
            i = i + 1;
            assert(r@ =~= cs@.subrange(lo as int, i as int));
        }
        r
    }
}

/// Requests to the public OpenTopoData API are spaced out; a self-hosted
/// server is not throttled.
pub fn should_throttle_opentopo(base_url: &str) -> (r: bool)
    ensures
        r == contains(base_url@, "api.opentopodata.org"@),
{
    let hay = chars_of(base_url);
    let needle = chars_of("api.opentopodata.org");
    contains_chars(&hay, &needle)
}


proof fn lemma_trim_start(s: Seq<char>)
    ensures
        trim_start(s).len() > 0 ==> !is_whitespace(trim_start(s)[0]),
    decreases s.len(),
{
    if s.len() > 0 && is_whitespace(s[0]) {
        lemma_trim_start(s.drop_first());
    }
}

proof fn lemma_trim_end_prefix(s: Seq<char>)
    ensures
        trim_end(s).len() <= s.len(),
        trim_end(s) == s.subrange(0, trim_end(s).len() as int),
    decreases s.len(),
{
    if s.len() > 0 && is_whitespace(s.last()) {
        lemma_trim_end_prefix(s.drop_last());
        assert(s.drop_last().subrange(0, trim_end(s).len() as int) =~= s.subrange(
            0,
            trim_end(s).len() as int,
        ));
    } else {
        assert(s.subrange(0, s.len() as int) =~= s);
    }
}

proof fn lemma_slashes_prefix(s: Seq<char>)
    ensures
        trim_trailing_slashes(s).len() <= s.len(),
        trim_trailing_slashes(s) == s.subrange(0, trim_trailing_slashes(s).len() as int),
        trim_trailing_slashes(s).len() > 0 ==> trim_trailing_slashes(s).last() != '/',
    decreases s.len(),
{
    if s.len() > 0 && s.last() == '/' {
        lemma_slashes_prefix(s.drop_last());
        assert(s.drop_last().subrange(0, trim_trailing_slashes(s).len() as int) =~= s.subrange(
            0,
            trim_trailing_slashes(s).len() as int,
        ));
    } else {
        assert(s.subrange(0, s.len() as int) =~= s);
    }
}

/// A normalized base URL is never empty, does not start with whitespace and
/// does not end with a slash; normalizing it again changes nothing unless
/// removing its slashes left whitespace at its end (as for `"a /"`).
pub proof fn normalized_base_url_is_stable(raw: Seq<char>)
    ensures
        normalized_base_url(raw).len() > 0,
        !is_whitespace(normalized_base_url(raw)[0]),
        normalized_base_url(raw).last() != '/',
        !is_whitespace(normalized_base_url(raw).last()) ==> normalized_base_url(
            normalized_base_url(raw),
        ) == normalized_base_url(raw),
{
    reveal_strlit("https://api.opentopodata.org");
    let d = DEFAULT_OPENTOPO_BASE_URL@;
    assert(d[0] == 'h' && d.last() == 'g');
    assert(trim_start(d) == d);
    assert(trim_end(d) == d);
    assert(trim_trailing_slashes(d) == d);
    let a = trim_start(raw);
    let b = trim_end(a);
    let t = trim_trailing_slashes(b);
    lemma_trim_start(raw);
    lemma_trim_end_prefix(a);
    lemma_slashes_prefix(b);
    if t.len() > 0 {
        assert(t[0] == b[0]);
        assert(b[0] == a[0]);
        assert(!is_whitespace(t[0]));
        if !is_whitespace(t.last()) {
            assert(trim_start(t) == t);
            assert(trim_end(t) == t);
            assert(trim_trailing_slashes(t) == t);
        }
    }
}

} // verus!
