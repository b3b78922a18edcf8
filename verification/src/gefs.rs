//! GEFS ensemble forecasts: member and resolution naming, NOMADS filter URLs
//! and the forecast-hour schedule.
use vstd::prelude::*;

use crate::text::{decimal, digits_value, lemma_decimal_digits, zero_padded, zero_padded_decimal};

verus! {

/// An ensemble member of GEFS.
#[derive(Debug, Clone, Copy, PartialEq, Eq, Structural)]
pub enum GefsMember {
    /// The control run (gec00).
    Control,
    /// A perturbed member (gep01..gep30).
    Perturbed(u8),
    /// The ensemble mean (geavg).
    Mean,
    /// The ensemble spread (gespr).
    Spread,
}

impl GefsMember {
    pub open spec fn spec_file_prefix(self) -> Seq<char> {
        match self {
            GefsMember::Control => "gec00"@,
            GefsMember::Perturbed(n) => "gep"@ + zero_padded(decimal(n as nat), 2),
            GefsMember::Mean => "geavg"@,
            GefsMember::Spread => "gespr"@,
        }
    }

    pub open spec fn spec_display_name(self) -> Seq<char> {
        match self {
            GefsMember::Control => "control (c00)"@,
            GefsMember::Perturbed(n) => "perturbed ("@ + zero_padded(decimal(n as nat), 2) + ")"@,
            GefsMember::Mean => "mean"@,
            GefsMember::Spread => "spread"@,
        }
    }

    pub open spec fn spec_key(self) -> Seq<char> {
        match self {
            GefsMember::Control => "c00"@,
            GefsMember::Perturbed(n) => "p"@ + zero_padded(decimal(n as nat), 2),
            GefsMember::Mean => "avg"@,
            GefsMember::Spread => "spr"@,
        }
    }

    /// The prefix of the member's GRIB file names.
    pub fn file_prefix(&self) -> (r: String)
        ensures
            r@ == self.spec_file_prefix(),
    {
        match self {
            GefsMember::Control => "gec00".to_owned(),
            GefsMember::Perturbed(n) => {
                let digits = zero_padded_decimal(*n as u64, 2);
                let mut r = "gep".to_owned();
                r.append(digits.as_str());
                r
            },
            GefsMember::Mean => "geavg".to_owned(),
            GefsMember::Spread => "gespr".to_owned(),
        }
    }

    /// A human-readable name of the member.
    pub fn display_name(&self) -> (r: String)
        ensures
            r@ == self.spec_display_name(),
    {
        match self {
            GefsMember::Control => "control (c00)".to_owned(),
            GefsMember::Perturbed(n) => {
                let digits = zero_padded_decimal(*n as u64, 2);
                let mut r = "perturbed (".to_owned();
                r.append(digits.as_str());
                r.append(")");
                r
            },
            GefsMember::Mean => "mean".to_owned(),
            GefsMember::Spread => "spread".to_owned(),
        }
    }

    /// The short key of the member in cached file names.
    pub fn key(&self) -> (r: String)
        ensures
            r@ == self.spec_key(),
    {
        match self {
            GefsMember::Control => "c00".to_owned(),
            GefsMember::Perturbed(n) => {
                let digits = zero_padded_decimal(*n as u64, 2);
                let mut r = "p".to_owned();
                r.append(digits.as_str());
                r
            },
            GefsMember::Mean => "avg".to_owned(),
            GefsMember::Spread => "spr".to_owned(),
        }
    }
}

/// A run of `k` zeros has the value 0.
proof fn lemma_zeros_value(k: nat)
    ensures
        digits_value(Seq::new(k, |i: int| '0')) == 0,
    decreases k,
{
    if k > 0 {
        assert(Seq::new(k, |i: int| '0').drop_last() =~= Seq::new((k - 1) as nat, |i: int| '0'));
        lemma_zeros_value((k - 1) as nat);
    }
}

/// Leading zeros do not change the value of a digit string.
proof fn lemma_leading_zeros(k: nat, s: Seq<char>)
    ensures
        digits_value(Seq::new(k, |i: int| '0') + s) == digits_value(s),
    decreases s.len(),
{
    let z = Seq::new(k, |i: int| '0');
    if s.len() == 0 {
        assert(z + s =~= z);
        lemma_zeros_value(k);
    } else {
        assert((z + s).drop_last() =~= z + s.drop_last());
        assert((z + s).last() == s.last());
        lemma_leading_zeros(k, s.drop_last());
    }
}

/// A zero-padded decimal rendering reads back as the number.
proof fn lemma_padded_value(n: nat, width: nat)
    ensures
        digits_value(zero_padded(decimal(n), width)) == n,
{
    lemma_decimal_digits(n);
    if decimal(n).len() < width {
        lemma_leading_zeros((width - decimal(n).len()) as nat, decimal(n));
    }
}

/// Distinct members have distinct keys and file prefixes (the prefix is
/// `ge` and the key), so their files never share a name; the control run's key is `c00` and a perturbed member's is `p`
/// followed by its number.
pub proof fn member_keys_are_distinct(m1: GefsMember, m2: GefsMember)
    ensures
        m1 != m2 ==> m1.spec_key() != m2.spec_key(),
        m1.spec_file_prefix() == "ge"@ + m1.spec_key(),
        m1 != m2 ==> m1.spec_file_prefix() != m2.spec_file_prefix(),
        GefsMember::Control.spec_key() == "c00"@,
        m1 matches GefsMember::Perturbed(n) ==> m1.spec_key()[0] == 'p' && digits_value(
            m1.spec_key().drop_first(),
        ) == n,
{
    reveal_strlit("c00");
    reveal_strlit("gec00");
    reveal_strlit("gep");
    reveal_strlit("geavg");
    reveal_strlit("gespr");
    reveal_strlit("ge");
    reveal_strlit("avg");
    reveal_strlit("spr");
    assert("gec00"@ =~= "ge"@ + "c00"@);
    assert("geavg"@ =~= "ge"@ + "avg"@);
    assert("gespr"@ =~= "ge"@ + "spr"@);
    reveal_strlit("avg");
    reveal_strlit("spr");
    reveal_strlit("p");
    assert("c00"@[0] == 'c' && "avg"@[0] == 'a' && "spr"@[0] == 's' && "p"@[0] == 'p');
    assert("p"@.len() == 1);
    if let GefsMember::Perturbed(a) = m1 {
        let x = zero_padded(decimal(a as nat), 2);
        assert(("p"@ + x).drop_first() =~= x);
        assert("gep"@ + x =~= "ge"@ + ("p"@ + x));
        lemma_padded_value(a as nat, 2);
    }
    if let GefsMember::Perturbed(b) = m2 {
        let y = zero_padded(decimal(b as nat), 2);
        assert(("p"@ + y).drop_first() =~= y);
        assert("gep"@ + y =~= "ge"@ + ("p"@ + y));
        lemma_padded_value(b as nat, 2);
    }
    assert("ge"@.len() == 2);
    assert(("ge"@ + m1.spec_key()).skip(2) =~= m1.spec_key());
    assert(("ge"@ + m2.spec_key()).skip(2) =~= m2.spec_key());
}

/// The GEFS products: 0.5 degree primary (to 384 h) and 0.25 degree select (to 240 h).
#[derive(Debug, Clone, Copy, PartialEq, Eq, Structural)]
pub enum GefsResolution {
    Primary0p5,
    Select0p25,
}

impl GefsResolution {
    pub open spec fn spec_filter_script(self) -> Seq<char> {
        match self {
            GefsResolution::Primary0p5 => "filter_gefs_atmos_0p50a.pl"@,
            GefsResolution::Select0p25 => "filter_gefs_atmos_0p25s.pl"@,
        }
    }

    pub open spec fn spec_dir_path(self) -> Seq<char> {
        match self {
            GefsResolution::Primary0p5 => "pgrb2ap5"@,
            GefsResolution::Select0p25 => "pgrb2sp25"@,
        }
    }

    pub open spec fn spec_grid_suffix(self) -> Seq<char> {
        match self {
            GefsResolution::Primary0p5 => "0p50"@,
            GefsResolution::Select0p25 => "0p25"@,
        }
    }

    pub open spec fn spec_file_type(self) -> Seq<char> {
        match self {
            GefsResolution::Primary0p5 => "pgrb2a"@,
            GefsResolution::Select0p25 => "pgrb2s"@,
        }
    }

    pub open spec fn spec_max_forecast_hour(self) -> u32 {
        match self {
            GefsResolution::Primary0p5 => 384,
            GefsResolution::Select0p25 => 240,
        }
    }

    /// The NOMADS filter script of the product.
    pub fn filter_script(&self) -> (r: &'static str)
        ensures
            r@ == self.spec_filter_script(),
    {
        match self {
            GefsResolution::Primary0p5 => "filter_gefs_atmos_0p50a.pl",
            GefsResolution::Select0p25 => "filter_gefs_atmos_0p25s.pl",
        }
    }

    /// The directory of the product on NOMADS.
    pub fn dir_path(&self) -> (r: &'static str)
        ensures
            r@ == self.spec_dir_path(),
    {
        match self {
            GefsResolution::Primary0p5 => "pgrb2ap5",
            GefsResolution::Select0p25 => "pgrb2sp25",
        }
    }

    /// The grid suffix of the product's file names.
    pub fn grid_suffix(&self) -> (r: &'static str)
        ensures
            r@ == self.spec_grid_suffix(),
    {
        match self {
            GefsResolution::Primary0p5 => "0p50",
            GefsResolution::Select0p25 => "0p25",
        }
    }

    /// The file type of the product (pgrb2a / pgrb2s).
    pub fn file_type(&self) -> (r: &'static str)
        ensures
            r@ == self.spec_file_type(),
    {
        match self {
            GefsResolution::Primary0p5 => "pgrb2a",
            GefsResolution::Select0p25 => "pgrb2s",
        }
    }

    /// The last forecast hour the product has.
    pub fn max_forecast_hour(&self) -> (r: u32)
        ensures
            r == self.spec_max_forecast_hour(),
    {
        match self {
            GefsResolution::Primary0p5 => 384,
            GefsResolution::Select0p25 => 240,
        }
    }
}

/// A latitude/longitude box to cut forecasts to, as the NOMADS query and the
/// cache file names print it.
#[derive(Debug, Clone, PartialEq, Eq)]
pub struct RegionBounds {
    pub top_lat: String,
    pub left_lon: String,
    pub right_lon: String,
    pub bottom_lat: String,
    /// The part of cache file names that identifies the box.
    pub cache_key: String,
}

impl RegionBounds {
    /// A copy of the bounds.
    pub fn duplicate(&self) -> (r: RegionBounds)
        ensures
            r == *self,
    {
        RegionBounds {
            top_lat: self.top_lat.clone(),
            left_lon: self.left_lon.clone(),
            right_lon: self.right_lon.clone(),
            bottom_lat: self.bottom_lat.clone(),
            cache_key: self.cache_key.clone(),
        }
    }
}

/// The forecast-hour part of a GEFS file name: `anl` for the analysis, else `fNNN`.
pub open spec fn forecast_hour_label(forecast_hour: u32) -> Seq<char> {
    if forecast_hour == 0 {
        "anl"@
    } else {
        "f"@ + zero_padded(decimal(forecast_hour as nat), 3)
    }
}

/// The GEFS file name of a member, cycle, product and forecast hour.
pub open spec fn gefs_file_name(
    member: GefsMember,
    cycle: Seq<char>,
    resolution: GefsResolution,
    forecast_hour: u32,
) -> Seq<char> {
    member.spec_file_prefix() + ".t"@ + cycle + "z."@ + resolution.spec_file_type() + "."@
        + resolution.spec_grid_suffix() + "."@ + forecast_hour_label(forecast_hour)
}

/// The NOMADS filter URL of a GEFS file cut to a region.
pub open spec fn gefs_url(
    date: Seq<char>,
    cycle: Seq<char>,
    forecast_hour: u32,
    member: GefsMember,
    region: RegionBounds,
    resolution: GefsResolution,
) -> Seq<char> {
    "https://nomads.ncep.noaa.gov/cgi-bin/"@ + resolution.spec_filter_script() + "?dir=%2Fgefs."@
        + date + "%2F"@ + cycle + "%2Fatmos%2F"@ + resolution.spec_dir_path() + "&file="@
        + gefs_file_name(member, cycle, resolution, forecast_hour)
        + "&var_HGT=on&var_TMP=on&var_UGRD=on&var_VGRD=on&all_lev=on&subregion=&toplat="@
        + region.top_lat@ + "&leftlon="@ + region.left_lon@ + "&rightlon="@ + region.right_lon@
        + "&bottomlat="@ + region.bottom_lat@
}

fn forecast_hour_text(forecast_hour: u32) -> (r: String)
    ensures
        r@ == forecast_hour_label(forecast_hour),
{
    if forecast_hour == 0 {
        "anl".to_owned()
    } else {
        let digits = zero_padded_decimal(forecast_hour as u64, 3);
        let mut r = "f".to_owned();
        r.append(digits.as_str());
        r
    }
}

/// The URL of a GEFS file on the NOMADS filter script, cut to `region`.
pub fn gefs_filter_url(
    date_str: &str,
    cycle_str: &str,
    forecast_hour: u32,
    member: GefsMember,
    region: &RegionBounds,
    resolution: GefsResolution,
) -> (r: String)
    ensures
        r@ == gefs_url(date_str@, cycle_str@, forecast_hour, member, *region, resolution),
{
    let prefix = member.file_prefix();
    let fh = forecast_hour_text(forecast_hour);
    let mut file = prefix;
    file.append(".t");
    file.append(cycle_str);
    file.append("z.");
    file.append(resolution.file_type());
    file.append(".");
    file.append(resolution.grid_suffix());
    file.append(".");
    file.append(fh.as_str());
    let mut url = "https://nomads.ncep.noaa.gov/cgi-bin/".to_owned();
    url.append(resolution.filter_script());
    url.append("?dir=%2Fgefs.");
    url.append(date_str);
    url.append("%2F");
    url.append(cycle_str);
    url.append("%2Fatmos%2F");
    url.append(resolution.dir_path());
    url.append("&file=");
    url.append(file.as_str());
    url.append("&var_HGT=on&var_TMP=on&var_UGRD=on&var_VGRD=on&all_lev=on&subregion=&toplat=");
    url.append(region.top_lat.as_str());
    url.append("&leftlon=");
    url.append(region.left_lon.as_str());
    url.append("&rightlon=");
    url.append(region.right_lon.as_str());
    url.append("&bottomlat=");
    url.append(region.bottom_lat.as_str());
    url
}

/// The `i`-th forecast hour of GEFS: every 3 h up to 192 h, then every 6 h.
pub open spec fn forecast_hour_at(i: nat) -> nat {
    if i <= 64 {
        3 * i
    } else {
        192 + 6 * (i - 64) as nat
    }
}

/// The first forecast hour after `max_fh`.
pub open spec fn forecast_hour_after(max_fh: nat) -> nat {
    if max_fh < 192 {
        3 * (max_fh / 3 + 1)
    } else {
        192 + 6 * ((max_fh - 192) as nat / 6 + 1)
    }
}

proof fn lemma_next_hour_bounded(i: nat, max_fh: nat)
    requires
        forecast_hour_at(i) <= max_fh,
    ensures
        forecast_hour_at(i + 1) <= forecast_hour_after(max_fh),
        forecast_hour_at(i) < forecast_hour_at(i + 1),
{
    if i + 1 <= 64 {
        if max_fh < 192 {
            assert(i <= max_fh / 3);
        }
    } else {
        assert((i - 64) as nat <= (max_fh - 192) as nat / 6);
    }
}

/// The GEFS schedule starts at the analysis and steps by 3 hours up to
/// 192 h, then by 6 hours.
pub proof fn forecast_schedule_steps(i: nat)
    ensures
        forecast_hour_at(0) == 0,
        forecast_hour_at(i) < 192 ==> forecast_hour_at(i + 1) == forecast_hour_at(i) + 3,
        forecast_hour_at(i) >= 192 ==> forecast_hour_at(i + 1) == forecast_hour_at(i) + 6,
        forecast_hour_at(i) <= 192 ==> forecast_hour_at(i) == 3 * i,
        forecast_hour_at(i) % 3 == 0,
{
}

/// The two GEFS products: the 0.5 degree primary one runs to 384 h and the
/// 0.25 degree select one to 240 h, and each names its own grid, file type,
/// directory and filter script.
pub proof fn resolution_products(r1: GefsResolution, r2: GefsResolution)
    ensures
        GefsResolution::Primary0p5.spec_max_forecast_hour() == 384,
        GefsResolution::Select0p25.spec_max_forecast_hour() == 240,
        GefsResolution::Primary0p5.spec_grid_suffix() == "0p50"@,
        GefsResolution::Select0p25.spec_grid_suffix() == "0p25"@,
        r1 != r2 ==> {
            &&& r1.spec_grid_suffix() != r2.spec_grid_suffix()
            &&& r1.spec_file_type() != r2.spec_file_type()
            &&& r1.spec_dir_path() != r2.spec_dir_path()
            &&& r1.spec_filter_script() != r2.spec_filter_script()
        },
{
    reveal_strlit("0p50");
    reveal_strlit("0p25");
    reveal_strlit("pgrb2a");
    reveal_strlit("pgrb2s");
    reveal_strlit("pgrb2ap5");
    reveal_strlit("pgrb2sp25");
    reveal_strlit("filter_gefs_atmos_0p50a.pl");
    reveal_strlit("filter_gefs_atmos_0p25s.pl");
    assert("0p50"@[2] == '5' && "0p25"@[2] == '2');
    assert("pgrb2a"@[5] == 'a' && "pgrb2s"@[5] == 's');
    assert("pgrb2ap5"@.len() == 8 && "pgrb2sp25"@.len() == 9);
    assert("filter_gefs_atmos_0p50a.pl"@[20] == '5' && "filter_gefs_atmos_0p25s.pl"@[20] == '2');
}

/// The forecast hours of GEFS up to `max_fh`: every 3 h to 192 h, then every 6 h.
pub fn gefs_forecast_hours(max_fh: u32) -> (hours: Vec<u32>)
    requires
        forecast_hour_after(max_fh as nat) <= u32::MAX,
    ensures
        forall|i: int|
            0 <= i < hours.len() ==> hours[i] == forecast_hour_at(i as nat) && hours[i] <= max_fh,
        forecast_hour_at(hours.len() as nat) > max_fh,
{
    let mut hours: Vec<u32> = Vec::new();
    let mut fh: u32 = 0;
    while fh <= max_fh
        invariant
            fh == forecast_hour_at(hours.len() as nat),
            forecast_hour_after(max_fh as nat) <= u32::MAX,
            forall|i: int|
                0 <= i < hours.len() ==> hours[i] == forecast_hour_at(i as nat) && hours[i]
                    <= max_fh,
        decreases u32::MAX - fh,
    {
        proof {
            lemma_next_hour_bounded(hours.len() as nat, max_fh as nat);
        }
        hours.push(fh);
        if fh < 192 {
            fh = fh + 3;
        } else {
            fh = fh + 6;
        }
    }
    hours
}

} // verus!
