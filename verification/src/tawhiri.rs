//! The Tawhiri-compatible request interface: query parsing, output formats,
//! flight profiles and the classification of prediction failures.
use vstd::prelude::*;

use crate::calendar::{format_instant, now, parse_rfc3339, parsed_instant, strftime_text};
use crate::error::{ApiError, ApiErrorKind};
use crate::text::{
    ascii_lowercase, ascii_lowercase_chars, chars_of, contains, contains_chars, decimal, decimal_string,
    lemma_parse_decimal, occurs_at, parse_u32, parse_u32_spec, str_eq,
};
use crate::time::UtcTime;

verus! {

pub const API_VERSION: u32 = 1;

pub const PROFILE_STANDARD: &'static str = "standard_profile";

pub const PROFILE_FLOAT: &'static str = "float_profile";

pub const PROFILE_REVERSE: &'static str = "reverse_profile";

/// Balloon class (grams) used when neither the path nor the query names one.
pub const DEFAULT_BALLOON_CLASS_G: u32 = 2000;

/// Response encodings that a prediction can be answered in.
#[derive(Debug, Clone, Copy, PartialEq, Eq, Structural)]
pub enum OutputFormat {
    Json,
    Csv,
    Kml,
}

impl OutputFormat {
    pub open spec fn spec_as_str(self) -> Seq<char> {
        match self {
            OutputFormat::Json => "json"@,
            OutputFormat::Csv => "csv"@,
            OutputFormat::Kml => "kml"@,
        }
    }

    pub open spec fn spec_parse(value: Seq<char>) -> Option<OutputFormat> {
        if value == "json"@ {
            Some(OutputFormat::Json)
        } else if value == "csv"@ {
            Some(OutputFormat::Csv)
        } else if value == "kml"@ {
            Some(OutputFormat::Kml)
        } else {
            None
        }
    }

    /// The format named by the `format` query value, if it is one of them.
    pub fn parse(value: &str) -> (r: Option<OutputFormat>)
        ensures
            r == OutputFormat::spec_parse(value@),
    {
        if str_eq(value, "json") {
            Some(OutputFormat::Json)
        } else if str_eq(value, "csv") {
            Some(OutputFormat::Csv)
        } else if str_eq(value, "kml") {
            Some(OutputFormat::Kml)
        } else {
            None
        }
    }

    /// The name of the format, as the `format` query value spells it.
    pub fn as_str(self) -> (r: &'static str)
        ensures
            r@ == self.spec_as_str(),
    {
        match self {
            OutputFormat::Json => "json",
            OutputFormat::Csv => "csv",
            OutputFormat::Kml => "kml",
        }
    }
}

/// The flight profiles of the Tawhiri API.
#[derive(Debug, Clone, Copy, PartialEq, Eq, Structural)]
pub enum ProfileKind {
    Standard,
    Float,
    Reverse,
}

impl ProfileKind {
    pub open spec fn spec_name(self) -> Seq<char> {
        match self {
            ProfileKind::Standard => "standard_profile"@,
            ProfileKind::Float => "float_profile"@,
            ProfileKind::Reverse => "reverse_profile"@,
        }
    }

    /// The name of the profile, as the `profile` query value spells it.
    pub fn name(&self) -> (r: &'static str)
        ensures
            r@ == self.spec_name(),
    {
        match self {
            ProfileKind::Standard => "standard_profile",
            ProfileKind::Float => "float_profile",
            ProfileKind::Reverse => "reverse_profile",
        }
    }
}

/// How a numeric query value fared: it did not parse as a number, it parsed
/// but is not finite or not allowed for its parameter, or it is accepted.
#[derive(Debug, Clone, Copy, PartialEq, Eq, Structural)]
pub enum NumberCheck {
    Unparsable,
    Rejected,
    Accepted,
}

/// The outcome of each numeric query parameter, for those that are present.
/// The bounds are: latitude in [-90, 90], longitude in [0, 360), launch
/// altitude finite, rates and gross mass above 0, burst and float altitudes
/// above the launch altitude (0 when it is not given).
#[derive(Debug, Clone, Copy, PartialEq, Eq, Structural)]
pub struct NumberChecks {
    pub launch_latitude: NumberCheck,
    pub launch_longitude: NumberCheck,
    pub launch_altitude: NumberCheck,
    pub ascent_rate: NumberCheck,
    pub burst_altitude: NumberCheck,
    pub descent_rate: NumberCheck,
    pub float_altitude: NumberCheck,
    pub gross_mass: NumberCheck,
}

/// Everything but the numbers of a parsed prediction request: the numbers
/// are read from the parameters that the checks accepted.
#[derive(Debug, Clone, Copy, PartialEq, Eq, Structural)]
pub struct RequestPlan {
    pub launch_datetime: UtcTime,
    pub profile: ProfileKind,
    /// The `stop_datetime` of a float profile.
    pub stop_datetime: Option<UtcTime>,
    /// The model run asked for; `None` for the latest one.
    pub dataset: Option<UtcTime>,
    pub format: OutputFormat,
    pub balloon_class_g: u32,
    /// Whether `launch_altitude` was given (else it is 0).
    pub has_launch_altitude: bool,
    /// Whether `gross_mass` was given (else the default mass applies).
    pub has_gross_mass: bool,
}

/// An error that a request is answered with: its kind and description.
pub type Failure = (ApiErrorKind, Seq<char>);

/// The value of the first query parameter called `name`.
pub open spec fn lookup(params: Seq<(String, String)>, name: Seq<char>) -> Option<Seq<char>>
    decreases params.len(),
{
    if params.len() == 0 {
        None
    } else if params[0].0@ == name {
        Some(params[0].1@)
    } else {
        lookup(params.drop_first(), name)
    }
}

/// The query names each parameter at most once, as a map from names to
/// values does.
pub open spec fn names_distinct(params: Seq<(String, String)>) -> bool {
    forall|i: int, j: int| 0 <= i < j < params.len() ==> params[i].0@ != params[j].0@
}

/// A query that names each parameter once reads as a map: the value of a
/// name is that of the pair with this name, and a name that no pair has
/// has no value.
pub proof fn query_reads_as_map(params: Seq<(String, String)>, name: Seq<char>)
    requires
        names_distinct(params),
    ensures
        forall|k: int|
            0 <= k < params.len() && #[trigger] params[k].0@ == name ==> lookup(params, name)
                == Some(params[k].1@),
        (forall|k: int| 0 <= k < params.len() ==> #[trigger] params[k].0@ != name) ==> lookup(
            params,
            name,
        ) is None,
    decreases params.len(),
{
    if params.len() > 0 {
        let rest = params.drop_first();
        assert forall|i: int, j: int| 0 <= i < j < rest.len() implies rest[i].0@ != rest[j].0@ by {
            assert(rest[i] == params[i + 1] && rest[j] == params[j + 1]);
        }
        query_reads_as_map(rest, name);
        assert forall|k: int|
            0 <= k < params.len() && #[trigger] params[k].0@ == name implies lookup(params, name)
                == Some(params[k].1@) by {
            if k > 0 {
                assert(params[0].0@ != params[k].0@);
                assert(rest[k - 1] == params[k]);
            }
        }
        if forall|k: int| 0 <= k < params.len() ==> #[trigger] params[k].0@ != name {
            assert(params[0].0@ != name);
            assert forall|k: int| 0 <= k < rest.len() implies #[trigger] rest[k].0@ != name by {
                assert(rest[k] == params[k + 1]);
            }
        }
    }
}

pub open spec fn missing_message(name: Seq<char>) -> Seq<char> {
    "Parameter '"@ + name + "' not provided in request."@
}

pub open spec fn unparsable_message(name: Seq<char>, raw: Seq<char>) -> Seq<char> {
    "Unable to parse parameter '"@ + name + "': "@ + raw + "."@
}

pub open spec fn invalid_message(name: Seq<char>, raw: Seq<char>) -> Seq<char> {
    "Invalid value for parameter '"@ + name + "': "@ + raw + "."@
}

/// The error that a required numeric parameter gives, if any.
pub open spec fn number_failure(
    params: Seq<(String, String)>,
    name: Seq<char>,
    check: NumberCheck,
) -> Option<Failure> {
    match lookup(params, name) {
        None => Some((ApiErrorKind::RequestException, missing_message(name))),
        Some(raw) => match check {
            NumberCheck::Unparsable => Some(
                (ApiErrorKind::RequestException, unparsable_message(name, raw)),
            ),
            NumberCheck::Rejected => Some(
                (ApiErrorKind::RequestException, invalid_message(name, raw)),
            ),
            NumberCheck::Accepted => None,
        },
    }
}

/// The error that an optional numeric parameter gives, if any.
pub open spec fn optional_number_failure(
    params: Seq<(String, String)>,
    name: Seq<char>,
    check: NumberCheck,
) -> Option<Failure> {
    if lookup(params, name) is Some {
        number_failure(params, name, check)
    } else {
        None
    }
}

/// A required RFC 3339 parameter, read as an instant.
pub open spec fn datetime_outcome(params: Seq<(String, String)>, name: Seq<char>) -> Result<
    UtcTime,
    Failure,
> {
    match lookup(params, name) {
        None => Err((ApiErrorKind::RequestException, missing_message(name))),
        Some(raw) => match parsed_instant(raw) {
            Some(t) => Ok(t),
            None => Err((ApiErrorKind::RequestException, unparsable_message(name, raw))),
        },
    }
}

/// The balloon classes (grams) that the ascent model has coefficients for.
pub open spec fn supported_balloon_class(class: u32) -> bool {
    class == 1000 || class == 1500 || class == 2000 || class == 3000
}

pub open spec fn balloon_class_outcome(raw: Seq<char>) -> Result<u32, Failure> {
    match parse_u32_spec(raw) {
        None => Err((ApiErrorKind::RequestException, "Invalid balloon class '"@ + raw + "'."@)),
        Some(class) => if supported_balloon_class(class) {
            Ok(class)
        } else {
            Err(
                (
                    ApiErrorKind::RequestException,
                    "Unknown balloon class: "@ + decimal(class as nat)
                        + "g (expected 1000, 1500, 2000, or 3000)"@,
                ),
            )
        },
    }
}

pub open spec fn format_outcome(params: Seq<(String, String)>) -> Result<OutputFormat, Failure> {
    match lookup(params, "format"@) {
        None => Ok(OutputFormat::Json),
        Some(value) => match OutputFormat::spec_parse(value) {
            Some(f) => Ok(f),
            None => Err((ApiErrorKind::InternalException, "Format not supported: "@ + value)),
        },
    }
}

/// The profile named in the query (the standard one when none is), with
/// the checks of its own parameters; a float profile also yields its stop time.
pub open spec fn profile_outcome(
    params: Seq<(String, String)>,
    checks: NumberChecks,
    launch: UtcTime,
) -> Result<(ProfileKind, Option<UtcTime>), Failure> {
    let name = match lookup(params, "profile"@) {
        Some(p) => p,
        None => "standard_profile"@,
    };
    if name == "standard_profile"@ {
        match number_failure(params, "ascent_rate"@, checks.ascent_rate) {
            Some(e) => Err(e),
            None => match number_failure(params, "burst_altitude"@, checks.burst_altitude) {
                Some(e) => Err(e),
                None => match number_failure(params, "descent_rate"@, checks.descent_rate) {
                    Some(e) => Err(e),
                    None => Ok((ProfileKind::Standard, None)),
                },
            },
        }
    } else if name == "float_profile"@ {
        match number_failure(params, "ascent_rate"@, checks.ascent_rate) {
            Some(e) => Err(e),
            None => match number_failure(params, "float_altitude"@, checks.float_altitude) {
                Some(e) => Err(e),
                None => match datetime_outcome(params, "stop_datetime"@) {
                    Err(e) => Err(e),
                    Ok(stop) => if stop.le(launch) {
                        Err(
                            (
                                ApiErrorKind::RequestException,
                                invalid_message(
                                    "stop_datetime"@,
                                    lookup(params, "stop_datetime"@)->Some_0,
                                ),
                            ),
                        )
                    } else {
                        Ok((ProfileKind::Float, Some(stop)))
                    },
                },
            },
        }
    } else if name == "reverse_profile"@ {
        match number_failure(params, "ascent_rate"@, checks.ascent_rate) {
            Some(e) => Err(e),
            None => Ok((ProfileKind::Reverse, None)),
        }
    } else {
        Err((ApiErrorKind::RequestException, "Unknown profile '"@ + name + "'."@))
    }
}

pub open spec fn dataset_outcome(params: Seq<(String, String)>) -> Result<Option<UtcTime>, Failure> {
    match lookup(params, "dataset"@) {
        None => Ok(None),
        Some(value) => if value == "latest"@ {
            Ok(None)
        } else {
            match datetime_outcome(params, "dataset"@) {
                Ok(t) => Ok(Some(t)),
                Err(e) => Err(e),
            }
        },
    }
}

/// The balloon class: the one from the path when given, else the
/// `balloon_class` query value, else the default class.
pub open spec fn class_outcome(params: Seq<(String, String)>, path_class: Option<u32>) -> Result<
    u32,
    Failure,
> {
    match path_class {
        Some(c) => balloon_class_outcome(decimal(c as nat)),
        None => match lookup(params, "balloon_class"@) {
            None => Ok(DEFAULT_BALLOON_CLASS_G),
            Some(raw) => balloon_class_outcome(raw),
        },
    }
}

/// What a prediction request is read as: the first failing check in the
/// order latitude, longitude, launch time, launch altitude, format,
/// profile, dataset, balloon class, gross mass gives the error; else the plan.
pub open spec fn request_outcome(
    params: Seq<(String, String)>,
    checks: NumberChecks,
    path_class: Option<u32>,
) -> Result<RequestPlan, Failure> {
    match number_failure(params, "launch_latitude"@, checks.launch_latitude) {
        Some(e) => Err(e),
        None => match number_failure(params, "launch_longitude"@, checks.launch_longitude) {
            Some(e) => Err(e),
            None => match datetime_outcome(params, "launch_datetime"@) {
                Err(e) => Err(e),
                Ok(launch) => match optional_number_failure(
                    params,
                    "launch_altitude"@,
                    checks.launch_altitude,
                ) {
                    Some(e) => Err(e),
                    None => match format_outcome(params) {
                        Err(e) => Err(e),
                        Ok(format) => match profile_outcome(params, checks, launch) {
                            Err(e) => Err(e),
                            Ok(profile) => match dataset_outcome(params) {
                                Err(e) => Err(e),
                                Ok(dataset) => match class_outcome(params, path_class) {
                                    Err(e) => Err(e),
                                    Ok(class) => match optional_number_failure(
                                        params,
                                        "gross_mass"@,
                                        checks.gross_mass,
                                    ) {
                                        Some(e) => Err(e),
                                        None => Ok(
                                            RequestPlan {
                                                launch_datetime: launch,
                                                profile: profile.0,
                                                stop_datetime: profile.1,
                                                dataset,
                                                format,
                                                balloon_class_g: class,
                                                has_launch_altitude: lookup(
                                                    params,
                                                    "launch_altitude"@,
                                                ) is Some,
                                                has_gross_mass: lookup(params, "gross_mass"@) is Some,
                                            },
                                        ),
                                    },
                                },
                            },
                        },
                    },
                },
            },
        },
    }
}

/// `r` is the API answer of the outcome `s` for a request started at `start`.
pub open spec fn answers<T>(r: Result<T, ApiError>, s: Result<T, Failure>, start: UtcTime) -> bool {
    match r {
        Ok(v) => s == Ok::<T, Failure>(v),
        Err(e) => match s {
            Ok(_) => false,
            Err(f) => e.kind == f.0 && e.description@ == f.1 && e.start_datetime == start
                && e.wf(),
        },
    }
}

/// The value of the first query parameter called `name`.
pub fn get_param(params: &Vec<(String, String)>, name: &str) -> (r: Option<String>)
    ensures
        match r {
            Some(v) => lookup(params@, name@) == Some(v@),
            None => lookup(params@, name@) is None,
        },
{
    let mut i: usize = 0;
    assert(params@.skip(0) =~= params@);
    while i < params.len()
        invariant
            i <= params.len(),
            lookup(params@, name@) == lookup(params@.skip(i as int), name@),
        decreases params.len() - i,
    {
        assert(params@.skip(i as int).drop_first() =~= params@.skip(i + 1));
        if str_eq(params[i].0.as_str(), name) {
            return Some(params[i].1.clone());
        }
        i = i + 1;
    }
    None
}


/// The outcome of a step that only checks.
pub open spec fn check_outcome(f: Option<Failure>) -> Result<(), Failure> {
    match f {
        Some(e) => Err(e),
        None => Ok(()),
    }
}

/// `a + b + c` as a new string.
fn join3(a: &str, b: &str, c: &str) -> (r: String)
    ensures
        r@ == a@ + b@ + c@,
{
    let mut r = a.to_owned();
    r.append(b);
    r.append(c);
    r
}

/// `a + b + c + d + e` as a new string.
fn join5(a: &str, b: &str, c: &str, d: &str, e: &str) -> (r: String)
    ensures
        r@ == a@ + b@ + c@ + d@ + e@,
{
    let mut r = a.to_owned();
    r.append(b);
    r.append(c);
    r.append(d);
    r.append(e);
    r
}

/// The value of the required parameter `name`.
fn require(params: &Vec<(String, String)>, name: &str, start: UtcTime) -> (r: Result<
    String,
    ApiError,
>)
    requires
        start.wf(),
    ensures
        match r {
            Ok(v) => lookup(params@, name@) == Some(v@),
            Err(e) => lookup(params@, name@) is None && e.kind == ApiErrorKind::RequestException
                && e.description@ == missing_message(name@) && e.start_datetime == start
                && e.wf(),
        },
{
    match get_param(params, name) {
        Some(v) => Ok(v),
        None => Err(
            ApiError::request(join3("Parameter '", name, "' not provided in request."), start),
        ),
    }
}

/// Checks the required numeric parameter `name` against its outcome.
fn check_number(
    params: &Vec<(String, String)>,
    name: &str,
    check: NumberCheck,
    start: UtcTime,
) -> (r: Result<(), ApiError>)
    requires
        start.wf(),
    ensures
        answers(r, check_outcome(number_failure(params@, name@, check)), start),
{
    let raw = require(params, name, start)?;
    match check {
        NumberCheck::Unparsable => Err(
            ApiError::request(
                join5("Unable to parse parameter '", name, "': ", raw.as_str(), "."),
                start,
            ),
        ),
        NumberCheck::Rejected => Err(
            ApiError::request(
                join5("Invalid value for parameter '", name, "': ", raw.as_str(), "."),
                start,
            ),
        ),
        NumberCheck::Accepted => Ok(()),
    }
}

/// Checks the optional numeric parameter `name`, when it is present.
fn check_optional_number(
    params: &Vec<(String, String)>,
    name: &str,
    check: NumberCheck,
    start: UtcTime,
) -> (r: Result<bool, ApiError>)
    requires
        start.wf(),
    ensures
        answers(
            r,
            match optional_number_failure(params@, name@, check) {
                Some(e) => Err(e),
                None => Ok(lookup(params@, name@) is Some),
            },
            start,
        ),
{
    match get_param(params, name) {
        None => Ok(false),
        Some(_) => {
            check_number(params, name, check, start)?;
            Ok(true)
        },
    }
}

/// Reads the required RFC 3339 parameter `name` as an instant.
pub fn extract_datetime(params: &Vec<(String, String)>, name: &str, start: UtcTime) -> (r: Result<
    UtcTime,
    ApiError,
>)
    requires
        start.wf(),
    ensures
        answers(r, datetime_outcome(params@, name@), start),
        r matches Ok(t) ==> t.wf(),
{
    let raw = require(params, name, start)?;
    match parse_rfc3339(raw.as_str()) {
        Some(t) => Ok(t),
        None => Err(
            ApiError::request(
                join5("Unable to parse parameter '", name, "': ", raw.as_str(), "."),
                start,
            ),
        ),
    }
}

/// Reads a balloon class in grams; only 1000, 1500, 2000 and 3000 are known.
pub fn parse_balloon_class(raw: &str, start: UtcTime) -> (r: Result<u32, ApiError>)
    requires
        start.wf(),
    ensures
        answers(r, balloon_class_outcome(raw@), start),
{
    match parse_u32(raw) {
        None => Err(ApiError::request(join3("Invalid balloon class '", raw, "'."), start)),
        Some(class) => {
            if class == 1000 || class == 1500 || class == 2000 || class == 3000 {
                Ok(class)
            } else {
                let digits = decimal_string(class as u64);
                Err(
                    ApiError::request(
                        join3(
                            "Unknown balloon class: ",
                            digits.as_str(),
                            "g (expected 1000, 1500, 2000, or 3000)",
                        ),
                        start,
                    ),
                )
            }
        },
    }
}

fn parse_format(params: &Vec<(String, String)>, start: UtcTime) -> (r: Result<
    OutputFormat,
    ApiError,
>)
    requires
        start.wf(),
    ensures
        answers(r, format_outcome(params@), start),
{
    match get_param(params, "format") {
        None => Ok(OutputFormat::Json),
        Some(value) => match OutputFormat::parse(value.as_str()) {
            Some(f) => Ok(f),
            None => {
                let mut d = "Format not supported: ".to_owned();
                d.append(value.as_str());
                Err(ApiError::internal(d, start))
            },
        },
    }
}

fn parse_profile(
    params: &Vec<(String, String)>,
    checks: &NumberChecks,
    launch: UtcTime,
    start: UtcTime,
) -> (r: Result<(ProfileKind, Option<UtcTime>), ApiError>)
    requires
        start.wf(),
    ensures
        answers(r, profile_outcome(params@, *checks, launch), start),
        r matches Ok(p) ==> (p.1 matches Some(t) ==> t.wf()),
{
    let name = match get_param(params, "profile") {
        Some(p) => p,
        None => PROFILE_STANDARD.to_owned(),
    };
    if str_eq(name.as_str(), "standard_profile") {
        check_number(params, "ascent_rate", checks.ascent_rate, start)?;
        check_number(params, "burst_altitude", checks.burst_altitude, start)?;
        check_number(params, "descent_rate", checks.descent_rate, start)?;
        Ok((ProfileKind::Standard, None))
    } else if str_eq(name.as_str(), "float_profile") {
        check_number(params, "ascent_rate", checks.ascent_rate, start)?;
        check_number(params, "float_altitude", checks.float_altitude, start)?;
        let stop = extract_datetime(params, "stop_datetime", start)?;
        if !launch.is_before(&stop) {
            let raw = match get_param(params, "stop_datetime") {
                Some(v) => v,
                None => String::new(),
            };
            return Err(
                ApiError::request(
                    join5(
                        "Invalid value for parameter '",
                        "stop_datetime",
                        "': ",
                        raw.as_str(),
                        ".",
                    ),
                    start,
                ),
            );
        }
        Ok((ProfileKind::Float, Some(stop)))
    } else if str_eq(name.as_str(), "reverse_profile") {
        check_number(params, "ascent_rate", checks.ascent_rate, start)?;
        Ok((ProfileKind::Reverse, None))
    } else {
        Err(ApiError::request(join3("Unknown profile '", name.as_str(), "'."), start))
    }
}

fn parse_dataset(params: &Vec<(String, String)>, start: UtcTime) -> (r: Result<
    Option<UtcTime>,
    ApiError,
>)
    requires
        start.wf(),
    ensures
        answers(r, dataset_outcome(params@), start),
        r matches Ok(d) ==> (d matches Some(t) ==> t.wf()),
{
    match get_param(params, "dataset") {
        None => Ok(None),
        Some(value) => {
            if str_eq(value.as_str(), "latest") {
                Ok(None)
            } else {
                let t = extract_datetime(params, "dataset", start)?;
                Ok(Some(t))
            }
        },
    }
}

fn resolve_balloon_class(
    params: &Vec<(String, String)>,
    path_class: Option<u32>,
    start: UtcTime,
) -> (r: Result<u32, ApiError>)
    requires
        start.wf(),
    ensures
        answers(r, class_outcome(params@, path_class), start),
{
    match path_class {
        Some(class) => {
            let digits = decimal_string(class as u64);
            parse_balloon_class(digits.as_str(), start)
        },
        None => match get_param(params, "balloon_class") {
            None => Ok(DEFAULT_BALLOON_CLASS_G),
            Some(raw) => parse_balloon_class(raw.as_str(), start),
        },
    }
}

/// Reads a prediction request from its query parameters, with the balloon
/// class from the path (when given) taking precedence over the query.
/// `checks` carries how each numeric parameter parsed and bounded.
pub fn parse_request_with_balloon_class(
    params: &Vec<(String, String)>,
    checks: &NumberChecks,
    start: UtcTime,
    balloon_class_g: Option<u32>,
) -> (r: Result<RequestPlan, ApiError>)
    requires
        start.wf(),
        names_distinct(params@),
    ensures
        answers(r, request_outcome(params@, *checks, balloon_class_g), start),
        r matches Ok(p) ==> p.launch_datetime.wf() && (p.stop_datetime matches Some(t) ==> t.wf())
            && (p.dataset matches Some(t) ==> t.wf()),
{
    check_number(params, "launch_latitude", checks.launch_latitude, start)?;
    check_number(params, "launch_longitude", checks.launch_longitude, start)?;
    let launch = extract_datetime(params, "launch_datetime", start)?;
    let has_launch_altitude = check_optional_number(
        params,
        "launch_altitude",
        checks.launch_altitude,
        start,
    )?;
    let format = parse_format(params, start)?;
    let profile = parse_profile(params, checks, launch, start)?;
    let dataset = parse_dataset(params, start)?;
    let balloon_class_g = resolve_balloon_class(params, balloon_class_g, start)?;
    let has_gross_mass = check_optional_number(params, "gross_mass", checks.gross_mass, start)?;
    Ok(
        RequestPlan {
            launch_datetime: launch,
            profile: profile.0,
            stop_datetime: profile.1,
            dataset,
            format,
            balloon_class_g,
            has_launch_altitude,
            has_gross_mass,
        },
    )
}

/// Reads a prediction request whose balloon class, if any, is in the query.
pub fn parse_request(params: &Vec<(String, String)>, checks: &NumberChecks, start: UtcTime) -> (r:
    Result<RequestPlan, ApiError>)
    requires
        start.wf(),
        names_distinct(params@),
    ensures
        answers(r, request_outcome(params@, *checks, None), start),
{
    parse_request_with_balloon_class(params, checks, start, None)
}


/// Every output format reads back from its own name, a name that reads as a
/// format is that format's name, and the names are `json`, `csv` and `kml`.
pub proof fn output_format_roundtrip(f: OutputFormat, value: Seq<char>)
    ensures
        OutputFormat::spec_parse(f.spec_as_str()) == Some(f),
        OutputFormat::spec_parse(value) matches Some(g) ==> g.spec_as_str() == value,
        OutputFormat::spec_parse("json"@) == Some(OutputFormat::Json),
        OutputFormat::spec_parse("csv"@) == Some(OutputFormat::Csv),
        OutputFormat::spec_parse("kml"@) == Some(OutputFormat::Kml),
{
    reveal_strlit("json");
    reveal_strlit("csv");
    reveal_strlit("kml");
    assert("json"@.len() == 4 && "csv"@.len() == 3 && "kml"@.len() == 3);
    assert("csv"@[0] == 'c' && "kml"@[0] == 'k');
}

/// The balloon class given in the path decides the class: a supported one is
/// the class of every accepted request, whatever the query's `balloon_class`
/// says, and an unsupported one is refused as a request error that names it.
pub proof fn path_balloon_class_decides(
    params: Seq<(String, String)>,
    checks: NumberChecks,
    class: u32,
)
    ensures
        supported_balloon_class(class) ==> class_outcome(params, Some(class)) == Ok::<u32, Failure>(class),
        supported_balloon_class(class) ==> (request_outcome(params, checks, Some(class)) matches Ok(
            p,
        ) ==> p.balloon_class_g == class),
        !supported_balloon_class(class) ==> class_outcome(params, Some(class)) == Err::<
            u32,
            Failure,
        >(
            (
                ApiErrorKind::RequestException,
                "Unknown balloon class: "@ + decimal(class as nat)
                    + "g (expected 1000, 1500, 2000, or 3000)"@,
            ),
        ),
{
    lemma_parse_decimal(class);
}

/// Optional parameters that a request leaves out take their defaults: JSON
/// output, the standard profile, the latest model run, the default balloon
/// class (when the path gives none), launch altitude 0 and the default mass.
pub proof fn omitted_parameters_take_defaults(
    params: Seq<(String, String)>,
    checks: NumberChecks,
    path_class: Option<u32>,
)
    ensures
        request_outcome(params, checks, path_class) matches Ok(p) ==> {
            &&& lookup(params, "format"@) is None ==> p.format == OutputFormat::Json
            &&& lookup(params, "profile"@) is None ==> p.profile == ProfileKind::Standard
            &&& lookup(params, "dataset"@) is None ==> p.dataset is None
            &&& lookup(params, "dataset"@) == Some("latest"@) ==> p.dataset is None
            &&& (path_class is None && lookup(params, "balloon_class"@) is None)
                ==> p.balloon_class_g == DEFAULT_BALLOON_CLASS_G
            &&& lookup(params, "launch_altitude"@) is None ==> !p.has_launch_altitude
            &&& lookup(params, "gross_mass"@) is None ==> !p.has_gross_mass
        },
{
}

/// The output format is the one the query's `format` names: an accepted
/// request answers as CSV exactly when the query says `csv`, as KML exactly
/// when it says `kml`, and as JSON when it says `json` or nothing; any other
/// value is refused as an internal error that quotes it.
pub proof fn format_follows_query(
    params: Seq<(String, String)>,
    checks: NumberChecks,
    path_class: Option<u32>,
)
    ensures
        request_outcome(params, checks, path_class) matches Ok(p) ==> {
            &&& (p.format == OutputFormat::Csv <==> lookup(params, "format"@) == Some("csv"@))
            &&& (p.format == OutputFormat::Kml <==> lookup(params, "format"@) == Some("kml"@))
            &&& (p.format == OutputFormat::Json <==> (lookup(params, "format"@) is None || lookup(
                params,
                "format"@,
            ) == Some("json"@)))
        },
        lookup(params, "format"@) matches Some(v) ==> (v != "json"@ && v != "csv"@ && v != "kml"@
            <==> format_outcome(params) == Err::<OutputFormat, Failure>(
            (ApiErrorKind::InternalException, "Format not supported: "@ + v),
        )),
{
    reveal_strlit("json");
    reveal_strlit("csv");
    reveal_strlit("kml");
    assert("json"@.len() == 4 && "csv"@.len() == 3 && "kml"@.len() == 3);
    assert("csv"@[0] == 'c' && "kml"@[0] == 'k');
}

/// The profile is the one the query's `profile` names: an accepted request
/// has the standard profile exactly when the query says `standard_profile`
/// or nothing, the float profile exactly when it says `float_profile`, and
/// the reverse profile exactly when it says `reverse_profile`; only a float
/// profile carries a stop time, later than the launch.
pub proof fn profile_follows_query(
    params: Seq<(String, String)>,
    checks: NumberChecks,
    path_class: Option<u32>,
)
    ensures
        request_outcome(params, checks, path_class) matches Ok(p) ==> {
            &&& (p.profile == ProfileKind::Standard <==> (lookup(params, "profile"@) is None
                || lookup(params, "profile"@) == Some("standard_profile"@)))
            &&& (p.profile == ProfileKind::Float <==> lookup(params, "profile"@) == Some(
                "float_profile"@,
            ))
            &&& (p.profile == ProfileKind::Reverse <==> lookup(params, "profile"@) == Some(
                "reverse_profile"@,
            ))
            &&& (p.stop_datetime is Some <==> p.profile == ProfileKind::Float)
            &&& (p.stop_datetime matches Some(stop) ==> p.launch_datetime.lt(stop))
        },
{
    reveal_strlit("standard_profile");
    reveal_strlit("float_profile");
    reveal_strlit("reverse_profile");
    assert("standard_profile"@.len() == 16 && "float_profile"@.len() == 13
        && "reverse_profile"@.len() == 15);
}

/// A balloon class that parses is one of the four supported classes, and
/// each supported class parses from its decimal text.
pub proof fn balloon_class_accepts_exactly(raw: Seq<char>, class: u32)
    ensures
        balloon_class_outcome(raw) matches Ok(c) ==> supported_balloon_class(c) && parse_u32_spec(raw)
            == Some(c),
        supported_balloon_class(class) ==> balloon_class_outcome(decimal(class as nat)) == Ok::<
            u32,
            Failure,
        >(class),
{
    lemma_parse_decimal(class);
}


/// How a failure of the prediction engine is answered: download and GFS
/// troubles as a missing dataset, balloon-class troubles as a bad request,
/// anything else as a failed prediction.
pub open spec fn predict_failure(description: Seq<char>) -> Failure {
    let lower = ascii_lowercase(description);
    if contains(lower, "http"@) || contains(lower, "download"@) || contains(lower, "gfs"@) {
        (ApiErrorKind::InvalidDatasetException, "No matching dataset found: "@ + description)
    } else if contains(lower, "balloon class"@) {
        (ApiErrorKind::RequestException, description)
    } else {
        (
            ApiErrorKind::PredictionException,
            "Prediction did not complete: '"@ + description + "'."@,
        )
    }
}

/// An engine failure is answered as a missing dataset, a bad request or a
/// failed prediction, and the answer always quotes the engine's own
/// description; a bad request passes it on unchanged.
pub proof fn predict_failures_keep_their_description(description: Seq<char>)
    ensures
        predict_failure(description).0 == ApiErrorKind::InvalidDatasetException
            || predict_failure(description).0 == ApiErrorKind::RequestException
            || predict_failure(description).0 == ApiErrorKind::PredictionException,
        contains(predict_failure(description).1, description),
        predict_failure(description).0 == ApiErrorKind::RequestException
            ==> predict_failure(description).1 == description,
{
    let out = predict_failure(description).1;
    let lower = ascii_lowercase(description);
    if contains(lower, "http"@) || contains(lower, "download"@) || contains(lower, "gfs"@) {
        let k = "No matching dataset found: "@.len() as int;
        assert(out.subrange(k, k + description.len()) =~= description);
        assert(occurs_at(out, description, k));
    } else if contains(lower, "balloon class"@) {
        assert(out.subrange(0, description.len() as int) =~= description);
        assert(occurs_at(out, description, 0));
    } else {
        let k = "Prediction did not complete: '"@.len() as int;
        assert(out.subrange(k, k + description.len()) =~= description);
        assert(occurs_at(out, description, k));
    }
}

/// The API error that answers a failure of the prediction engine.
pub fn map_predict_error(description: &str, start: UtcTime) -> (e: ApiError)
    requires
        start.wf(),
    ensures
        e.kind == predict_failure(description@).0,
        e.description@ == predict_failure(description@).1,
        e.start_datetime == start,
        e.wf(),
{
    let lower = ascii_lowercase_chars(description);
    let http = chars_of("http");
    let download = chars_of("download");
    let gfs = chars_of("gfs");
    let balloon = chars_of("balloon class");
    if contains_chars(&lower, &http) || contains_chars(&lower, &download) || contains_chars(
        &lower,
        &gfs,
    ) {
        let mut d = "No matching dataset found: ".to_owned();
        d.append(description);
        ApiError::invalid_dataset(d, start)
    } else if contains_chars(&lower, &balloon) {
        ApiError::request(description.to_owned(), start)
    } else {
        ApiError::prediction(join3("Prediction did not complete: '", description, "'."), start)
    }
}

/// Only the standard profile can be predicted; the others are answered as
/// not yet implemented.
pub fn require_implemented_profile(profile: ProfileKind, start: UtcTime) -> (r: Result<
    (),
    ApiError,
>)
    requires
        start.wf(),
    ensures
        answers(
            r,
            if profile == ProfileKind::Standard {
                Ok(())
            } else {
                Err(
                    (
                        ApiErrorKind::NotYetImplementedException,
                        "Profile '"@ + profile.spec_name() + "' is not yet implemented."@,
                    ),
                )
            },
            start,
        ),
{
    match profile {
        ProfileKind::Standard => Ok(()),
        _ => Err(
            ApiError::not_implemented(
                join3("Profile '", profile.name(), "' is not yet implemented."),
                start,
            ),
        ),
    }
}

/// KML export knows only the standard profile.
pub fn require_kml_profile(profile: &str, start: UtcTime) -> (r: Result<(), ApiError>)
    requires
        start.wf(),
    ensures
        answers(
            r,
            if profile@ == "standard_profile"@ {
                Ok(())
            } else {
                Err(
                    (
                        ApiErrorKind::InternalException,
                        "Unknown Flight Profile for KML export: "@ + profile@ + "."@,
                    ),
                )
            },
            start,
        ),
{
    if str_eq(profile, "standard_profile") {
        Ok(())
    } else {
        Err(
            ApiError::internal(
                join3("Unknown Flight Profile for KML export: ", profile, "."),
                start,
            ),
        )
    }
}

/// The indices `i` (in order) with `flags[i] == value`.
pub open spec fn indices_where(flags: Seq<bool>, value: bool) -> Seq<usize>
    decreases flags.len(),
{
    if flags.len() == 0 {
        Seq::empty()
    } else if flags.last() == value {
        indices_where(flags.drop_last(), value).push((flags.len() - 1) as usize)
    } else {
        indices_where(flags.drop_last(), value)
    }
}

/// Which trajectory states make up each stage of a prediction.
#[derive(Debug, Clone, PartialEq, Eq)]
pub struct StageSplit {
    /// States of the ascent, in order, ending with the burst state.
    pub ascent: Vec<usize>,
    /// States after the burst, in order, starting with the burst state.
    pub descent: Vec<usize>,
}

/// The ascent stage: the states that have not burst, followed by the first
/// burst state when there is one.
pub open spec fn ascent_indices(is_burst: Seq<bool>) -> Seq<usize> {
    let ascent = indices_where(is_burst, false);
    let descent = indices_where(is_burst, true);
    if descent.len() > 0 {
        ascent.push(descent[0])
    } else {
        ascent
    }
}

/// Splits the states of a trajectory into the ascent and descent stages:
/// states before the burst ascend, the burst and later states descend, and
/// the first burst state also ends the ascent, so both stages hold it.
pub fn split_stages(is_burst: &Vec<bool>) -> (r: StageSplit)
    ensures
        r.ascent@ == ascent_indices(is_burst@),
        r.descent@ == indices_where(is_burst@, true),
{
    let mut ascent: Vec<usize> = Vec::new();
    let mut descent: Vec<usize> = Vec::new();
    let mut i: usize = 0;
    while i < is_burst.len()
        invariant
            i <= is_burst.len(),
            ascent@ == indices_where(is_burst@.subrange(0, i as int), false),
            descent@ == indices_where(is_burst@.subrange(0, i as int), true),
        decreases is_burst.len() - i,
    {
        let ghost prev = is_burst@.subrange(0, i as int);
        let ghost next = is_burst@.subrange(0, i + 1);
        assert(next.drop_last() =~= prev);
        if is_burst[i] {
            descent.push(i);
        } else {
            ascent.push(i);
        }
        i = i + 1;
    }
    assert(is_burst@.subrange(0, is_burst.len() as int) =~= is_burst@);
    if descent.len() > 0 {
        ascent.push(descent[0]);
    }
    StageSplit { ascent, descent }
}

/// `indices_where(flags, value)` is exactly the positions whose flag is
/// `value`, in increasing order (positions are `usize`, so a sequence of
/// flags as long as a `Vec` can be).
pub proof fn indices_are_the_flagged_positions(flags: Seq<bool>, value: bool)
    requires
        flags.len() <= usize::MAX,
    ensures
        forall|k: int|
            0 <= k < indices_where(flags, value).len() ==> (#[trigger] indices_where(flags, value)[k])
                < flags.len() && flags[indices_where(flags, value)[k] as int] == value,
        forall|k: int, l: int|
            0 <= k < l < indices_where(flags, value).len() ==> (#[trigger] indices_where(
                flags,
                value,
            )[k]) < #[trigger] indices_where(flags, value)[l],
        forall|i: int|
            0 <= i < flags.len() && #[trigger] flags[i] == value ==> indices_where(
                flags,
                value,
            ).contains(i as usize),
    decreases flags.len(),
{
    if flags.len() > 0 {
        let prev = flags.drop_last();
        indices_are_the_flagged_positions(prev, value);
        let ix = indices_where(flags, value);
        let pix = indices_where(prev, value);
        let n = flags.len() - 1;
        assert forall|k: int| 0 <= k < ix.len() implies (#[trigger] ix[k]) < flags.len()
            && flags[ix[k] as int] == value by {
            if k < pix.len() {
                assert(ix[k] == pix[k]);
                assert(prev[pix[k] as int] == flags[pix[k] as int]);
            } else {
                assert(ix == pix.push(n as usize));
            }
        }
        assert forall|k: int, l: int| 0 <= k < l < ix.len() implies (#[trigger] ix[k]) < #[trigger] ix[l] by {
            if l < pix.len() {
                assert(ix[k] == pix[k] && ix[l] == pix[l]);
            } else {
                assert(ix == pix.push(n as usize));
                assert(ix[k] == pix[k]);
                assert(pix[k] < prev.len());
            }
        }
        assert forall|i: int| 0 <= i < flags.len() && #[trigger] flags[i] == value implies ix.contains(i as usize) by {
            if i < n {
                assert(prev[i] == flags[i]);
                let j = choose|j: int| 0 <= j < pix.len() && pix[j] == i as usize;
                assert(ix[j] == pix[j]);
            } else {
                assert(ix == pix.push(n as usize));
                assert(ix[pix.len() as int] == n as usize);
            }
        }
    }
}

/// Both stages hold the burst point: when some state has burst, the ascent
/// is every state that has not, in order, followed by the first burst
/// state, and the descent starts with that state.
pub proof fn stages_share_burst_point(is_burst: Seq<bool>)
    ensures
        ({
            let ascent = ascent_indices(is_burst);
            let descent = indices_where(is_burst, true);
            descent.len() > 0 ==> {
                &&& ascent.len() > 0
                &&& ascent.last() == descent[0]
                &&& ascent.drop_last() == indices_where(is_burst, false)
            }
        }),
{
    let ascent = ascent_indices(is_burst);
    let descent = indices_where(is_burst, true);
    if descent.len() > 0 {
        assert(ascent.drop_last() =~= indices_where(is_burst, false));
    }
}

/// A point of a stage: the stage's index and the point's index in it.
pub type PointRef = (usize, usize);

/// The launch, burst and landing points that a KML export marks: the first
/// and last points of the first stage, and the last point of the last stage
/// (the burst point when that stage is empty); none without a first point.
pub open spec fn kml_markers(stage_lengths: Seq<usize>) -> Option<(PointRef, PointRef, PointRef)> {
    if stage_lengths.len() == 0 || stage_lengths[0] == 0 {
        None
    } else {
        let launch: PointRef = (0, 0);
        let burst: PointRef = (0, (stage_lengths[0] - 1) as usize);
        let last = stage_lengths.len() - 1;
        let landing: PointRef = if stage_lengths[last] > 0 {
            (last as usize, (stage_lengths[last] - 1) as usize)
        } else {
            burst
        };
        Some((launch, burst, landing))
    }
}

/// The points that the launch, burst and landing placemarks of a KML export show.
pub fn kml_marker_points(stage_lengths: &Vec<usize>) -> (r: Option<(PointRef, PointRef, PointRef)>)
    ensures
        r == kml_markers(stage_lengths@),
{
    if stage_lengths.len() == 0 || stage_lengths[0] == 0 {
        return None;
    }
    let launch: PointRef = (0, 0);
    let burst: PointRef = (0, stage_lengths[0] - 1);
    let last = stage_lengths.len() - 1;
    let landing: PointRef = if stage_lengths[last] > 0 {
        (last, stage_lengths[last] - 1)
    } else {
        burst
    };
    Some((launch, burst, landing))
}

/// The time stamps in an attachment's file name: the launch time
/// (`%Y%m%d-%H%M%SZ`) and the model run (`%Y%m%d%HZ`); an unreadable launch
/// time falls back to `now`, an unreadable dataset to the launch time.
pub open spec fn attachment_times(
    launch_text: Seq<char>,
    dataset_text: Seq<char>,
    now: UtcTime,
) -> (UtcTime, UtcTime) {
    let launch = match parsed_instant(launch_text) {
        Some(t) => t,
        None => now,
    };
    let dataset = match parsed_instant(dataset_text) {
        Some(t) => t,
        None => launch,
    };
    (launch, dataset)
}

/// The launch and dataset stamps of an attachment file name, with `now` as
/// the fallback launch time.
pub fn attachment_stamps_at(launch_text: &str, dataset_text: &str, now: UtcTime) -> (r: (
    String,
    String,
))
    requires
        now.wf(),
    ensures
        ({
            let (l, d) = attachment_times(launch_text@, dataset_text@, now);
            &&& r.0@ == strftime_text(l.secs as int, l.nanos as int, "%Y%m%d-%H%M%SZ"@)
            &&& r.1@ == strftime_text(d.secs as int, d.nanos as int, "%Y%m%d%HZ"@)
        }),
{
    let launch = match parse_rfc3339(launch_text) {
        Some(t) => t,
        None => now,
    };
    let dataset = match parse_rfc3339(dataset_text) {
        Some(t) => t,
        None => launch,
    };
    (format_instant(launch, "%Y%m%d-%H%M%SZ"), format_instant(dataset, "%Y%m%d%HZ"))
}

/// The launch and dataset stamps of an attachment file name; the clock is
/// read only when the launch time does not parse.
pub fn attachment_stamps(launch_text: &str, dataset_text: &str) -> (r: (String, String))
    ensures
        exists|now: UtcTime|
            #![trigger attachment_times(launch_text@, dataset_text@, now)]
            now.wf() && ({
                let (l, d) = attachment_times(launch_text@, dataset_text@, now);
                &&& r.0@ == strftime_text(l.secs as int, l.nanos as int, "%Y%m%d-%H%M%SZ"@)
                &&& r.1@ == strftime_text(d.secs as int, d.nanos as int, "%Y%m%d%HZ"@)
            }),
{
    let fallback = match parse_rfc3339(launch_text) {
        Some(t) => t,
        None => now(),
    };
    let r = attachment_stamps_at(launch_text, dataset_text, fallback);
    assert(attachment_times(launch_text@, dataset_text@, fallback) == attachment_times(
        launch_text@,
        dataset_text@,
        fallback,
    ));
    r
}


/// A request is refused as a bad request, except for an unknown output
/// format, which is an internal error.
pub proof fn request_errors_are_request_or_format(
    params: Seq<(String, String)>,
    checks: NumberChecks,
    path_class: Option<u32>,
)
    ensures
        request_outcome(params, checks, path_class) matches Err(e) ==> (e.0
            == ApiErrorKind::RequestException || (e.0 == ApiErrorKind::InternalException
            && format_outcome(params) is Err)),
{
}

/// An accepted request has every number its profile needs present and
/// accepted, so they can be read from the query.
pub proof fn accepted_request_has_its_numbers(
    params: Seq<(String, String)>,
    checks: NumberChecks,
    path_class: Option<u32>,
)
    ensures
        request_outcome(params, checks, path_class) matches Ok(p) ==> {
            &&& lookup(params, "launch_latitude"@) is Some
            &&& checks.launch_latitude == NumberCheck::Accepted
            &&& lookup(params, "launch_longitude"@) is Some
            &&& checks.launch_longitude == NumberCheck::Accepted
            &&& lookup(params, "ascent_rate"@) is Some
            &&& checks.ascent_rate == NumberCheck::Accepted
            &&& (p.has_launch_altitude <==> lookup(params, "launch_altitude"@) is Some)
            &&& (p.has_launch_altitude ==> checks.launch_altitude == NumberCheck::Accepted)
            &&& (p.has_gross_mass <==> lookup(params, "gross_mass"@) is Some)
            &&& (p.has_gross_mass ==> checks.gross_mass == NumberCheck::Accepted)
            &&& (p.profile == ProfileKind::Standard ==> {
                &&& lookup(params, "burst_altitude"@) is Some
                &&& checks.burst_altitude == NumberCheck::Accepted
                &&& lookup(params, "descent_rate"@) is Some
                &&& checks.descent_rate == NumberCheck::Accepted
                &&& p.stop_datetime is None
            })
            &&& (p.profile == ProfileKind::Float ==> {
                &&& lookup(params, "float_altitude"@) is Some
                &&& checks.float_altitude == NumberCheck::Accepted
                &&& p.stop_datetime matches Some(stop) && p.launch_datetime.lt(stop)
            })
        },
{
}

/// The value of a `Content-Disposition` header that offers `filename` as a download.
pub open spec fn content_disposition_text(filename: Seq<char>) -> Seq<char> {
    "attachment; filename=\""@ + filename + "\""@
}

/// The `Content-Disposition` header value of an attachment named `filename`.
pub fn content_disposition(filename: &str) -> (r: String)
    ensures
        r@ == content_disposition_text(filename@),
{
    join3("attachment; filename=\"", filename, "\"")
}

/// The (always empty) `warnings` member of a successful response.
#[derive(Debug, Clone, Copy, PartialEq, Eq, Default)]
pub struct EmptyWarnings {}

} // verus!
