//! Where validated data is written: file names with timestamps, the
//! destination or quarantine address, the output format, and what each
//! storage type needs before the write.
//!
//! Serializing the data and writing it are left to the caller, which
//! follows the plan made here.

use crate::connectors::{parse_url_path, remote_kind_of, url_error_text, url_parses, RemoteKind};
use crate::contracts::{Destination, Quarantine, Source};
use crate::paths::{extension, extension_spec, file_stem, file_stem_spec};
use crate::profiles::{find_profile, Profile, Profiles};
use crate::text::{chars_of, push_str};
use crate::validators::{ci_equal, matches_word_ci};
use crate::verify::chars_eq;
use vstd::prelude::*;

verus! {

/// An ASCII decimal digit.
pub open spec fn is_digit(c: char) -> bool {
    '0' <= c && c <= '9'
}

/// What `%Y%m%d_%H%M%S` writes for any instant: the year (four digits, or
/// for years outside 0 to 9999 a sign and its digits), month and day as
/// digits, `_`, then hour, minute and second as six digits.
pub open spec fn is_compact_stamp(t: Seq<char>) -> bool {
    &&& t.len() >= 15
    &&& t[t.len() - 7] == '_'
    &&& forall|i: int| t.len() - 6 <= i < t.len() ==> is_digit(#[trigger] t[i])
    &&& forall|i: int| 1 <= i < t.len() - 7 ==> is_digit(#[trigger] t[i])
    &&& (is_digit(t[0]) || t[0] == '+' || t[0] == '-')
}

/// The current UTC time as `chrono::Utc::now().format("%Y%m%d_%H%M%S")`
/// writes it. Which instant it shows is not stated; the contract claims the
/// shape that this format gives every instant (`is_compact_stamp`).
#[verifier::external_body]
fn utc_now_compact() -> (r: String)
    ensures
        is_compact_stamp(r@),
{
    chrono::Utc::now().format("%Y%m%d_%H%M%S").to_string()
}

/// Writes validated data to its destination or quarantine.
pub struct FileMovement;

/// The formats data can be written in.
#[derive(Debug, Clone, Copy, PartialEq, Eq, Structural)]
pub enum OutputFormat {
    Csv,
    Parquet,
}

/// The file name a copy of `original_location` gets: its stem, the
/// timestamp, `_quarantine` for quarantined data, and the extension (the
/// format override, else the data file's extension, else `csv`).
pub open spec fn filename_spec(
    original_location: Seq<char>,
    is_quarantine: bool,
    format_override: Option<Seq<char>>,
    timestamp: Seq<char>,
) -> Seq<char> {
    let stem = match file_stem_spec(original_location) {
        Some(s) => s,
        None => seq![],
    };
    let ext = match format_override {
        Some(f) => f,
        None => match extension_spec(original_location) {
            Some(e) => e,
            None => "csv"@,
        },
    };
    if is_quarantine {
        stem + "_"@ + timestamp + "_quarantine."@ + ext
    } else {
        stem + "_"@ + timestamp + "."@ + ext
    }
}

/// A base location and a file name joined by exactly one `/` (none added
/// when the base already ends with one).
pub open spec fn destination_path_spec(base: Seq<char>, filename: Seq<char>) -> Seq<char> {
    if base.len() > 0 && base.last() == '/' {
        base + filename
    } else {
        base + "/"@ + filename
    }
}

/// Text of an optional string slice.
pub open spec fn opt_str(o: Option<&str>) -> Option<Seq<char>> {
    match o {
        Some(s) => Some(s@),
        None => None,
    }
}

/// What serializing in `format` gives: the format it names, compared
/// case-insensitively (lower-casing a non-ASCII character never yields one
/// of the letters of `csv` or `parquet`, so ASCII lower-casing decides this
/// as `str::to_lowercase` does), or the error.
pub open spec fn output_format_result(format: Seq<char>, r: Result<OutputFormat, String>) -> bool {
    if ci_equal(format, "csv"@) {
        r == Ok::<OutputFormat, String>(OutputFormat::Csv)
    } else if ci_equal(format, "parquet"@) {
        r == Ok::<OutputFormat, String>(OutputFormat::Parquet)
    } else {
        r matches Err(m) && m@ == "Unsupported output format: "@ + format
    }
}

/// A write: the format to serialize in and where to write it.
pub struct WritePlan {
    pub format: OutputFormat,
    pub config: Source,
}

/// Where serialized data goes.
pub enum WriteTarget<'a> {
    /// A local file at this path.
    Local(&'a String),
    /// An object at `location` of a cloud provider, with `profile`.
    Remote { kind: RemoteKind, location: &'a String, profile: &'a Profile },
    /// Nowhere: the sink is `not_moved`.
    Skip,
}

impl FileMovement {
    /// The file name a copy of `original_location` gets, stamped with
    /// `timestamp`.
    pub fn generate_filename_at(
        original_location: &str,
        is_quarantine: bool,
        format_override: Option<&str>,
        timestamp: &str,
    ) -> (r: String)
        ensures
            r@ == filename_spec(original_location@, is_quarantine, opt_str(format_override), timestamp@),
    {
        let mut s = String::new();
        match file_stem(original_location) {
            Some(stem) => push_str(&mut s, stem.as_str()),
            None => {},
        }
        push_str(&mut s, "_");
        push_str(&mut s, timestamp);
        if is_quarantine {
            push_str(&mut s, "_quarantine.");
        } else {
            push_str(&mut s, ".");
        }
        match format_override {
            Some(f) => push_str(&mut s, f),
            None => match extension(original_location) {
                Some(e) => push_str(&mut s, e.as_str()),
                None => push_str(&mut s, "csv"),
            },
        }
        proof {
            let stem = match file_stem_spec(original_location@) {
                Some(x) => x,
                None => seq![],
            };
            assert(seq![] + stem =~= stem);
        }
        s
    }

    /// The file name a copy of `original_location` gets, stamped with the
    /// current time.
    pub fn generate_filename(original_location: &str, is_quarantine: bool, format_override: Option<&str>) -> (r:
        String)
        ensures
            exists|ts: Seq<char>|
                is_compact_stamp(ts) && r@ == #[trigger] filename_spec(original_location@, is_quarantine, opt_str(format_override), ts),
    {
        let ts = utc_now_compact();
        FileMovement::generate_filename_at(original_location, is_quarantine, format_override, ts.as_str())
    }

    /// Joins a base location and a file name.
    pub fn build_destination_path(base_location: &str, filename: &str) -> (r: String)
        ensures
            r@ == destination_path_spec(base_location@, filename@),
    {
        let b = chars_of(base_location);
        let mut s = String::new();
        push_str(&mut s, base_location);
        if b.len() == 0 || b[b.len() - 1] != '/' {
            push_str(&mut s, "/");
        }
        push_str(&mut s, filename);
        assert(seq![] + base_location@ =~= base_location@);
        s
    }

    /// The output format `format` names.
    pub fn output_format(format: &str) -> (r: Result<OutputFormat, String>)
        ensures
            output_format_result(format@, r),
    {
        let f = chars_of(format);
        let csv = chars_of("csv");
        let parquet = chars_of("parquet");
        if matches_word_ci(&f, &csv) {
            Ok(OutputFormat::Csv)
        } else if matches_word_ci(&f, &parquet) {
            Ok(OutputFormat::Parquet)
        } else {
            let mut m = String::new();
            push_str(&mut m, "Unsupported output format: ");
            push_str(&mut m, format);
            Err(m)
        }
    }
}

/// Text of an optional string.
pub open spec fn opt_string_text(o: Option<String>) -> Option<Seq<char>> {
    match o {
        Some(s) => Some(s@),
        None => None,
    }
}

/// The format a sink asks for: its `format`, `csv` when it names none.
pub open spec fn sink_format(format: Option<String>) -> Seq<char> {
    match format {
        Some(f) => f@,
        None => "csv"@,
    }
}

/// The format names a sink may give.
pub open spec fn format_accepted(format: Seq<char>) -> bool {
    ci_equal(format, "csv"@) || ci_equal(format, "parquet"@)
}

/// What planning a write to a sink (`kind`, `location`, `profile`,
/// `format`) of a copy of `original_location`, stamped `timestamp`, gives:
/// the format, and the sink's type and profile with the location joined to
/// the copy's file name; or the format's error.
pub open spec fn write_plan_result(
    kind: String,
    location: Option<String>,
    profile: Option<String>,
    format: Option<String>,
    original_location: Seq<char>,
    is_quarantine: bool,
    timestamp: Seq<char>,
    r: Result<WritePlan, String>,
) -> bool {
    match r {
        Ok(p) => {
            &&& output_format_result(sink_format(format), Ok::<OutputFormat, String>(p.format))
            &&& p.config.kind@ == kind@
            &&& p.config.profile == profile
            &&& location matches Some(base) && p.config.location matches Some(l) && l@
                == destination_path_spec(
                base@,
                filename_spec(original_location, is_quarantine, opt_string_text(format), timestamp),
            )
        },
        Err(m) => output_format_result(sink_format(format), Err::<OutputFormat, String>(m)),
    }
}

fn plan_for_sink(
    kind: &String,
    location: &Option<String>,
    profile: &Option<String>,
    format: &Option<String>,
    original_location: &str,
    is_quarantine: bool,
    timestamp: &str,
) -> (r: Result<WritePlan, String>)
    requires
        location is Some || !format_accepted(sink_format(*format)),
    ensures
        write_plan_result(*kind, *location, *profile, *format, original_location@, is_quarantine, timestamp@, r),
{
    let fmt_override: Option<&str> = match format {
        Some(f) => Some(f.as_str()),
        None => None,
    };
    let filename = FileMovement::generate_filename_at(original_location, is_quarantine, fmt_override, timestamp);
    let out = match format {
        Some(f) => FileMovement::output_format(f.as_str()),
        None => FileMovement::output_format("csv"),
    };
    let fmt = match out {
        Ok(x) => x,
        Err(m) => {
            return Err(m);
        },
    };
    let base = match location {
        Some(b) => b,
        None => {
            proof {
                assert(false);
            }
            return Err(String::new());
        },
    };
    let path = FileMovement::build_destination_path(base.as_str(), filename.as_str());
    Ok(WritePlan { format: fmt, config: Source { kind: kind.clone(), location: Some(path), profile: profile.clone() } })
}

impl FileMovement {
    /// How data that passed goes to the destination, stamped `timestamp`.
    /// A destination needs a location unless its format is refused, which is
    /// reported first.
    pub fn write_success_plan_at(original_location: &str, destination: &Destination, timestamp: &str) -> (r:
        Result<WritePlan, String>)
        requires
            destination.location is Some || !format_accepted(sink_format(destination.format)),
        ensures
            write_plan_result(
                destination.kind,
                destination.location,
                destination.profile,
                destination.format,
                original_location@,
                false,
                timestamp@,
                r,
            ),
    {
        plan_for_sink(
            &destination.kind,
            &destination.location,
            &destination.profile,
            &destination.format,
            original_location,
            false,
            timestamp,
        )
    }

    /// How data that passed goes to the destination, stamped with the
    /// current time.
    pub fn write_success_plan(original_location: &str, destination: &Destination) -> (r: Result<WritePlan, String>)
        requires
            destination.location is Some || !format_accepted(sink_format(destination.format)),
        ensures
            exists|ts: Seq<char>|
                is_compact_stamp(ts) && #[trigger] write_plan_result(
                    destination.kind,
                    destination.location,
                    destination.profile,
                    destination.format,
                    original_location@,
                    false,
                    ts,
                    r,
                ),
    {
        let ts = utc_now_compact();
        FileMovement::write_success_plan_at(original_location, destination, ts.as_str())
    }

    /// How data that failed goes to quarantine, stamped `timestamp`.
    pub fn write_quarantine_plan_at(original_location: &str, quarantine: &Quarantine, timestamp: &str) -> (r:
        Result<WritePlan, String>)
        requires
            quarantine.location is Some || !format_accepted(sink_format(quarantine.format)),
        ensures
            write_plan_result(
                quarantine.kind,
                quarantine.location,
                quarantine.profile,
                quarantine.format,
                original_location@,
                true,
                timestamp@,
                r,
            ),
    {
        plan_for_sink(
            &quarantine.kind,
            &quarantine.location,
            &quarantine.profile,
            &quarantine.format,
            original_location,
            true,
            timestamp,
        )
    }

    /// How data that failed goes to quarantine, stamped with the current
    /// time.
    pub fn write_quarantine_plan(original_location: &str, quarantine: &Quarantine) -> (r: Result<WritePlan, String>)
        requires
            quarantine.location is Some || !format_accepted(sink_format(quarantine.format)),
        ensures
            exists|ts: Seq<char>|
                is_compact_stamp(ts) && #[trigger] write_plan_result(
                    quarantine.kind,
                    quarantine.location,
                    quarantine.profile,
                    quarantine.format,
                    original_location@,
                    true,
                    ts,
                    r,
                ),
    {
        let ts = utc_now_compact();
        FileMovement::write_quarantine_plan_at(original_location, quarantine, ts.as_str())
    }
}

/// What a write to `config` needs before the bytes are written: for a local
/// file its path; for a cloud provider a profile that `profiles` defines and
/// a location that parses as a URL (the URL parser's message otherwise); nothing
/// for `not_moved`.
pub open spec fn write_target_result(config: Source, profiles: Seq<(String, Profile)>, r: Result<WriteTarget, String>) -> bool {
    if config.kind@ == "local"@ {
        r matches Ok(WriteTarget::Local(l)) && config.location == Some(*l)
    } else if config.kind@ == "not_moved"@ {
        r matches Ok(WriteTarget::Skip)
    } else {
        match remote_kind_of(config.kind@) {
            None => r matches Err(m) && m@ == "Unsupported type: "@ + config.kind@,
            Some(k) => {
                let name = config.profile.unwrap();
                match find_profile(profiles, name@) {
                    None => r matches Err(m) && m@ == "Profile '"@ + name@ + "' not found"@,
                    Some(p) => {
                        let loc = config.location.unwrap();
                        if url_parses(loc@) {
                            r matches Ok(WriteTarget::Remote { kind, location, profile })
                                && kind == k && *location == loc && *profile == p
                        } else {
                            r matches Err(m) && m@ == url_error_text(loc@)
                        }
                    },
                }
            },
        }
    }
}

/// The inputs on which a write to `config` reaches no missing location or
/// profile: a local write has a location; a cloud write has a profile, and
/// a location too when `profiles` defines that profile.
pub open spec fn write_config_complete(config: Source, profiles: Seq<(String, Profile)>) -> bool {
    &&& config.kind@ == "local"@ ==> config.location is Some
    &&& remote_kind_of(config.kind@) is Some ==> (config.profile matches Some(name) && (find_profile(
        profiles,
        name@,
    ) is Some ==> config.location is Some))
}

impl FileMovement {
    /// Where serialized data goes for the write configuration `config`.
    pub fn write_target<'a>(config: &'a Source, profiles: &'a Profiles) -> (r: Result<WriteTarget<'a>, String>)
        requires
            write_config_complete(*config, profiles.spec_entries()),
        ensures
            write_target_result(*config, profiles.spec_entries(), r),
    {
        let kind = chars_of(config.kind.as_str());
        let local = chars_of("local");
        let not_moved = chars_of("not_moved");
        if chars_eq(&kind, &local) {
            return match &config.location {
                Some(l) => Ok(WriteTarget::Local(l)),
                None => {
                    proof {
                        assert(false);
                    }
                    Err(String::new())
                },
            };
        }
        if chars_eq(&kind, &not_moved) {
            return Ok(WriteTarget::Skip);
        }
        let s3 = chars_of("s3");
        let azure = chars_of("azure");
        let gcs = chars_of("gcs");
        let k = if chars_eq(&kind, &s3) {
            RemoteKind::S3
        } else if chars_eq(&kind, &azure) {
            RemoteKind::Azure
        } else if chars_eq(&kind, &gcs) {
            RemoteKind::Gcs
        } else {
            let mut m = String::new();
            push_str(&mut m, "Unsupported type: ");
            push_str(&mut m, config.kind.as_str());
            return Err(m);
        };
        let name = match &config.profile {
            Some(n) => n,
            None => {
                proof {
                    assert(false);
                }
                return Err(String::new());
            },
        };
        let profile = match profiles.get(name.as_str()) {
            Some(p) => p,
            None => {
                let mut m = String::new();
                push_str(&mut m, "Profile '");
                push_str(&mut m, name.as_str());
                push_str(&mut m, "' not found");
                return Err(m);
            },
        };
        let location = match &config.location {
            Some(l) => l,
            None => {
                proof {
                    assert(false);
                }
                return Err(String::new());
            },
        };
        match parse_url_path(location.as_str()) {
            Ok(_) => Ok(WriteTarget::Remote { kind: k, location, profile }),
            Err(e) => Err(e),
        }
    }
}

/// How a sink's profile is checked before data moves.
pub enum ConnectivityCheck {
    /// Nothing to check: a local or `not_moved` sink.
    Ready,
    /// A sink that needs a profile names none: it cannot be reached.
    NoProfile,
    /// Test the connection of the profile with this name.
    TestProfile(String),
}

/// `c` is the check for a sink of type `kind` with profile `profile`.
pub open spec fn check_is(c: ConnectivityCheck, profile: Option<Seq<char>>, kind: Option<Seq<char>>) -> bool {
    if kind matches Some(k) && (k == "local"@ || k == "not_moved"@) {
        c is Ready
    } else {
        match profile {
            Some(n) => c matches ConnectivityCheck::TestProfile(m) && m@ == n,
            None => c is NoProfile,
        }
    }
}

/// The profile of an optional source, as text.
pub open spec fn source_profile(s: Option<&Source>) -> Option<Seq<char>> {
    match s {
        Some(x) => opt_string_text(x.profile),
        None => None,
    }
}

/// The type of an optional source, as text.
pub open spec fn source_kind(s: Option<&Source>) -> Option<Seq<char>> {
    match s {
        Some(x) => Some(x.kind@),
        None => None,
    }
}

/// The profile of an optional destination, as text.
pub open spec fn destination_profile(d: Option<&Destination>) -> Option<Seq<char>> {
    match d {
        Some(x) => opt_string_text(x.profile),
        None => None,
    }
}

/// The type of an optional destination, as text.
pub open spec fn destination_kind(d: Option<&Destination>) -> Option<Seq<char>> {
    match d {
        Some(x) => Some(x.kind@),
        None => None,
    }
}

/// The profile of an optional quarantine, as text.
pub open spec fn quarantine_profile(q: Option<&Quarantine>) -> Option<Seq<char>> {
    match q {
        Some(x) => opt_string_text(x.profile),
        None => None,
    }
}

/// The type of an optional quarantine, as text.
pub open spec fn quarantine_kind(q: Option<&Quarantine>) -> Option<Seq<char>> {
    match q {
        Some(x) => Some(x.kind@),
        None => None,
    }
}

impl FileMovement {
    /// Which check a sink of type `destination_type` with profile
    /// `profile_name` needs: local and `not_moved` sinks need none, others
    /// need their profile tested, and without one they fail.
    pub fn test_profile_connectivity(profile_name: Option<&String>, destination_type: Option<&str>) -> (c:
        ConnectivityCheck)
        ensures
            check_is(
                c,
                match profile_name {
                    Some(n) => Some(n@),
                    None => None,
                },
                match destination_type {
                    Some(k) => Some(k@),
                    None => None,
                },
            ),
    {
        let ready = match destination_type {
            Some(k) => {
                let kc = chars_of(k);
                let local = chars_of("local");
                let not_moved = chars_of("not_moved");
                chars_eq(&kc, &local) || chars_eq(&kc, &not_moved)
            },
            None => false,
        };
        if ready {
            ConnectivityCheck::Ready
        } else {
            match profile_name {
                Some(n) => ConnectivityCheck::TestProfile(n.clone()),
                None => ConnectivityCheck::NoProfile,
            }
        }
    }

    /// The checks of the source, destination and quarantine profiles.
    pub fn validate_profiles(
        source: Option<&Source>,
        destination: Option<&Destination>,
        quarantine: Option<&Quarantine>,
    ) -> (r: (ConnectivityCheck, ConnectivityCheck, ConnectivityCheck))
        ensures
            check_is(r.0, source_profile(source), source_kind(source)),
            check_is(r.1, destination_profile(destination), destination_kind(destination)),
            check_is(r.2, quarantine_profile(quarantine), quarantine_kind(quarantine)),
    {
        let s = match source {
            Some(x) => FileMovement::test_profile_connectivity(x.profile.as_ref(), Some(x.kind.as_str())),
            None => FileMovement::test_profile_connectivity(None, None),
        };
        let d = match destination {
            Some(x) => FileMovement::test_profile_connectivity(x.profile.as_ref(), Some(x.kind.as_str())),
            None => FileMovement::test_profile_connectivity(None, None),
        };
        let q = match quarantine {
            Some(x) => FileMovement::test_profile_connectivity(x.profile.as_ref(), Some(x.kind.as_str())),
            None => FileMovement::test_profile_connectivity(None, None),
        };
        (s, d, q)
    }
}

} // verus!
