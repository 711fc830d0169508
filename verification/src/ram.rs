//! Memory analysis with Volatility: the command run over a RAM image,
//! the lines shown while it runs, and the IP addresses its output names
//! that are checked against a reputation service.

use vstd::prelude::*;
use crate::text::{push_str, push_decimal, ends_with_str, ends_with, starts_with_str, starts_with, str_eq};
use crate::report::{push_signed, signed_decimal};
use vstd::string::StrSliceExecFns;

verus! {

/// What a memory analysis is run with.
#[derive(Clone, Debug)]
pub struct VolatilityConfig {
    pub image_path: String,
    pub vol_path: String,
    pub profile: String,
    pub enrich_vt: bool,
    pub enrich_mb: bool,
    pub enrich_abuseip: bool,
    pub vt_key: String,
    pub mb_key: String,
    pub abuseip_key: String,
}

/// A program and its arguments.
#[derive(Clone, Debug)]
pub struct ProgramCall {
    pub program: String,
    pub args: Vec<String>,
}

/// Whether the Volatility entry point is a Python script (run through
/// `python`) rather than an executable.
pub open spec fn runs_through_python(vol_path: Seq<char>) -> bool {
    ends_with(vol_path, ".py"@)
}

/// The Volatility run: `python <script> -f <image> <profile>` for a
/// script, `<program> -f <image> <profile>` otherwise.
pub fn volatility_call(config: &VolatilityConfig) -> (c: ProgramCall)
    ensures
        runs_through_python(config.vol_path@) ==> c.program@ == "python"@ && c.args@.len() == 4
            && c.args@[0]@ == config.vol_path@ && c.args@[1]@ == "-f"@ && c.args@[2]@ == config.image_path@
            && c.args@[3]@ == config.profile@,
        !runs_through_python(config.vol_path@) ==> c.program@ == config.vol_path@ && c.args@.len() == 3
            && c.args@[0]@ == "-f"@ && c.args@[1]@ == config.image_path@ && c.args@[2]@ == config.profile@,
{
    let mut args: Vec<String> = Vec::new();
    let program = if ends_with_str(config.vol_path.as_str(), ".py") {
        args.push(config.vol_path.clone());
        let mut p = String::new();
        push_str(&mut p, "python");
        p
    } else {
        config.vol_path.clone()
    };
    let mut f = String::new();
    push_str(&mut f, "-f");
    args.push(f);
    args.push(config.image_path.clone());
    args.push(config.profile.clone());
    ProgramCall { program, args }
}

/// The first line shown: "Executing: <vol> -f <image> <profile>".
pub fn execution_line(config: &VolatilityConfig) -> (s: String)
    ensures
        s@ == "Executing: "@ + config.vol_path@ + " -f "@ + config.image_path@ + " "@ + config.profile@,
{
    let mut s = String::new();
    push_str(&mut s, "Executing: ");
    push_str(&mut s, config.vol_path.as_str());
    push_str(&mut s, " -f ");
    push_str(&mut s, config.image_path.as_str());
    push_str(&mut s, " ");
    push_str(&mut s, config.profile.as_str());
    s
}

/// A line of Volatility's error output as shown.
pub fn stderr_line(line: &str) -> (s: String)
    ensures
        s@ == "[STDERR] "@ + line@,
{
    let mut s = String::new();
    push_str(&mut s, "[STDERR] ");
    push_str(&mut s, line);
    s
}

/// Pattern of a dotted-quad IPv4 address.
pub const IPV4_PATTERN: &'static str = r"(\b25[0-5]|\b2[0-4][0-9]|\b[01]?[0-9][0-9]?)\.(\b25[0-5]|\b2[0-4][0-9]|\b[01]?[0-9][0-9]?)\.(\b25[0-5]|\b2[0-4][0-9]|\b[01]?[0-9][0-9]?)\.(\b25[0-5]|\b2[0-4][0-9]|\b[01]?[0-9][0-9]?)\b";

/// What the `regex` crate finds first for `pattern` in `text` (`None`
/// when the pattern does not compile or nothing matches).
pub uninterp spec fn regex_first_match(pattern: Seq<char>, text: Seq<char>) -> Option<Seq<char>>;

/// `regex::Regex::new` then `Regex::find`: the text of the leftmost-first
/// match of `pattern` in `text`. The contract names the result; it is a
/// function of the pattern and the text alone.
#[verifier::external_body]
fn first_regex_match(pattern: &str, text: &str) -> (r: Option<String>)
    ensures
        match r {
            Some(m) => regex_first_match(pattern@, text@) == Some(m@),
            None => regex_first_match(pattern@, text@) is None,
        },
{
    match regex::Regex::new(pattern) {
        Ok(re) => re.find(text).map(|m| m.as_str().to_string()),
        Err(_) => None,
    }
}

/// Whether an address is worth a reputation check: not loopback (127.),
/// not private (192.168., 10., 172.16.), not 0.0.0.0.
pub open spec fn worth_checking(ip: Seq<char>) -> bool {
    !starts_with(ip, "127."@) && !starts_with(ip, "192.168."@) && !starts_with(ip, "10."@) && !starts_with(
        ip,
        "172.16."@,
    ) && ip != "0.0.0.0"@
}

/// The address to check, of the one a line names (if any).
pub fn address_to_check(candidate: Option<String>) -> (r: Option<String>)
    ensures
        match candidate {
            Some(ip) => if worth_checking(ip@) {
                r matches Some(x) && x@ == ip@
            } else {
                r is None
            },
            None => r is None,
        },
{
    match candidate {
        Some(ip) => {
            if !starts_with_str(ip.as_str(), "127.") && !starts_with_str(ip.as_str(), "192.168.")
                && !starts_with_str(ip.as_str(), "10.") && !starts_with_str(ip.as_str(), "172.16.") && !str_eq(
                ip.as_str(),
                "0.0.0.0",
            ) {
                Some(ip)
            } else {
                None
            }
        },
        None => None,
    }
}

/// The address of a Volatility output line to check against AbuseIPDB:
/// when that enrichment is on with a key, the first IPv4 address of the
/// line, if it is worth checking.
pub fn enrichment_target(line: &str, enrich_abuseip: bool, abuseip_key: &str) -> (r: Option<String>)
    ensures
        !(enrich_abuseip && abuseip_key@.len() > 0) ==> r is None,
        enrich_abuseip && abuseip_key@.len() > 0 ==> match regex_first_match(IPV4_PATTERN@, line@) {
            Some(ip) => if worth_checking(ip) {
                r matches Some(x) && x@ == ip
            } else {
                r is None
            },
            None => r is None,
        },
{
    if enrich_abuseip && abuseip_key.unicode_len() > 0 {
        address_to_check(first_regex_match(IPV4_PATTERN, line))
    } else {
        None
    }
}

/// The summary of an AbuseIPDB answer: its confidence score (0 when
/// absent) and country ("Unknown" when absent) when it has data, else
/// "No data".
pub open spec fn abuse_summary_text(data: Option<(Option<i64>, Option<Seq<char>>)>) -> Seq<char> {
    match data {
        Some((score, country)) => "Confidence Score: "@ + signed_decimal(
            match score {
                Some(s) => s as int,
                None => 0,
            },
        ) + "%, Country: "@ + match country {
            Some(c) => c,
            None => "Unknown"@,
        },
        None => "No data"@,
    }
}

/// The characters of an optional string.
pub open spec fn opt_chars(o: Option<String>) -> Option<Seq<char>> {
    match o {
        Some(s) => Some(s@),
        None => None,
    }
}

/// The summary of an AbuseIPDB answer.
pub fn abuse_summary(data: &Option<(Option<i64>, Option<String>)>) -> (s: String)
    ensures
        s@ == abuse_summary_text(
            match *data {
                Some((score, country)) => Some((score, opt_chars(country))),
                None => None,
            },
        ),
{
    let mut s = String::new();
    match data {
        Some((score, country)) => {
            push_str(&mut s, "Confidence Score: ");
            let v: i64 = match score {
                Some(x) => *x,
                None => 0,
            };
            push_signed(&mut s, v);
            push_str(&mut s, "%, Country: ");
            match country {
                Some(c) => push_str(&mut s, c.as_str()),
                None => push_str(&mut s, "Unknown"),
            }
        },
        None => push_str(&mut s, "No data"),
    }
    s
}

/// The line shown for a checked address.
pub fn abuse_result_line(ip: &str, result: &str) -> (s: String)
    ensures
        s@ == "  [AbuseIPDB] Result for "@ + ip@ + ": "@ + result@,
{
    let mut s = String::new();
    push_str(&mut s, "  [AbuseIPDB] Result for ");
    push_str(&mut s, ip);
    push_str(&mut s, ": ");
    push_str(&mut s, result);
    s
}

} // verus!
