//! Acquisition reports: the text report with its integrity verification
//! log, the HTML dashboard, the CSV event log, and the timestamps and
//! durations they print.

use vstd::prelude::*;
use crate::hasher::{HashAlgorithm, HashDigests, algorithm_name, hex_digest_of};
use crate::text::{decimal, push_str, push_char, push_decimal, str_eq, hex_digit_upper, hex_char_upper};

verus! {

// ---------------------------------------------------------------------
// Time
// ---------------------------------------------------------------------

/// A UTC instant: whole seconds since the Unix epoch and the nanoseconds
/// past them.
#[derive(Clone, Copy, Debug, PartialEq, Eq, Structural)]
pub struct Timestamp {
    pub secs: i64,
    pub nanos: u32,
}

/// Earliest second whose date has a four-digit, non-negative year
/// (0000-01-01T00:00:00Z).
pub const EARLIEST_PRINTABLE: i64 = -62167219200;

/// Latest second whose date has a four-digit year (9999-12-31T23:59:59Z).
pub const LATEST_PRINTABLE: i64 = 253402300799;

/// Offset of Indian Standard Time from UTC, in seconds (+05:30).
pub const IST_OFFSET_SECS: i32 = 19800;

impl Timestamp {
    /// Whether the instant can be printed as an RFC 2822 date both in UTC
    /// and in Indian Standard Time: a sub-second part below one second
    /// (no leap second) and a year from 0 to 9999 in both zones.
    pub open spec fn printable(&self) -> bool {
        &&& self.nanos < 1_000_000_000
        &&& EARLIEST_PRINTABLE <= self.secs
        &&& self.secs + IST_OFFSET_SECS <= LATEST_PRINTABLE
    }

    /// Nanoseconds since the Unix epoch.
    pub open spec fn total_nanos(&self) -> int {
        self.secs * 1_000_000_000 + self.nanos
    }
}

/// The RFC 2822 rendering (e.g. "Tue, 1 Jul 2003 16:22:37 +0530") of an
/// instant in the time zone `offset_secs` seconds east of UTC, as `chrono`
/// prints it.
pub uninterp spec fn offset_rfc2822_text(secs: i64, nanos: u32, offset_secs: i32) -> Seq<char>;

/// The RFC 2822 rendering of an instant in Indian Standard Time.
pub open spec fn ist_rfc2822_text(secs: i64, nanos: u32) -> Seq<char> {
    offset_rfc2822_text(secs, nanos, IST_OFFSET_SECS)
}

/// The RFC 2822 rendering (e.g. "Tue, 1 Jul 2003 10:52:37 +0000") of an
/// instant in UTC, as `chrono` prints it.
pub uninterp spec fn utc_rfc2822_text(secs: i64, nanos: u32) -> Seq<char>;

/// `chrono`: the instant (`DateTime::from_timestamp`) shifted to the zone
/// `offset_secs` east of UTC (`with_timezone` on `FixedOffset::east_opt`)
/// and printed by `to_rfc2822`. The contract names the text; it is a
/// function of the instant and the offset alone. `requires` keeps to the
/// inputs on which none of the three calls fails or panics: an offset
/// under a day, no leap second, and a year from 0 to 9999 in both zones.
#[verifier::external_body]
fn to_offset_rfc2822(t: Timestamp, offset_secs: i32) -> (s: String)
    requires
        t.nanos < 1_000_000_000,
        -86_400 < offset_secs < 86_400,
        EARLIEST_PRINTABLE <= t.secs <= LATEST_PRINTABLE,
        EARLIEST_PRINTABLE <= t.secs + offset_secs <= LATEST_PRINTABLE,
    ensures
        s@ == offset_rfc2822_text(t.secs, t.nanos, offset_secs),
{
    let dt = chrono::DateTime::from_timestamp(t.secs, t.nanos).unwrap();
    let zone = chrono::FixedOffset::east_opt(offset_secs).unwrap();
    dt.with_timezone(&zone).to_rfc2822()
}

/// The RFC 2822 rendering of `t` in Indian Standard Time (+05:30).
pub(crate) fn to_ist_rfc2822(t: Timestamp) -> (s: String)
    requires
        t.printable(),
    ensures
        s@ == ist_rfc2822_text(t.secs, t.nanos),
{
    to_offset_rfc2822(t, IST_OFFSET_SECS)
}

/// `chrono`: the instant (`DateTime::from_timestamp`, in UTC) printed by
/// `to_rfc2822`. The contract names the text; it is a function of the
/// instant alone.
#[verifier::external_body]
pub(crate) fn to_utc_rfc2822(t: Timestamp) -> (s: String)
    requires
        t.printable(),
    ensures
        s@ == utc_rfc2822_text(t.secs, t.nanos),
{
    chrono::DateTime::from_timestamp(t.secs, t.nanos).unwrap().to_rfc2822()
}

/// Whole seconds from `start` to `end`, truncated toward zero (what
/// `num_seconds` of their signed difference gives).
pub open spec fn whole_seconds_between(start: Timestamp, end: Timestamp) -> int {
    let d = end.total_nanos() - start.total_nanos();
    if d >= 0 {
        d / 1_000_000_000
    } else {
        -((-d) / 1_000_000_000)
    }
}

/// Quotient of `a` by a positive `b`, truncated toward zero (Rust's `/`).
pub open spec fn trunc_div(a: int, b: int) -> int {
    if a >= 0 {
        a / b
    } else {
        -((-a) / b)
    }
}

/// Remainder of `a` by a positive `b` with the sign of `a` (Rust's `%`).
pub open spec fn trunc_rem(a: int, b: int) -> int {
    a - b * trunc_div(a, b)
}

/// Decimal rendering of a signed integer, as `{}` prints it.
pub open spec fn signed_decimal(i: int) -> Seq<char> {
    if i < 0 {
        seq!['-'] + decimal((-i) as nat)
    } else {
        decimal(i as nat)
    }
}

/// "<h>h <m>m <s>s" for a duration of `secs` whole seconds: hours,
/// minutes past the hour and seconds past the minute, each carrying the
/// duration's sign.
pub open spec fn duration_text(secs: int) -> Seq<char> {
    signed_decimal(trunc_div(secs, 3600)) + "h "@ + signed_decimal(trunc_rem(trunc_div(secs, 60), 60))
        + "m "@ + signed_decimal(trunc_rem(secs, 60)) + "s"@
}

/// Whole seconds from `start` to `end`, truncated toward zero.
pub fn seconds_between(start: Timestamp, end: Timestamp) -> (r: i64)
    requires
        start.printable(),
        end.printable(),
    ensures
        r == whole_seconds_between(start, end),
{
    let s_end: i128 = end.secs as i128 * 1_000_000_000 + end.nanos as i128;
    let s_start: i128 = start.secs as i128 * 1_000_000_000 + start.nanos as i128;
    let d = s_end - s_start;
    if d >= 0 {
        (d / 1_000_000_000) as i64
    } else {
        let q = (-d) / 1_000_000_000;
        -(q as i64)
    }
}

/// Appends the decimal rendering of a signed integer.
pub fn push_signed(s: &mut String, i: i64)
    ensures
        final(s)@ == old(s)@ + signed_decimal(i as int),
{
    if i < 0 {
        push_char(s, '-');
        let m: u64 = if i == i64::MIN {
            9223372036854775808u64
        } else {
            (-i) as u64
        };
        push_decimal(s, m);
        proof {
            assert(seq!['-'] + decimal(m as nat) == signed_decimal(i as int));
        }
    } else {
        push_decimal(s, i as u64);
    }
    proof {
        assert(final(s)@ =~= old(s)@ + signed_decimal(i as int));
    }
}

/// The duration from `start` to `end` as "<h>h <m>m <s>s".
pub fn duration_string(start: Timestamp, end: Timestamp) -> (s: String)
    requires
        start.printable(),
        end.printable(),
    ensures
        s@ == duration_text(whole_seconds_between(start, end)),
{
    let secs = seconds_between(start, end);
    let hours = secs / 3600;
    let minutes = (secs / 60) % 60;
    let seconds = secs % 60;
    proof {
        assert(hours == trunc_div(secs as int, 3600));
        assert(minutes == trunc_rem(trunc_div(secs as int, 60), 60));
        assert(seconds == trunc_rem(secs as int, 60));
    }
    let mut s = String::new();
    push_signed(&mut s, hours);
    push_str(&mut s, "h ");
    push_signed(&mut s, minutes);
    push_str(&mut s, "m ");
    push_signed(&mut s, seconds);
    push_str(&mut s, "s");
    proof {
        assert(s@ =~= duration_text(whole_seconds_between(start, end)));
    }
    s
}


// ---------------------------------------------------------------------
// Hash listings and the integrity verdicts
// ---------------------------------------------------------------------

/// The algorithms in the order reports list them.
pub open spec fn algorithm_at(i: int) -> HashAlgorithm {
    if i == 0 {
        HashAlgorithm::MD5
    } else if i == 1 {
        HashAlgorithm::SHA1
    } else if i == 2 {
        HashAlgorithm::SHA256
    } else {
        HashAlgorithm::SHA512
    }
}

/// The algorithm at position `i` of the report order (MD5, SHA1,
/// SHA256, SHA512).
pub fn algorithm_order(i: usize) -> (a: HashAlgorithm)
    requires
        i < 4,
    ensures
        a == algorithm_at(i as int),
{
    if i == 0 {
        HashAlgorithm::MD5
    } else if i == 1 {
        HashAlgorithm::SHA1
    } else if i == 2 {
        HashAlgorithm::SHA256
    } else {
        HashAlgorithm::SHA512
    }
}

/// "  <algorithm>: <digest>" lines for the digests present among the
/// first `k` algorithms of the report order.
pub open spec fn hash_lines_upto(d: HashDigests, k: int) -> Seq<char>
    decreases k,
{
    if k <= 0 {
        Seq::empty()
    } else {
        let prev = hash_lines_upto(d, k - 1);
        match d.lookup(algorithm_at(k - 1)) {
            Some(h) => prev + "  "@ + algorithm_name(algorithm_at(k - 1)) + ": "@ + h + "\n"@,
            None => prev,
        }
    }
}

/// One "  <algorithm>: <digest>" line per digest present.
pub open spec fn hash_lines(d: HashDigests) -> Seq<char> {
    hash_lines_upto(d, 4)
}

/// Appends the hash lines of `d`.
pub fn push_hash_lines(s: &mut String, d: &HashDigests)
    ensures
        final(s)@ == old(s)@ + hash_lines(*d),
{
    let ghost start = old(s)@;
    let mut i: usize = 0;
    while i < 4
        invariant
            i <= 4,
            s@ == start + hash_lines_upto(*d, i as int),
        decreases 4 - i,
    {
        let a = algorithm_order(i);
        match d.get(a) {
            Some(h) => {
                push_str(s, "  ");
                let n = a.name();
                push_str(s, n.as_str());
                push_str(s, ": ");
                push_str(s, h.as_str());
                push_str(s, "\n");
            },
            None => {},
        }
        proof {
            assert(s@ =~= start + hash_lines_upto(*d, i + 1));
        }
        i += 1;
    }
}

/// The digest of `a` in an optional map of digests.
pub open spec fn lookup_in(d: Option<HashDigests>, a: HashAlgorithm) -> Option<Seq<char>> {
    match d {
        Some(m) => m.lookup(a),
        None => None,
    }
}

/// The pre-acquisition check of one stream digest, when a pre-acquisition
/// digest of the same algorithm exists.
pub open spec fn pre_check(pre: Option<Seq<char>>, stream: Seq<char>) -> Option<Seq<char>> {
    match pre {
        Some(p) => Some(if p == stream { "Pre-Hash: MATCHED"@ } else { "Pre-Hash: MISMATCH"@ }),
        None => None,
    }
}

/// The final-hash check of one stream digest: only for logical
/// acquisitions with a destination digest of the same algorithm.
pub open spec fn final_check(logical: bool, post: Option<Seq<char>>, stream: Seq<char>) -> Option<Seq<char>> {
    if logical {
        match post {
            Some(q) => Some(if q == stream { "Final-Hash: MATCHED"@ } else { "Final-Hash: MISMATCH"@ }),
            None => None,
        }
    } else {
        None
    }
}

/// Whether a stream digest agrees with every digest it is checked
/// against: the pre-acquisition one, and in logical mode the final one.
pub open spec fn digest_confirmed(pre: Option<Seq<char>>, post: Option<Seq<char>>, stream: Seq<char>, logical: bool) -> bool {
    &&& (pre matches Some(p) ==> p == stream)
    &&& (logical ==> (post matches Some(q) ==> q == stream))
}

/// The checks made, joined by " | ", or `default` when none was made.
pub open spec fn checks_text(c1: Option<Seq<char>>, c2: Option<Seq<char>>, default: Seq<char>) -> Seq<char> {
    match (c1, c2) {
        (Some(a), Some(b)) => a + " | "@ + b,
        (Some(a), None) => a,
        (None, Some(b)) => b,
        (None, None) => default,
    }
}

/// The verification log line of one algorithm.
pub open spec fn verdict_line(
    a: HashAlgorithm,
    stream: Seq<char>,
    pre: Option<Seq<char>>,
    post: Option<Seq<char>>,
    logical: bool,
) -> Seq<char> {
    let c1 = pre_check(pre, stream);
    let c2 = final_check(logical, post, stream);
    if digest_confirmed(pre, post, stream, logical) {
        "  "@ + algorithm_name(a) + ": MATCHED ("@ + checks_text(c1, c2, "Integrity Confirmed"@) + ")\n"@
    } else {
        "  "@ + algorithm_name(a) + ": MISMATCHED ("@ + checks_text(c1, c2, "WARNING: Integrity Compromised!"@)
            + ")\n"@
    }
}

/// Verification log lines for the stream digests among the first `k`
/// algorithms.
pub open spec fn verdict_lines_upto(
    hashes: HashDigests,
    pre: HashDigests,
    post: Option<HashDigests>,
    logical: bool,
    k: int,
) -> Seq<char>
    decreases k,
{
    if k <= 0 {
        Seq::empty()
    } else {
        let prev = verdict_lines_upto(hashes, pre, post, logical, k - 1);
        let a = algorithm_at(k - 1);
        match hashes.lookup(a) {
            Some(h) => prev + verdict_line(a, h, pre.lookup(a), lookup_in(post, a), logical),
            None => prev,
        }
    }
}

/// Whether every stream digest among the first `k` algorithms is confirmed.
pub open spec fn all_confirmed_upto(
    hashes: HashDigests,
    pre: HashDigests,
    post: Option<HashDigests>,
    logical: bool,
    k: int,
) -> bool
    decreases k,
{
    if k <= 0 {
        true
    } else {
        let a = algorithm_at(k - 1);
        all_confirmed_upto(hashes, pre, post, logical, k - 1) && match hashes.lookup(a) {
            Some(h) => digest_confirmed(pre.lookup(a), lookup_in(post, a), h, logical),
            None => true,
        }
    }
}

/// Whether the acquisition is verified: every stream digest agrees with
/// the pre-acquisition digest of its algorithm, and, for a logical
/// acquisition, with the final digest of its algorithm, where those exist.
pub open spec fn acquisition_verified(
    hashes: HashDigests,
    pre: HashDigests,
    post: Option<HashDigests>,
    logical: bool,
) -> bool {
    all_confirmed_upto(hashes, pre, post, logical, 4)
}

/// Whether a check made of one stream digest agrees, and its log line.
fn verdict(
    a: HashAlgorithm,
    stream: &String,
    pre: Option<&String>,
    post: Option<&String>,
    logical: bool,
) -> (r: (bool, String))
    ensures
        r.0 == digest_confirmed(opt_chars(pre), opt_chars(post), stream@, logical),
        r.1@ == verdict_line(a, stream@, opt_chars(pre), opt_chars(post), logical),
{
    let mut ok = true;
    let mut c1: Option<String> = None;
    let mut c2: Option<String> = None;
    if let Some(p) = pre {
        if str_eq(p.as_str(), stream.as_str()) {
            c1 = Some(pre_hash_matched());
        } else {
            c1 = Some(pre_hash_mismatch());
            ok = false;
        }
    }
    if logical {
        if let Some(q) = post {
            if str_eq(q.as_str(), stream.as_str()) {
                c2 = Some(final_hash_matched());
            } else {
                c2 = Some(final_hash_mismatch());
                ok = false;
            }
        }
    }
    let mut line = String::new();
    push_str(&mut line, "  ");
    let n = a.name();
    push_str(&mut line, n.as_str());
    if ok {
        push_str(&mut line, ": MATCHED (");
    } else {
        push_str(&mut line, ": MISMATCHED (");
    }
    match (&c1, &c2) {
        (Some(x), Some(y)) => {
            push_str(&mut line, x.as_str());
            push_str(&mut line, " | ");
            push_str(&mut line, y.as_str());
        },
        (Some(x), None) => push_str(&mut line, x.as_str()),
        (None, Some(y)) => push_str(&mut line, y.as_str()),
        (None, None) => {
            if ok {
                push_str(&mut line, "Integrity Confirmed");
            } else {
                push_str(&mut line, "WARNING: Integrity Compromised!");
            }
        },
    }
    push_str(&mut line, ")\n");
    proof {
        let cc1 = pre_check(opt_chars(pre), stream@);
        let cc2 = final_check(logical, opt_chars(post), stream@);
        assert(opt_chars_owned(c1) == cc1);
        assert(opt_chars_owned(c2) == cc2);
        assert(line@ =~= verdict_line(a, stream@, opt_chars(pre), opt_chars(post), logical));
    }
    (ok, line)
}

/// The characters of an optional borrowed string.
pub open spec fn opt_chars(o: Option<&String>) -> Option<Seq<char>> {
    match o {
        Some(s) => Some(s@),
        None => None,
    }
}

/// The characters of an optional string.
pub open spec fn opt_chars_owned(o: Option<String>) -> Option<Seq<char>> {
    match o {
        Some(s) => Some(s@),
        None => None,
    }
}

/// "Pre-Hash: MATCHED".
fn pre_hash_matched() -> (s: String)
    ensures
        s@ == "Pre-Hash: MATCHED"@,
{
    let mut s = String::new();
    push_str(&mut s, "Pre-Hash: MATCHED");
    s
}

/// "Pre-Hash: MISMATCH".
fn pre_hash_mismatch() -> (s: String)
    ensures
        s@ == "Pre-Hash: MISMATCH"@,
{
    let mut s = String::new();
    push_str(&mut s, "Pre-Hash: MISMATCH");
    s
}

/// "Final-Hash: MATCHED".
fn final_hash_matched() -> (s: String)
    ensures
        s@ == "Final-Hash: MATCHED"@,
{
    let mut s = String::new();
    push_str(&mut s, "Final-Hash: MATCHED");
    s
}

/// "Final-Hash: MISMATCH".
fn final_hash_mismatch() -> (s: String)
    ensures
        s@ == "Final-Hash: MISMATCH"@,
{
    let mut s = String::new();
    push_str(&mut s, "Final-Hash: MISMATCH");
    s
}

/// Appends the verification log lines and says whether every stream
/// digest is confirmed.
pub fn push_verdict_lines(
    s: &mut String,
    hashes: &HashDigests,
    pre: &HashDigests,
    post: &Option<HashDigests>,
    logical: bool,
) -> (verified: bool)
    ensures
        final(s)@ == old(s)@ + verdict_lines_upto(*hashes, *pre, *post, logical, 4),
        verified == acquisition_verified(*hashes, *pre, *post, logical),
{
    let ghost start = old(s)@;
    let mut verified = true;
    let mut i: usize = 0;
    while i < 4
        invariant
            i <= 4,
            s@ == start + verdict_lines_upto(*hashes, *pre, *post, logical, i as int),
            verified == all_confirmed_upto(*hashes, *pre, *post, logical, i as int),
        decreases 4 - i,
    {
        let a = algorithm_order(i);
        match hashes.get(a) {
            Some(h) => {
                let post_a = match post {
                    Some(m) => m.get(a),
                    None => None,
                };
                let (ok, line) = verdict(a, h, pre.get(a), post_a, logical);
                push_str(s, line.as_str());
                verified = verified && ok;
            },
            None => {},
        }
        proof {
            assert(s@ =~= start + verdict_lines_upto(*hashes, *pre, *post, logical, i + 1));
        }
        i += 1;
    }
    verified
}


// ---------------------------------------------------------------------
// The text report
// ---------------------------------------------------------------------

/// What a report is made from.
#[derive(Clone, Debug)]
pub struct ReportData {
    pub case_number: String,
    pub examiner: String,
    pub evidence_id: String,
    pub notes: String,
    pub imaging_mode: String,
    pub format: String,
    pub source_device: String,
    pub source_size: u64,
    pub source_model: String,
    pub source_serial: String,
    pub dest_file: String,
    pub start_time: Timestamp,
    pub end_time: Timestamp,
    pub bad_sectors: u64,
    pub pre_hashes: HashDigests,
    pub hashes: HashDigests,
    pub post_hashes: Option<HashDigests>,
    pub vss_snapshot_id: Option<String>,
    pub ram_dump_path: Option<String>,
    pub ram_dump_size: Option<u64>,
    pub ram_dump_hash: Option<String>,
    pub locked_files_copied: Vec<String>,
    pub consistency_blocks_checked: Option<u64>,
    pub consistency_blocks_matched: Option<u64>,
    pub consistency_mismatches: Vec<u64>,
    pub plugin_results: Vec<(String, String)>,
}

/// The report's figures printed with two decimals (gigabytes and a
/// percentage), rendered by the caller.
#[derive(Clone, Debug)]
pub struct ReportFigures {
    /// The source size in gigabytes (10^9 bytes).
    pub source_size_gb: String,
    /// The RAM dump size in gigabytes, printed when its size is known.
    pub ram_dump_size_gb: String,
    /// The share of consistent blocks, in percent, printed when blocks
    /// were checked.
    pub consistency_percent: String,
    /// The average speed in MiB per second (one decimal), substituted for
    /// the dashboard's speed placeholder.
    pub speed_mb: String,
}

/// A line: the text and a line feed.
pub open spec fn ln(t: Seq<char>) -> Seq<char> {
    t + "\n"@
}

/// The double rule of the text report.
pub open spec fn rule_line() -> Seq<char> {
    ln("=================================================="@)
}

/// The single rule between sections of the text report.
pub open spec fn dash_line() -> Seq<char> {
    ln("--------------------------------------------------"@)
}

/// Whether an acquisition is logical (a folder copy).
pub open spec fn is_logical(d: ReportData) -> bool {
    d.imaging_mode@ == "Logical"@
}

/// Whether the report has a verification log: pre-acquisition digests
/// exist, or a logical acquisition has final digests.
pub open spec fn has_verification_log(d: ReportData) -> bool {
    d.pre_hashes.count() > 0 || (is_logical(d) && d.post_hashes is Some)
}

/// Title and case details.
pub open spec fn txt_header(d: ReportData, now: Timestamp) -> Seq<char> {
    rule_line() + ln("              OPENFORENSIC REPORT                 "@) + rule_line()
        + ln("Case Number:     "@ + d.case_number@) + ln("Examiner:        "@ + d.examiner@)
        + ln("Evidence ID:     "@ + d.evidence_id@) + ln("Notes/Summary:   "@ + d.notes@)
        + ln("Report Date:     "@ + ist_rfc2822_text(now.secs, now.nanos))
}

/// Imaging parameters and source details.
pub open spec fn txt_source(d: ReportData, source_gb: Seq<char>) -> Seq<char> {
    dash_line() + ln("IMAGING PARAMETERS"@) + ln("  Mode:          "@ + d.imaging_mode@)
        + ln("  Target Format: "@ + d.format@) + dash_line() + ln("SOURCE DETAILS"@)
        + ln("  Device Path:   "@ + d.source_device@) + ln("  Model:         "@ + d.source_model@)
        + ln("  Serial Number: "@ + d.source_serial@) + ln(
        "  Total Size:    "@ + decimal(d.source_size as nat) + " bytes ("@ + source_gb + " GB)"@,
    )
}

/// Acquisition details: destination, times, duration and bad sectors.
pub open spec fn txt_acquisition(d: ReportData) -> Seq<char> {
    dash_line() + ln("ACQUISITION DETAILS"@) + ln("  Destination:   "@ + d.dest_file@) + ln(
        "  Start Time:    "@ + ist_rfc2822_text(d.start_time.secs, d.start_time.nanos),
    ) + ln("  End Time:      "@ + ist_rfc2822_text(d.end_time.secs, d.end_time.nanos)) + ln(
        "  Duration:      "@ + duration_text(whole_seconds_between(d.start_time, d.end_time)),
    ) + ln("  Bad Sectors:   "@ + decimal(d.bad_sectors as nat))
}

/// The digest listings: pre-acquisition (when any), stream, and
/// post-acquisition (when computed).
pub open spec fn txt_hashes(d: ReportData) -> Seq<char> {
    (if d.pre_hashes.count() > 0 {
        dash_line() + ln("PRE-ACQUISITION HASHES"@) + hash_lines(d.pre_hashes)
    } else {
        Seq::empty()
    }) + dash_line() + ln("ACQUISITION HASHES (STREAM VERIFICATION)"@) + hash_lines(d.hashes) + (match d.post_hashes {
        Some(post) => dash_line() + (if is_logical(d) {
            ln("FINAL HASHES (DESTINATION FOLDER HASH)"@)
        } else {
            ln("CONTAINER HASHES (POST-ACQUISITION FILE HASH)"@)
        }) + hash_lines(post),
        None => Seq::empty(),
    }) + dash_line()
}

/// Whether the report declares the acquisition verified.
pub open spec fn report_verified(d: ReportData) -> bool {
    if has_verification_log(d) {
        acquisition_verified(d.hashes, d.pre_hashes, d.post_hashes, is_logical(d))
    } else {
        true
    }
}

/// The verification log (when there is one) and the status line.
pub open spec fn txt_verification(d: ReportData) -> Seq<char> {
    (if has_verification_log(d) {
        ln("INTEGRITY VERIFICATION LOG"@) + verdict_lines_upto(
            d.hashes,
            d.pre_hashes,
            d.post_hashes,
            is_logical(d),
            4,
        ) + dash_line()
    } else {
        Seq::empty()
    }) + if report_verified(d) {
        ln("Acquisition Status: COMPLETED / VERIFIED"@)
    } else {
        ln("Acquisition Status: WARNING - HASH MISMATCH"@)
    }
}


/// Appends `t` and a line feed.
pub fn push_line(s: &mut String, t: &str)
    ensures
        final(s)@ == old(s)@ + ln(t@),
{
    push_str(s, t);
    push_str(s, "\n");
    proof {
        assert(final(s)@ =~= old(s)@ + ln(t@));
    }
}

/// Appends `label`, `value` and a line feed.
pub(crate) fn push_field(s: &mut String, label: &str, value: &str)
    ensures
        final(s)@ == old(s)@ + ln(label@ + value@),
{
    push_str(s, label);
    push_str(s, value);
    push_str(s, "\n");
    proof {
        assert(final(s)@ =~= old(s)@ + ln(label@ + value@));
    }
}

/// Appends the double rule.
pub(crate) fn push_rule(s: &mut String)
    ensures
        final(s)@ == old(s)@ + rule_line(),
{
    push_line(s, "==================================================");
}

/// Appends the single rule.
pub(crate) fn push_dash(s: &mut String)
    ensures
        final(s)@ == old(s)@ + dash_line(),
{
    push_line(s, "--------------------------------------------------");
}

/// Whether a map holds any digest.
pub(crate) fn has_any(d: &HashDigests) -> (b: bool)
    ensures
        b == (d.count() > 0),
{
    d.len() > 0
}

/// Whether the acquisition is logical.
fn logical_mode(d: &ReportData) -> (b: bool)
    ensures
        b == is_logical(*d),
{
    str_eq(d.imaging_mode.as_str(), "Logical")
}

/// Appends the title and case details.
fn push_txt_header(s: &mut String, d: &ReportData, now: Timestamp)
    requires
        now.printable(),
    ensures
        final(s)@ == old(s)@ + txt_header(*d, now),
{
    let ghost start = old(s)@;
    push_rule(s);
    push_line(s, "              OPENFORENSIC REPORT                 ");
    push_rule(s);
    push_field(s, "Case Number:     ", d.case_number.as_str());
    push_field(s, "Examiner:        ", d.examiner.as_str());
    push_field(s, "Evidence ID:     ", d.evidence_id.as_str());
    push_field(s, "Notes/Summary:   ", d.notes.as_str());
    let date = to_ist_rfc2822(now);
    push_field(s, "Report Date:     ", date.as_str());
    proof {
        assert(s@ =~= start + txt_header(*d, now));
    }
}

/// Appends the imaging parameters and source details.
fn push_txt_source(s: &mut String, d: &ReportData, source_gb: &str)
    ensures
        final(s)@ == old(s)@ + txt_source(*d, source_gb@),
{
    let ghost start = old(s)@;
    push_dash(s);
    push_line(s, "IMAGING PARAMETERS");
    push_field(s, "  Mode:          ", d.imaging_mode.as_str());
    push_field(s, "  Target Format: ", d.format.as_str());
    push_dash(s);
    push_line(s, "SOURCE DETAILS");
    push_field(s, "  Device Path:   ", d.source_device.as_str());
    push_field(s, "  Model:         ", d.source_model.as_str());
    push_field(s, "  Serial Number: ", d.source_serial.as_str());
    push_str(s, "  Total Size:    ");
    push_decimal(s, d.source_size);
    push_str(s, " bytes (");
    push_str(s, source_gb);
    push_str(s, " GB)");
    push_str(s, "\n");
    proof {
        assert(s@ =~= start + txt_source(*d, source_gb@));
    }
}

/// Appends the acquisition details.
fn push_txt_acquisition(s: &mut String, d: &ReportData)
    requires
        d.start_time.printable(),
        d.end_time.printable(),
    ensures
        final(s)@ == old(s)@ + txt_acquisition(*d),
{
    let ghost start = old(s)@;
    push_dash(s);
    push_line(s, "ACQUISITION DETAILS");
    push_field(s, "  Destination:   ", d.dest_file.as_str());
    let st = to_ist_rfc2822(d.start_time);
    push_field(s, "  Start Time:    ", st.as_str());
    let et = to_ist_rfc2822(d.end_time);
    push_field(s, "  End Time:      ", et.as_str());
    let dur = duration_string(d.start_time, d.end_time);
    push_field(s, "  Duration:      ", dur.as_str());
    push_str(s, "  Bad Sectors:   ");
    push_decimal(s, d.bad_sectors);
    push_str(s, "\n");
    proof {
        assert(s@ =~= start + txt_acquisition(*d));
    }
}

/// Appends the digest listings.
fn push_txt_hashes(s: &mut String, d: &ReportData)
    ensures
        final(s)@ == old(s)@ + txt_hashes(*d),
{
    let ghost start = old(s)@;
    if has_any(&d.pre_hashes) {
        push_dash(s);
        push_line(s, "PRE-ACQUISITION HASHES");
        push_hash_lines(s, &d.pre_hashes);
    }
    let ghost a = s@;
    push_dash(s);
    push_line(s, "ACQUISITION HASHES (STREAM VERIFICATION)");
    push_hash_lines(s, &d.hashes);
    let ghost b = s@;
    match &d.post_hashes {
        Some(post) => {
            push_dash(s);
            if logical_mode(d) {
                push_line(s, "FINAL HASHES (DESTINATION FOLDER HASH)");
            } else {
                push_line(s, "CONTAINER HASHES (POST-ACQUISITION FILE HASH)");
            }
            push_hash_lines(s, post);
        },
        None => {},
    }
    let ghost c = s@;
    push_dash(s);
    proof {
        assert(s@ =~= start + txt_hashes(*d));
    }
}

/// Appends the verification log and the status line; says whether the
/// acquisition is declared verified.
fn push_txt_verification(s: &mut String, d: &ReportData) -> (verified: bool)
    ensures
        final(s)@ == old(s)@ + txt_verification(*d),
        verified == report_verified(*d),
{
    let ghost start = old(s)@;
    let logical = logical_mode(d);
    let mut verified = true;
    if has_any(&d.pre_hashes) || (logical && d.post_hashes.is_some()) {
        push_line(s, "INTEGRITY VERIFICATION LOG");
        verified = push_verdict_lines(s, &d.hashes, &d.pre_hashes, &d.post_hashes, logical);
        push_dash(s);
    }
    if verified {
        push_line(s, "Acquisition Status: COMPLETED / VERIFIED");
    } else {
        push_line(s, "Acquisition Status: WARNING - HASH MISMATCH");
    }
    proof {
        assert(s@ =~= start + txt_verification(*d));
    }
    verified
}


/// Upper-case hexadecimal rendering of a natural number without leading
/// zeros; what `{:X}` prints.
pub open spec fn hex_upper_digits(n: nat) -> Seq<char>
    decreases n,
{
    if n < 16 {
        seq![hex_digit_upper(n)]
    } else {
        hex_upper_digits(n / 16).push(hex_digit_upper(n % 16))
    }
}

/// Appends `n` in upper-case hexadecimal.
pub fn push_hex_upper(s: &mut String, n: u64)
    ensures
        final(s)@ == old(s)@ + hex_upper_digits(n as nat),
    decreases n,
{
    if n >= 16 {
        push_hex_upper(s, n / 16);
    }
    push_char(s, hex_char_upper((n % 16) as u8));
    proof {
        if n >= 16 {
            assert(hex_upper_digits(n as nat) == hex_upper_digits((n / 16) as nat).push(
                hex_digit_upper((n % 16) as nat),
            ));
        } else {
            assert(hex_upper_digits(n as nat) =~= seq![hex_digit_upper(n as nat)]);
        }
        assert(final(s)@ =~= old(s)@ + hex_upper_digits(n as nat));
    }
}

/// "  ✓ <file>" lines for the first `k` files.
pub open spec fn locked_lines(files: Seq<String>, k: int) -> Seq<char>
    decreases k,
{
    if k <= 0 {
        Seq::empty()
    } else {
        locked_lines(files, k - 1) + ln("  ✓ "@ + files[k - 1]@)
    }
}

/// "    Offset: 0x<hex>" lines for the first `k` offsets.
pub open spec fn offset_lines(offsets: Seq<u64>, k: int) -> Seq<char>
    decreases k,
{
    if k <= 0 {
        Seq::empty()
    } else {
        offset_lines(offsets, k - 1) + ln("    Offset: 0x"@ + hex_upper_digits(offsets[k - 1] as nat))
    }
}

/// "  <key>: <value>" lines for the first `k` results.
pub open spec fn result_lines(results: Seq<(String, String)>, k: int) -> Seq<char>
    decreases k,
{
    if k <= 0 {
        Seq::empty()
    } else {
        result_lines(results, k - 1) + ln("  "@ + results[k - 1].0@ + ": "@ + results[k - 1].1@)
    }
}

/// Blocks that did not match, of those checked.
pub open spec fn mismatched_blocks(checked: u64, matched: Option<u64>) -> nat {
    let m = match matched {
        Some(m) => m,
        None => 0,
    };
    if checked >= m {
        (checked - m) as nat
    } else {
        0
    }
}

/// Number of differing offsets listed: at most 20.
pub open spec fn listed_offsets(offsets: Seq<u64>) -> int {
    if offsets.len() < 20 {
        offsets.len() as int
    } else {
        20
    }
}

/// Counts and share of the consistency section.
pub open spec fn consistency_counts(checked: u64, matched: u64, mm: nat, percent: Seq<char>) -> Seq<char> {
    dash_line() + ln("FILESYSTEM CONSISTENCY VALIDATION"@) + ln("  Blocks Checked:  "@ + decimal(checked as nat))
        + ln("  Blocks Matched:  "@ + decimal(matched as nat)) + ln("  Blocks Mismatch: "@ + decimal(mm)) + ln(
        "  Consistency:     "@ + percent + "%"@,
    )
}

/// Status of the consistency section, with at most 20 differing offsets.
pub open spec fn consistency_status(mm: nat, offsets: Seq<u64>) -> Seq<char> {
    if mm == 0 {
        ln("  Status:          PASSED"@)
    } else {
        ln("  Status:          FAILED — "@ + decimal(mm) + " blocks differ"@) + offset_lines(
            offsets,
            listed_offsets(offsets),
        )
    }
}

/// The file-system consistency section (when blocks were checked): the
/// counts, the share, the status and at most 20 differing offsets.
pub open spec fn txt_consistency(d: ReportData, percent: Seq<char>) -> Seq<char> {
    match d.consistency_blocks_checked {
        Some(checked) => {
            let matched = match d.consistency_blocks_matched {
                Some(m) => m,
                None => 0,
            };
            let mm = mismatched_blocks(checked, d.consistency_blocks_matched);
            consistency_counts(checked, matched, mm, percent) + consistency_status(mm, d.consistency_mismatches@)
        },
        None => Seq::empty(),
    }
}

/// Whether the report has a live-acquisition section.
pub open spec fn has_live_section(d: ReportData) -> bool {
    d.vss_snapshot_id is Some || d.ram_dump_path is Some || d.locked_files_copied@.len() > 0
}

/// The shadow-copy part of the live section.
pub open spec fn live_vss(d: ReportData) -> Seq<char> {
    match d.vss_snapshot_id {
        Some(id) => dash_line() + ln("VSS SNAPSHOT"@) + ln("  Shadow Copy ID: "@ + id@),
        None => Seq::empty(),
    }
}

/// The RAM-dump part of the live section.
pub open spec fn live_ram(d: ReportData, ram_gb: Seq<char>) -> Seq<char> {
    match d.ram_dump_path {
        Some(p) => dash_line() + ln("RAM ACQUISITION"@) + ln("  Dump Path:      "@ + p@) + (match d.ram_dump_size {
            Some(z) => ln("  Dump Size:      "@ + decimal(z as nat) + " bytes ("@ + ram_gb + " GB)"@),
            None => Seq::empty(),
        }) + (match d.ram_dump_hash {
            Some(h) => ln("  Dump Hash:      "@ + h@),
            None => Seq::empty(),
        }),
        None => Seq::empty(),
    }
}

/// The locked-files part of the live section.
pub open spec fn live_locked(d: ReportData) -> Seq<char> {
    if d.locked_files_copied@.len() > 0 {
        dash_line() + ln("LOCKED FILES ACQUIRED"@) + locked_lines(
            d.locked_files_copied@,
            d.locked_files_copied@.len() as int,
        )
    } else {
        Seq::empty()
    }
}

/// The live-acquisition section: shadow copy, RAM dump, locked files and
/// consistency validation, each when present.
pub open spec fn txt_live(d: ReportData, fig: ReportFigures) -> Seq<char> {
    if has_live_section(d) {
        ln(""@) + rule_line() + ln("          LIVE ACQUISITION DETAILS                "@) + rule_line()
            + live_vss(d) + live_ram(d, fig.ram_dump_size_gb@) + live_locked(d) + txt_consistency(
            d,
            fig.consistency_percent@,
        )
    } else {
        Seq::empty()
    }
}

/// The plugin results (when any).
pub open spec fn txt_plugins(d: ReportData) -> Seq<char> {
    if d.plugin_results@.len() > 0 {
        ln("\n--- Plugin Results & Custom Hashes ---"@) + result_lines(
            d.plugin_results@,
            d.plugin_results@.len() as int,
        )
    } else {
        Seq::empty()
    }
}

/// The text report, printed at `now`.
pub open spec fn txt_report(d: ReportData, now: Timestamp, fig: ReportFigures) -> Seq<char> {
    txt_header(d, now) + txt_source(d, fig.source_size_gb@) + txt_acquisition(d) + txt_hashes(d)
        + txt_verification(d) + txt_live(d, fig) + txt_plugins(d) + rule_line()
}

/// Appends the counts and share of the consistency section.
fn push_consistency_counts(s: &mut String, checked: u64, matched: u64, mm: u64, percent: &str)
    ensures
        final(s)@ == old(s)@ + consistency_counts(checked, matched, mm as nat, percent@),
{
    let ghost start = old(s)@;
    push_dash(s);
    push_line(s, "FILESYSTEM CONSISTENCY VALIDATION");
    let ghost a = s@;
    push_str(s, "  Blocks Checked:  ");
    push_decimal(s, checked);
    push_str(s, "\n");
    let ghost b = s@;
    push_str(s, "  Blocks Matched:  ");
    push_decimal(s, matched);
    push_str(s, "\n");
    let ghost c = s@;
    push_str(s, "  Blocks Mismatch: ");
    push_decimal(s, mm);
    push_str(s, "\n");
    let ghost e = s@;
    push_str(s, "  Consistency:     ");
    push_str(s, percent);
    push_str(s, "%");
    push_str(s, "\n");
    proof {
        assert(b =~= a + ln("  Blocks Checked:  "@ + decimal(checked as nat)));
        assert(c =~= b + ln("  Blocks Matched:  "@ + decimal(matched as nat)));
        assert(e =~= c + ln("  Blocks Mismatch: "@ + decimal(mm as nat)));
        assert(s@ =~= e + ln("  Consistency:     "@ + percent@ + "%"@));
        assert(s@ =~= start + consistency_counts(checked, matched, mm as nat, percent@));
    }
}

/// Appends the status of the consistency section.
fn push_consistency_status(s: &mut String, mm: u64, offsets: &Vec<u64>)
    ensures
        final(s)@ == old(s)@ + consistency_status(mm as nat, offsets@),
{
    let ghost start = old(s)@;
    if mm == 0 {
        push_line(s, "  Status:          PASSED");
    } else {
        push_str(s, "  Status:          FAILED — ");
        push_decimal(s, mm);
        push_str(s, " blocks differ");
        push_str(s, "\n");
        let ghost before = s@;
        proof {
            assert(before =~= start + ln("  Status:          FAILED — "@ + decimal(mm as nat) + " blocks differ"@));
        }
        let n = if offsets.len() < 20 { offsets.len() } else { 20 };
        let mut i: usize = 0;
        while i < n
            invariant
                i <= n,
                n <= offsets@.len(),
                s@ == before + offset_lines(offsets@, i as int),
            decreases n - i,
        {
            push_str(s, "    Offset: 0x");
            push_hex_upper(s, offsets[i]);
            push_str(s, "\n");
            proof {
                assert(s@ =~= before + offset_lines(offsets@, i + 1));
            }
            i += 1;
        }
    }
}

/// Appends the consistency section.
fn push_txt_consistency(s: &mut String, d: &ReportData, percent: &str)
    ensures
        final(s)@ == old(s)@ + txt_consistency(*d, percent@),
{
    let ghost start = old(s)@;
    match d.consistency_blocks_checked {
        Some(checked) => {
            let matched = match d.consistency_blocks_matched {
                Some(m) => m,
                None => 0,
            };
            let mm = checked.saturating_sub(matched);
            push_consistency_counts(s, checked, matched, mm, percent);
            push_consistency_status(s, mm, &d.consistency_mismatches);
            proof {
                assert(s@ =~= start + txt_consistency(*d, percent@));
            }
        },
        None => {
            proof {
                assert(s@ =~= start + txt_consistency(*d, percent@));
            }
        },
    }
}

/// Appends the shadow-copy part of the live section.
fn push_live_vss(s: &mut String, d: &ReportData)
    ensures
        final(s)@ == old(s)@ + live_vss(*d),
{
    let ghost start = old(s)@;
    match &d.vss_snapshot_id {
        Some(id) => {
            push_dash(s);
            push_line(s, "VSS SNAPSHOT");
            push_field(s, "  Shadow Copy ID: ", id.as_str());
        },
        None => {},
    }
    proof {
        assert(s@ =~= start + live_vss(*d));
    }
}

/// Appends the RAM-dump part of the live section.
fn push_live_ram(s: &mut String, d: &ReportData, ram_gb: &str)
    ensures
        final(s)@ == old(s)@ + live_ram(*d, ram_gb@),
{
    let ghost start = old(s)@;
    match &d.ram_dump_path {
        Some(p) => {
            push_dash(s);
            push_line(s, "RAM ACQUISITION");
            push_field(s, "  Dump Path:      ", p.as_str());
            let ghost a = s@;
            match d.ram_dump_size {
                Some(z) => {
                    push_str(s, "  Dump Size:      ");
                    push_decimal(s, z);
                    push_str(s, " bytes (");
                    push_str(s, ram_gb);
                    push_str(s, " GB)");
                    push_str(s, "\n");
                },
                None => {},
            }
            let ghost b = s@;
            match &d.ram_dump_hash {
                Some(h) => push_field(s, "  Dump Hash:      ", h.as_str()),
                None => {},
            }
            proof {
                assert(s@ =~= start + live_ram(*d, ram_gb@));
            }
        },
        None => {
            proof {
                assert(s@ =~= start + live_ram(*d, ram_gb@));
            }
        },
    }
}

/// Appends the locked-files part of the live section.
fn push_live_locked(s: &mut String, d: &ReportData)
    ensures
        final(s)@ == old(s)@ + live_locked(*d),
{
    let ghost start = old(s)@;
    if d.locked_files_copied.len() > 0 {
        push_dash(s);
        push_line(s, "LOCKED FILES ACQUIRED");
        let ghost before = s@;
        let mut i: usize = 0;
        while i < d.locked_files_copied.len()
            invariant
                i <= d.locked_files_copied@.len(),
                s@ == before + locked_lines(d.locked_files_copied@, i as int),
            decreases d.locked_files_copied@.len() - i,
        {
            push_field(s, "  ✓ ", d.locked_files_copied[i].as_str());
            proof {
                assert(s@ =~= before + locked_lines(d.locked_files_copied@, i + 1));
            }
            i += 1;
        }
    }
    proof {
        assert(s@ =~= start + live_locked(*d));
    }
}

/// Appends the live-acquisition section.
#[verifier::rlimit(40)]
fn push_txt_live(s: &mut String, d: &ReportData, fig: &ReportFigures)
    ensures
        final(s)@ == old(s)@ + txt_live(*d, *fig),
{
    let ghost start = old(s)@;
    if d.vss_snapshot_id.is_some() || d.ram_dump_path.is_some() || d.locked_files_copied.len() > 0 {
        push_line(s, "");
        push_rule(s);
        push_line(s, "          LIVE ACQUISITION DETAILS                ");
        push_rule(s);
        let ghost a = s@;
        push_live_vss(s, d);
        let ghost b = s@;
        push_live_ram(s, d, fig.ram_dump_size_gb.as_str());
        let ghost c = s@;
        push_live_locked(s, d);
        let ghost e = s@;
        push_txt_consistency(s, d, fig.consistency_percent.as_str());
        proof {
            let head = ln(""@) + rule_line() + ln("          LIVE ACQUISITION DETAILS                "@) + rule_line();
            assert(a =~= start + head);
            assert(s@ =~= start + head + live_vss(*d) + live_ram(*d, fig.ram_dump_size_gb@) + live_locked(*d)
                + txt_consistency(*d, fig.consistency_percent@));
        }
    } else {
        proof {
            assert(s@ =~= start + txt_live(*d, *fig));
        }
    }
}

/// Appends the plugin results.
fn push_txt_plugins(s: &mut String, d: &ReportData)
    ensures
        final(s)@ == old(s)@ + txt_plugins(*d),
{
    let ghost start = old(s)@;
    if d.plugin_results.len() > 0 {
        push_line(s, "\n--- Plugin Results & Custom Hashes ---");
        let ghost before = s@;
        let mut i: usize = 0;
        while i < d.plugin_results.len()
            invariant
                i <= d.plugin_results@.len(),
                s@ == before + result_lines(d.plugin_results@, i as int),
            decreases d.plugin_results@.len() - i,
        {
            let (k, v) = &d.plugin_results[i];
            push_str(s, "  ");
            push_str(s, k.as_str());
            push_str(s, ": ");
            push_str(s, v.as_str());
            push_str(s, "\n");
            proof {
                assert(s@ =~= before + result_lines(d.plugin_results@, i + 1));
            }
            i += 1;
        }
        proof {
            assert(s@ =~= start + txt_plugins(*d));
        }
    } else {
        proof {
            assert(s@ =~= start + txt_plugins(*d));
        }
    }
}

/// The text report of an acquisition, printed at `now`; `fig` holds the
/// two-decimal figures it prints.
pub fn generate_txt_report(data: &ReportData, now: Timestamp, fig: &ReportFigures) -> (s: String)
    requires
        now.printable(),
        data.start_time.printable(),
        data.end_time.printable(),
    ensures
        s@ == txt_report(*data, now, *fig),
{
    let mut s = String::new();
    push_txt_header(&mut s, data, now);
    push_txt_source(&mut s, data, fig.source_size_gb.as_str());
    push_txt_acquisition(&mut s, data);
    push_txt_hashes(&mut s, data);
    let _verified = push_txt_verification(&mut s, data);
    push_txt_live(&mut s, data, fig);
    push_txt_plugins(&mut s, data);
    push_rule(&mut s);
    proof {
        assert(s@ =~= txt_report(*data, now, *fig));
    }
    s
}


/// Without pre-acquisition digests and final digests to compare with,
/// every stream digest among the first `k` is confirmed.
proof fn lemma_nothing_to_check(d: ReportData, k: int)
    requires
        !has_verification_log(d),
    ensures
        all_confirmed_upto(d.hashes, d.pre_hashes, d.post_hashes, is_logical(d), k),
    decreases k,
{
    if k > 0 {
        lemma_nothing_to_check(d, k - 1);
        let a = algorithm_at(k - 1);
        assert(d.pre_hashes.lookup(a) is None);
    }
}

/// The status line of a text report declares the acquisition verified
/// exactly when every stream digest agrees with the pre-acquisition digest
/// of its algorithm and, for a logical acquisition, with the final digest
/// of its algorithm, wherever those exist.
pub proof fn lemma_report_status(d: ReportData)
    ensures
        report_verified(d) == acquisition_verified(d.hashes, d.pre_hashes, d.post_hashes, is_logical(d)),
{
    if !has_verification_log(d) {
        lemma_nothing_to_check(d, 4);
    }
}

/// Whether every digest of `m` is the digest of `data` under its algorithm.
pub open spec fn digests_of_bytes(m: HashDigests, data: Seq<u8>) -> bool {
    forall|a: HashAlgorithm| #[trigger] m.lookup(a) matches Some(h) ==> h == hex_digest_of(a, data)
}

/// Digests all taken of the same bytes confirm one another.
proof fn lemma_same_bytes_confirmed(d: ReportData, data: Seq<u8>, k: int)
    requires
        digests_of_bytes(d.pre_hashes, data),
        digests_of_bytes(d.hashes, data),
        d.post_hashes matches Some(p) ==> digests_of_bytes(p, data),
    ensures
        all_confirmed_upto(d.hashes, d.pre_hashes, d.post_hashes, is_logical(d), k),
    decreases k,
{
    if k > 0 {
        lemma_same_bytes_confirmed(d, data, k - 1);
        let a = algorithm_at(k - 1);
        assert(d.hashes.lookup(a) matches Some(h) ==> h == hex_digest_of(a, data));
        assert(d.pre_hashes.lookup(a) matches Some(h) ==> h == hex_digest_of(a, data));
        match d.post_hashes {
            Some(p) => {
                assert(p.lookup(a) matches Some(h) ==> h == hex_digest_of(a, data));
            },
            None => {},
        }
    }
}

/// When the source reads back the same bytes before, during and (for a
/// folder copy) after the acquisition, the report declares the
/// acquisition verified: every digest it compares is the digest of those
/// bytes under its algorithm.
pub proof fn lemma_same_bytes_verified(d: ReportData, data: Seq<u8>)
    requires
        digests_of_bytes(d.pre_hashes, data),
        digests_of_bytes(d.hashes, data),
        d.post_hashes matches Some(p) ==> digests_of_bytes(p, data),
    ensures
        report_verified(d),
{
    lemma_report_status(d);
    lemma_same_bytes_confirmed(d, data, 4);
}


// ---------------------------------------------------------------------
// The CSV event log
// ---------------------------------------------------------------------

/// One event line of the CSV report: the quoted time, event and details.
pub open spec fn csv_line(time: Seq<char>, event: Seq<char>, details: Seq<char>) -> Seq<char> {
    "\""@ + time + "\",\""@ + event + "\",\""@ + details + "\"\n"@
}

/// One line per digest present among the first `k` algorithms, all at `time`.
pub open spec fn csv_hash_lines_upto(d: HashDigests, time: Seq<char>, event: Seq<char>, k: int) -> Seq<char>
    decreases k,
{
    if k <= 0 {
        Seq::empty()
    } else {
        let a = algorithm_at(k - 1);
        csv_hash_lines_upto(d, time, event, k - 1) + match d.lookup(a) {
            Some(h) => csv_line(time, event, algorithm_name(a) + ": "@ + h),
            None => Seq::empty(),
        }
    }
}

/// The CSV event log: start, finish, the stream digests (at the end
/// time) and the post-acquisition digests (at `now`).
pub open spec fn csv_report(d: ReportData, now: Timestamp) -> Seq<char> {
    let end = ist_rfc2822_text(d.end_time.secs, d.end_time.nanos);
    "Timestamp,Event,Details\n"@ + csv_line(
        ist_rfc2822_text(d.start_time.secs, d.start_time.nanos),
        "Acquisition Started"@,
        "Source: "@ + d.source_device@,
    ) + csv_line(end, "Acquisition Finished"@, "Destination: "@ + d.dest_file@) + csv_hash_lines_upto(
        d.hashes,
        end,
        "Acquisition Hash Computed"@,
        4,
    ) + match d.post_hashes {
        Some(post) => csv_hash_lines_upto(
            post,
            ist_rfc2822_text(now.secs, now.nanos),
            "File Hash Computed"@,
            4,
        ),
        None => Seq::empty(),
    }
}

/// Appends one CSV event line.
fn push_csv_line(s: &mut String, time: &str, event: &str, details_head: &str, details_tail: &str)
    ensures
        final(s)@ == old(s)@ + csv_line(time@, event@, details_head@ + details_tail@),
{
    let ghost start = old(s)@;
    push_str(s, "\"");
    push_str(s, time);
    push_str(s, "\",\"");
    push_str(s, event);
    push_str(s, "\",\"");
    push_str(s, details_head);
    push_str(s, details_tail);
    push_str(s, "\"\n");
    proof {
        assert(s@ =~= start + csv_line(time@, event@, details_head@ + details_tail@));
    }
}

/// Appends one CSV line per digest of `d`.
fn push_csv_hashes(s: &mut String, d: &HashDigests, time: &str, event: &str)
    ensures
        final(s)@ == old(s)@ + csv_hash_lines_upto(*d, time@, event@, 4),
{
    let ghost start = old(s)@;
    let mut i: usize = 0;
    while i < 4
        invariant
            i <= 4,
            s@ == start + csv_hash_lines_upto(*d, time@, event@, i as int),
        decreases 4 - i,
    {
        let a = algorithm_order(i);
        match d.get(a) {
            Some(h) => {
                let mut details = a.name();
                push_str(&mut details, ": ");
                push_csv_line(s, time, event, details.as_str(), h.as_str());
            },
            None => {},
        }
        proof {
            assert(s@ =~= start + csv_hash_lines_upto(*d, time@, event@, i + 1));
        }
        i += 1;
    }
}

/// The CSV event log of an acquisition, written at `now`.
pub fn generate_csv_report(data: &ReportData, now: Timestamp) -> (s: String)
    requires
        now.printable(),
        data.start_time.printable(),
        data.end_time.printable(),
    ensures
        s@ == csv_report(*data, now),
{
    let mut s = String::new();
    push_str(&mut s, "Timestamp,Event,Details\n");
    let start = to_ist_rfc2822(data.start_time);
    let end = to_ist_rfc2822(data.end_time);
    push_csv_line(&mut s, start.as_str(), "Acquisition Started", "Source: ", data.source_device.as_str());
    push_csv_line(&mut s, end.as_str(), "Acquisition Finished", "Destination: ", data.dest_file.as_str());
    push_csv_hashes(&mut s, &data.hashes, end.as_str(), "Acquisition Hash Computed");
    let ghost mid = s@;
    match &data.post_hashes {
        Some(post) => {
            let t = to_ist_rfc2822(now);
            push_csv_hashes(&mut s, post, t.as_str(), "File Hash Computed");
        },
        None => {},
    }
    proof {
        assert(s@ =~= csv_report(*data, now));
    }
    s
}

/// The seal written beside a signed report.
pub open spec fn seal_text(signature: Seq<char>, now: Timestamp) -> Seq<char> {
    "=== FORGELENS FORENSIC SEAL ===\nSignature: "@ + signature + "\nWorkstation ID: "@
        + crate::hasher::WORKSTATION_ID@ + "\nTimestamp: "@ + utc_rfc2822_text(now.secs, now.nanos) + "\n"@
}

/// The seal of a report signed with `signature` at `now`.
pub fn signature_seal(signature: &str, now: Timestamp) -> (s: String)
    requires
        now.printable(),
    ensures
        s@ == seal_text(signature@, now),
{
    let mut s = String::new();
    push_str(&mut s, "=== FORGELENS FORENSIC SEAL ===\nSignature: ");
    push_str(&mut s, signature);
    push_str(&mut s, "\nWorkstation ID: ");
    push_str(&mut s, crate::hasher::WORKSTATION_ID);
    push_str(&mut s, "\nTimestamp: ");
    let t = to_utc_rfc2822(now);
    push_str(&mut s, t.as_str());
    push_str(&mut s, "\n");
    proof {
        assert(s@ =~= seal_text(signature@, now));
    }
    s
}

} // verus!
