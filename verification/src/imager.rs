//! The report of the desktop disk imager: a plainer text report than the
//! workstation's, with dates in UTC and one integrity check per digest
//! that was taken both before and during the acquisition.

use vstd::prelude::*;
use crate::hasher::{HashDigests, algorithm_name, hex_digest_of};
use crate::text::{decimal, push_str, push_decimal, str_eq};
use crate::report::{
    Timestamp, utc_rfc2822_text, to_utc_rfc2822, duration_text, whole_seconds_between, duration_string,
    algorithm_at, algorithm_order, hash_lines, push_hash_lines, ln, rule_line, dash_line, push_field, push_rule,
    push_dash, push_line, has_any, digests_of_bytes,
};

verus! {

/// What the imager's report is made from.
#[derive(Clone, Debug)]
pub struct ReportData {
    pub case_number: String,
    pub examiner: String,
    pub evidence_id: String,
    pub notes: String,
    pub imaging_mode: String,
    pub format: String,
    pub source_device: String,
    pub source_size: u64,
    pub source_model: String,
    pub source_serial: String,
    pub dest_file: String,
    pub start_time: Timestamp,
    pub end_time: Timestamp,
    pub bad_sectors: u64,
    pub pre_hashes: HashDigests,
    pub hashes: HashDigests,
}

/// The check line of one algorithm, when both digests exist.
pub open spec fn check_line(d: ReportData, i: int) -> Seq<char> {
    let a = algorithm_at(i);
    match (d.hashes.lookup(a), d.pre_hashes.lookup(a)) {
        (Some(post), Some(pre)) => if pre == post {
            ln("  "@ + algorithm_name(a) + ": MATCHED (Integrity Confirmed)"@)
        } else {
            ln("  "@ + algorithm_name(a) + ": MISMATCHED (WARNING: Integrity Compromised!)"@)
        },
        _ => Seq::empty(),
    }
}

/// The check lines of the first `k` algorithms of the report order.
pub open spec fn check_lines_upto(d: ReportData, k: int) -> Seq<char>
    decreases k,
{
    if k <= 0 {
        Seq::empty()
    } else {
        check_lines_upto(d, k - 1) + check_line(d, k - 1)
    }
}

/// Whether the digest of the `i`-th algorithm, where it was taken both
/// before and during the acquisition, is the same both times.
pub open spec fn agrees_at(d: ReportData, i: int) -> bool {
    match (d.hashes.lookup(algorithm_at(i)), d.pre_hashes.lookup(algorithm_at(i))) {
        (Some(post), Some(pre)) => pre == post,
        _ => true,
    }
}

/// Whether no digest of the first `k` algorithms differs from its
/// pre-acquisition digest.
pub open spec fn none_mismatched_upto(d: ReportData, k: int) -> bool
    decreases k,
{
    if k <= 0 {
        true
    } else {
        none_mismatched_upto(d, k - 1) && agrees_at(d, k - 1)
    }
}

/// Whether the report declares the image verified: no digest differs
/// from its pre-acquisition digest (trivially so without any).
pub open spec fn imager_verified(d: ReportData) -> bool {
    d.pre_hashes.count() == 0 || none_mismatched_upto(d, 4)
}

/// Title and case details.
pub open spec fn imager_case(d: ReportData, now: Timestamp) -> Seq<char> {
    rule_line() + ln("          FORGELENS DISK IMAGER REPORT            "@) + rule_line()
        + ln("Case Number:     "@ + d.case_number@) + ln("Examiner:        "@ + d.examiner@)
        + ln("Evidence ID:     "@ + d.evidence_id@) + ln("Notes/Summary:   "@ + d.notes@)
        + ln("Report Date:     "@ + utc_rfc2822_text(now.secs, now.nanos))
}

/// Imaging parameters and source details.
pub open spec fn imager_source(d: ReportData, source_gb: Seq<char>) -> Seq<char> {
    dash_line() + ln("IMAGING PARAMETERS"@) + ln("  Mode:          "@ + d.imaging_mode@)
        + ln("  Target Format: "@ + d.format@) + dash_line() + ln("SOURCE DETAILS"@)
        + ln("  Device Path:   "@ + d.source_device@) + ln("  Model:         "@ + d.source_model@)
        + ln("  Serial Number: "@ + d.source_serial@) + ln(
        "  Total Size:    "@ + decimal(d.source_size as nat) + " bytes ("@ + source_gb + " GB)"@,
    )
}

/// Title, case details, imaging parameters and source details.
pub open spec fn imager_head(d: ReportData, now: Timestamp, source_gb: Seq<char>) -> Seq<char> {
    imager_case(d, now) + imager_source(d, source_gb)
}

/// Destination, times, duration and bad sectors.
pub open spec fn imager_acquisition(d: ReportData) -> Seq<char> {
    dash_line() + ln("ACQUISITION DETAILS"@) + ln("  Destination:   "@ + d.dest_file@) + ln(
        "  Start Time:    "@ + utc_rfc2822_text(d.start_time.secs, d.start_time.nanos),
    ) + ln("  End Time:      "@ + utc_rfc2822_text(d.end_time.secs, d.end_time.nanos)) + ln(
        "  Duration:      "@ + duration_text(whole_seconds_between(d.start_time, d.end_time)),
    ) + ln("  Bad Sectors:   "@ + decimal(d.bad_sectors as nat))
}

/// The digest listings, the checks and the status.
pub open spec fn imager_hashes(d: ReportData) -> Seq<char> {
    (if d.pre_hashes.count() > 0 {
        dash_line() + ln("PRE-ACQUISITION HASHES"@) + hash_lines(d.pre_hashes)
    } else {
        Seq::empty()
    }) + dash_line() + ln("VERIFICATION HASHES (POST-ACQUISITION)"@) + hash_lines(d.hashes) + dash_line() + (
    if d.pre_hashes.count() > 0 {
        ln("INTEGRITY VERIFICATION LOG"@) + check_lines_upto(d, 4) + dash_line()
    } else {
        Seq::empty()
    }) + (if imager_verified(d) {
        ln("Acquisition Status: COMPLETED / VERIFIED"@)
    } else {
        ln("Acquisition Status: WARNING - HASH MISMATCH"@)
    }) + rule_line()
}

/// The whole report.
pub open spec fn imager_report(d: ReportData, now: Timestamp, source_gb: Seq<char>) -> Seq<char> {
    imager_head(d, now, source_gb) + imager_acquisition(d) + imager_hashes(d)
}

/// Appends the check lines; says whether no digest differs.
fn push_checks(s: &mut String, d: &ReportData) -> (ok: bool)
    ensures
        final(s)@ == old(s)@ + check_lines_upto(*d, 4),
        ok == none_mismatched_upto(*d, 4),
{
    let ghost start = old(s)@;
    let mut ok = true;
    let mut i: usize = 0;
    while i < 4
        invariant
            i <= 4,
            s@ == start + check_lines_upto(*d, i as int),
            ok == none_mismatched_upto(*d, i as int),
        decreases 4 - i,
    {
        let a = algorithm_order(i);
        match (d.hashes.get(a), d.pre_hashes.get(a)) {
            (Some(post), Some(pre)) => {
                let n = a.name();
                push_str(s, "  ");
                push_str(s, n.as_str());
                if str_eq(pre.as_str(), post.as_str()) {
                    push_str(s, ": MATCHED (Integrity Confirmed)");
                } else {
                    push_str(s, ": MISMATCHED (WARNING: Integrity Compromised!)");
                    ok = false;
                }
                push_str(s, "\n");
            },
            _ => {},
        }
        proof {
            assert(s@ =~= start + check_lines_upto(*d, i + 1));
        }
        i += 1;
    }
    ok
}

/// Appends the title and case details.
fn push_case(s: &mut String, d: &ReportData, now: Timestamp)
    requires
        now.printable(),
    ensures
        final(s)@ == old(s)@ + imager_case(*d, now),
{
    let ghost start = old(s)@;
    push_rule(s);
    push_line(s, "          FORGELENS DISK IMAGER REPORT            ");
    push_rule(s);
    push_field(s, "Case Number:     ", d.case_number.as_str());
    push_field(s, "Examiner:        ", d.examiner.as_str());
    push_field(s, "Evidence ID:     ", d.evidence_id.as_str());
    push_field(s, "Notes/Summary:   ", d.notes.as_str());
    let date = to_utc_rfc2822(now);
    push_field(s, "Report Date:     ", date.as_str());
    proof {
        assert(s@ =~= start + imager_case(*d, now));
    }
}

/// Appends the imaging parameters and source details.
fn push_source(s: &mut String, d: &ReportData, source_gb: &str)
    ensures
        final(s)@ == old(s)@ + imager_source(*d, source_gb@),
{
    let ghost start = old(s)@;
    push_dash(s);
    push_line(s, "IMAGING PARAMETERS");
    push_field(s, "  Mode:          ", d.imaging_mode.as_str());
    push_field(s, "  Target Format: ", d.format.as_str());
    push_dash(s);
    push_line(s, "SOURCE DETAILS");
    push_field(s, "  Device Path:   ", d.source_device.as_str());
    push_field(s, "  Model:         ", d.source_model.as_str());
    push_field(s, "  Serial Number: ", d.source_serial.as_str());
    push_str(s, "  Total Size:    ");
    push_decimal(s, d.source_size);
    push_str(s, " bytes (");
    push_str(s, source_gb);
    push_str(s, " GB)");
    push_str(s, "\n");
    proof {
        assert(s@ =~= start + imager_source(*d, source_gb@));
    }
}

/// Appends the acquisition details.
fn push_acquisition(s: &mut String, d: &ReportData)
    requires
        d.start_time.printable(),
        d.end_time.printable(),
    ensures
        final(s)@ == old(s)@ + imager_acquisition(*d),
{
    let ghost start = old(s)@;
    push_dash(s);
    push_line(s, "ACQUISITION DETAILS");
    push_field(s, "  Destination:   ", d.dest_file.as_str());
    let st = to_utc_rfc2822(d.start_time);
    push_field(s, "  Start Time:    ", st.as_str());
    let et = to_utc_rfc2822(d.end_time);
    push_field(s, "  End Time:      ", et.as_str());
    let dur = duration_string(d.start_time, d.end_time);
    push_field(s, "  Duration:      ", dur.as_str());
    push_str(s, "  Bad Sectors:   ");
    push_decimal(s, d.bad_sectors);
    push_str(s, "\n");
    proof {
        assert(s@ =~= start + imager_acquisition(*d));
    }
}

/// Appends the listings, the checks and the status; says whether the
/// image is declared verified.
fn push_hashes(s: &mut String, d: &ReportData) -> (verified: bool)
    ensures
        final(s)@ == old(s)@ + imager_hashes(*d),
        verified == imager_verified(*d),
{
    let ghost start = old(s)@;
    let any_pre = has_any(&d.pre_hashes);
    if any_pre {
        push_dash(s);
        push_line(s, "PRE-ACQUISITION HASHES");
        push_hash_lines(s, &d.pre_hashes);
    }
    push_dash(s);
    push_line(s, "VERIFICATION HASHES (POST-ACQUISITION)");
    push_hash_lines(s, &d.hashes);
    push_dash(s);
    let mut verified = true;
    if any_pre {
        push_line(s, "INTEGRITY VERIFICATION LOG");
        verified = push_checks(s, d);
        push_dash(s);
    }
    if verified {
        push_line(s, "Acquisition Status: COMPLETED / VERIFIED");
    } else {
        push_line(s, "Acquisition Status: WARNING - HASH MISMATCH");
    }
    push_rule(s);
    proof {
        assert(s@ =~= start + imager_hashes(*d));
    }
    verified
}

/// The imager's text report, made at `now`; `source_gb` is the source
/// size in gigabytes as printed with two decimals.
pub fn generate_txt_report(data: &ReportData, now: Timestamp, source_gb: &str) -> (s: String)
    requires
        now.printable(),
        data.start_time.printable(),
        data.end_time.printable(),
    ensures
        s@ == imager_report(*data, now, source_gb@),
{
    let mut s = String::new();
    push_case(&mut s, data, now);
    push_source(&mut s, data, source_gb);
    push_acquisition(&mut s, data);
    push_hashes(&mut s, data);
    proof {
        assert(s@ =~= imager_report(*data, now, source_gb@));
    }
    s
}

/// The report's status is a declaration of verification exactly when no
/// digest taken during the acquisition differs from the digest of the
/// same algorithm taken before it.
pub proof fn lemma_imager_status(d: ReportData)
    ensures
        imager_verified(d) <==> (d.pre_hashes.count() == 0 || forall|i: int| 0 <= i < 4 ==> #[trigger] agrees_at(d, i)),
{
    lemma_none_mismatched(d, 4);
}

proof fn lemma_none_mismatched(d: ReportData, k: int)
    requires
        0 <= k,
    ensures
        none_mismatched_upto(d, k) <==> forall|i: int| 0 <= i < k ==> #[trigger] agrees_at(d, i),
    decreases k,
{
    if k > 0 {
        lemma_none_mismatched(d, k - 1);
    }
}

/// When the source gives the same bytes before and during imaging, the
/// imager's report declares the image verified.
pub proof fn lemma_imager_same_bytes_verified(d: ReportData, data: Seq<u8>)
    requires
        digests_of_bytes(d.pre_hashes, data),
        digests_of_bytes(d.hashes, data),
    ensures
        imager_verified(d),
{
    assert forall|i: int| 0 <= i < 4 implies #[trigger] agrees_at(d, i) by {
        let a = algorithm_at(i);
        assert(d.hashes.lookup(a) matches Some(h) ==> h == hex_digest_of(a, data));
        assert(d.pre_hashes.lookup(a) matches Some(h) ==> h == hex_digest_of(a, data));
    }
    lemma_none_mismatched(d, 4);
}

} // verus!
