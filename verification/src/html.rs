//! The HTML dashboard report: a fixed page whose placeholders are
//! replaced, one after the other, by the report's values.

use vstd::prelude::*;
use crate::hasher::{HashAlgorithm, HashDigests, algorithm_name};
use crate::report::{
    ReportData, ReportFigures, Timestamp, algorithm_at, lookup_in, is_logical, has_live_section,
    ist_rfc2822_text, duration_text, whole_seconds_between, signed_decimal, trunc_div, trunc_rem,
    to_ist_rfc2822, duration_string, seconds_between, push_signed,
};
use crate::text::{decimal, push_str, push_decimal, str_eq, replaced, replace_all};

verus! {

/// The page, with `{{NAME}}` placeholders.
pub const HTML_TEMPLATE: &'static str = r#"<!DOCTYPE html>
<html lang="en">
<head>
    <meta charset="UTF-8">
    <meta name="viewport" content="width=device-width, initial-scale=1.0">
    <title>OpenForensic Report — {{CASE_NUMBER}}</title>
    <link rel="preconnect" href="https://fonts.googleapis.com">
    <link rel="preconnect" href="https://fonts.gstatic.com" crossorigin>
    <link href="https://fonts.googleapis.com/css2?family=Inter:wght@400;600;700&family=JetBrains+Mono:wght@500;700&display=swap" rel="stylesheet">
    <style>
        :root {
            /* Light Theme (Forensic Precision) */
            --bg: #f8f9ff;
            --surface: #ffffff;
            --text-main: #0b1c30;
            --text-muted: #424656;
            --border: #c2c6d8;
            --primary: #0066ff;
            --success: #10b981;
            --success-bg: #ecfdf5;
            --error: #ba1a1a;
            --error-bg: #ffdad6;
            --card-hover: rgba(0, 102, 255, 0.02);
            --border-hover: #0066ff;
            --shadow: 0 1px 3px rgba(0,0,0,0.05);
        }

        [data-theme="dark"] {
            /* Dark Theme (Cyber-Forensic Protocol) */
            --bg: #0f141a;
            --surface: #1b2027;
            --text-main: #dee2ec;
            --text-muted: #849495;
            --border: #2c3138;
            --primary: #00f5ff;
            --success: #4edea3;
            --success-bg: rgba(78, 222, 163, 0.1);
            --error: #ffb4ab;
            --error-bg: rgba(255, 180, 171, 0.1);
            --card-hover: rgba(0, 245, 255, 0.02);
            --border-hover: #00f5ff;
            --shadow: 0 4px 6px rgba(0,0,0,0.3);
        }

        * { box-sizing: border-box; }
        
        body {
            font-family: 'Inter', sans-serif;
            background-color: var(--bg);
            color: var(--text-main);
            margin: 0;
            padding: 20px;
            line-height: 1.5;
            transition: background-color 0.3s, color 0.3s;
        }
        .container {
            max-width: 1200px;
            margin: 0 auto;
        }
        .header {
            display: flex;
            justify-content: space-between;
            align-items: flex-end;
            padding-bottom: 24px;
            border-bottom: 2px solid var(--border);
            margin-bottom: 32px;
            flex-wrap: wrap;
            gap: 16px;
        }
        .header-title h1 {
            margin: 0;
            font-size: 32px;
            font-weight: 700;
            letter-spacing: -0.02em;
            color: var(--text-main);
        }
        .header-meta {
            font-size: 14px;
            color: var(--text-muted);
            text-align: right;
            line-height: 1.8;
        }
        
        .controls {
            display: flex;
            align-items: center;
            gap: 12px;
            margin-top: 12px;
        }

        .btn {
            background: var(--surface);
            border: 1px solid var(--border);
            color: var(--text-main);
            padding: 8px 16px;
            border-radius: 4px;
            font-family: 'Inter', sans-serif;
            font-weight: 600;
            cursor: pointer;
            transition: all 0.2s ease;
        }
        .btn:hover {
            border-color: var(--primary);
            color: var(--primary);
        }

        .grid {
            display: grid;
            grid-template-columns: repeat(3, 1fr);
            gap: 24px;
            margin-bottom: 32px;
        }
        .card {
            background: var(--surface);
            border: 1px solid var(--border);
            border-radius: 8px;
            padding: 24px;
            box-shadow: var(--shadow);
            transition: transform 0.2s, box-shadow 0.2s, border-color 0.2s;
        }
        .card:hover {
            transform: translateY(-2px);
            border-color: var(--border-hover);
            box-shadow: 0 8px 16px rgba(0,0,0,0.1);
        }
        .card h3 {
            margin-top: 0;
            font-size: 14px;
            color: var(--text-muted);
            text-transform: uppercase;
            letter-spacing: 0.05em;
            margin-bottom: 20px;
            font-weight: 700;
            border-bottom: 1px solid var(--border);
            padding-bottom: 8px;
        }
        .field {
            margin-bottom: 16px;
        }
        .field:last-child {
            margin-bottom: 0;
        }
        .label {
            font-size: 11px;
            color: var(--text-muted);
            font-weight: 700;
            margin-bottom: 4px;
            letter-spacing: 0.05em;
            font-family: 'JetBrains Mono', monospace;
        }
        .value {
            font-size: 15px;
            font-weight: 600;
            word-break: break-all;
            color: var(--text-main);
            display: flex;
            align-items: center;
            gap: 8px;
        }
        .data-mono {
            font-family: 'JetBrains Mono', monospace;
            font-weight: 500;
            font-size: 14px;
        }
        
        .copy-btn {
            background: none;
            border: none;
            color: var(--primary);
            cursor: pointer;
            padding: 4px;
            opacity: 0;
            transition: opacity 0.2s;
        }
        .value:hover .copy-btn {
            opacity: 1;
        }

        .hash-section {
            background: var(--surface);
            border: 1px solid var(--border);
            border-radius: 8px;
            overflow: hidden;
            box-shadow: var(--shadow);
        }
        
        .hash-header {
            padding: 16px 24px;
            cursor: pointer;
            display: flex;
            justify-content: space-between;
            align-items: center;
            background: var(--surface);
            transition: background 0.2s;
        }
        .hash-header:hover {
            background: var(--card-hover);
        }
        .hash-header h3 {
            margin: 0;
            font-size: 14px;
            color: var(--text-main);
            text-transform: uppercase;
            letter-spacing: 0.05em;
            font-weight: 700;
        }
        
        .hash-content-wrapper {
            display: block;
        }

        .hash-row {
            display: grid;
            grid-template-columns: 120px 1fr 150px;
            padding: 20px 24px;
            border-top: 1px solid var(--border);
            align-items: center;
            transition: background 0.2s;
        }
        .hash-row:hover {
            background: var(--card-hover);
        }
        .hash-algo {
            font-weight: 700;
            font-size: 18px;
            color: var(--primary);
        }
        .hash-item-label {
            font-size: 11px;
            color: var(--text-muted);
            font-weight: 700;
            letter-spacing: 0.05em;
            margin-top: 12px;
            font-family: 'JetBrains Mono', monospace;
        }
        .hash-item-label:first-child { margin-top: 0; }
        .hash-item-value {
            font-family: 'JetBrains Mono', monospace;
            font-size: 14px;
            color: var(--text-main);
            font-weight: 500;
            margin-top: 4px;
            display: flex;
            align-items: center;
            gap: 8px;
        }
        .hash-item-value:hover .copy-btn { opacity: 1; }
        
        .hash-match {
            display: flex;
            align-items: center;
            justify-content: flex-end;
        }
        .badge {
            display: inline-flex;
            align-items: center;
            padding: 6px 12px;
            border-radius: 4px;
            font-family: 'JetBrains Mono', monospace;
            font-size: 11px;
            font-weight: 700;
            letter-spacing: 0.05em;
        }
        .badge.success {
            background: var(--success-bg);
            color: var(--success);
            border: 1px solid var(--success);
        }
        .badge.error {
            background: var(--error-bg);
            color: var(--error);
            border: 1px solid var(--error);
        }
        .badge.neutral {
            background: var(--surface);
            color: var(--text-muted);
            border: 1px solid var(--border);
        }

        @media (max-width: 900px) {
            .grid { grid-template-columns: 1fr; }
            .header { flex-direction: column; align-items: flex-start; }
            .header-meta { text-align: left; margin-top: 16px; }
            .hash-row {
                grid-template-columns: 1fr;
                gap: 16px;
            }
            .hash-match { justify-content: flex-start; margin-top: 8px; }
        }
    </style>
</head>
<body data-theme="dark">
    <div class="container">
        <div class="header">
            <div class="header-title">
                <h1>Forensic Disk Acquisition Dashboard</h1>
                <div style="margin-top: 8px; font-size: 18px; font-weight: 600; color: var(--primary);">Case: {{CASE_NUMBER}} | Evidence ID: {{EVIDENCE_ID}}</div>
                <div class="controls">
                    <button class="btn" id="theme-toggle">Toggle Light Mode</button>
                </div>
            </div>
            <div class="header-meta">
                <div><strong>Examiner:</strong> {{EXAMINER}}</div>
                <div><strong>Report Generated:</strong> {{REPORT_DATE}}</div>
                <div style="margin-top: 8px;"><span class="badge {{STATUS_CLASS}}">{{STATUS_BADGE}}</span></div>
            </div>
        </div>

        <div class="grid">
            <div class="card">
                <h3>Imaging Parameters</h3>
                <div class="field"><div class="label">IMAGING MODE</div><div class="value">{{IMAGING_MODE}}</div></div>
                <div class="field"><div class="label">TARGET FORMAT</div><div class="value">{{FORMAT}}</div></div>
                <div class="field"><div class="label">NOTES</div><div class="value">{{NOTES}}</div></div>
            </div>
            
            <div class="card">
                <h3>Source Details</h3>
                <div class="field"><div class="label">DEVICE PATH</div><div class="value data-mono"><span>{{SOURCE_DEVICE}}</span><button class="copy-btn" title="Copy">📋</button></div></div>
                <div class="field"><div class="label">HARDWARE MODEL</div><div class="value">{{SOURCE_MODEL}}</div></div>
                <div class="field"><div class="label">SERIAL NUMBER</div><div class="value data-mono"><span>{{SOURCE_SERIAL}}</span><button class="copy-btn" title="Copy">📋</button></div></div>
                <div class="field"><div class="label">TOTAL CAPACITY</div><div class="value">{{SOURCE_SIZE_GB}} GB <span style="font-weight:400; color:var(--text-muted); font-size:13px;">({{SOURCE_SIZE_BYTES}} bytes)</span></div></div>
            </div>

            <div class="card">
                <h3>Acquisition Details</h3>
                <div class="field"><div class="label">DESTINATION FILE</div><div class="value data-mono"><span>{{DEST_FILE}}</span><button class="copy-btn" title="Copy">📋</button></div></div>
                <div class="field"><div class="label">START TIME</div><div class="value data-mono">{{START_TIME}}</div></div>
                <div class="field"><div class="label">END TIME</div><div class="value data-mono">{{END_TIME}}</div></div>
                <div class="field"><div class="label">TOTAL DURATION</div><div class="value">{{DURATION_FULL}}</div></div>
                <div class="field"><div class="label">BAD SECTORS</div><div class="value">{{BAD_SECTORS}}</div></div>
            </div>
        </div>

        {{LIVE_ACQUISITION_HTML}}

        <div class="hash-section">
            <div class="hash-header" id="hash-toggle">
                <h3>Hash Verification</h3>
                <span id="hash-icon">▼</span>
            </div>
            <div class="hash-content-wrapper" id="hash-content">
                {{HASHES_HTML}}
            </div>
        </div>
    </div>

    <script>
        const themeBtn = document.getElementById('theme-toggle');
        themeBtn.addEventListener('click', () => {
            const body = document.body;
            if (body.getAttribute('data-theme') === 'dark') {
                body.setAttribute('data-theme', 'light');
                themeBtn.textContent = 'Toggle Dark Mode';
            } else {
                body.setAttribute('data-theme', 'dark');
                themeBtn.textContent = 'Toggle Light Mode';
            }
        });

        const hashToggle = document.getElementById('hash-toggle');
        const hashContent = document.getElementById('hash-content');
        const hashIcon = document.getElementById('hash-icon');
        hashToggle.addEventListener('click', () => {
            if (hashContent.style.display === 'none') {
                hashContent.style.display = 'block';
                hashIcon.textContent = '▼';
            } else {
                hashContent.style.display = 'none';
                hashIcon.textContent = '▶';
            }
        });

        document.querySelectorAll('.copy-btn').forEach(btn => {
            btn.addEventListener('click', async (e) => {
                const text = e.target.previousElementSibling.textContent;
                try {
                    await navigator.clipboard.writeText(text);
                    const original = e.target.textContent;
                    e.target.textContent = '✓';
                    setTimeout(() => e.target.textContent = original, 2000);
                } catch (err) {
                    console.error('Failed to copy', err);
                }
            });
        });
    </script>
</body>
</html>"#;

/// Start of a hash row, before the algorithm.
pub const ROW_OPEN: &'static str = "\n            <div class=\"hash-row\">\n                <div class=\"hash-algo\">";

/// Between the algorithm and the pre-acquisition digest.
pub const ROW_AFTER_ALGORITHM: &'static str = "</div>\n                <div>\n                    <div class=\"hash-item-label\">Pre-Acquisition (Source Device)</div>\n                    <div class=\"hash-item-value\"><span>";

/// Between the pre-acquisition and the stream digest.
pub const ROW_AFTER_PRE: &'static str = "</span><button class=\"copy-btn\" title=\"Copy\">📋</button></div>\n                    <div class=\"hash-item-label\">Acquisition (Stream Verification)</div>\n                    <div class=\"hash-item-value\"><span>";

/// Between the stream digest and the post-acquisition block.
pub const ROW_AFTER_STREAM: &'static str = "</span><button class=\"copy-btn\" title=\"Copy\">📋</button></div>\n                    ";

/// Between the post-acquisition block and the badge.
pub const ROW_AFTER_POST: &'static str = "\n                </div>\n                <div class=\"hash-match\">";

/// End of a hash row.
pub const ROW_CLOSE: &'static str = "</div>\n            </div>\n";

/// Start of the post-acquisition block, before its label.
pub const POST_OPEN: &'static str = "<div class=\"hash-item-label\">";

/// Between the label and the digest.
pub const POST_AFTER_LABEL: &'static str = "</div><div class=\"hash-item-value\"><span>";

/// End of the post-acquisition block.
pub const POST_CLOSE: &'static str = "</span><button class=\"copy-btn\" title=\"Copy\">📋</button></div>";

/// Start of the live-acquisition card.
pub const LIVE_OPEN: &'static str = "<div class=\"card\" style=\"grid-column: 1 / -1; margin-bottom: 32px;\">\n                <h3>Live Acquisition Details</h3>\n                <div class=\"grid\" style=\"margin-bottom: 0;\">";

/// Shadow-copy card, before the copy's ID.
pub const VSS_OPEN: &'static str = "\n                <div class=\"card\" style=\"box-shadow: none; border-color: var(--border);\">\n                    <h4 style=\"margin-top: 0; color: var(--text-muted); font-size: 12px;\">VSS SNAPSHOT</h4>\n                    <div class=\"field\"><div class=\"label\">SHADOW COPY ID</div><div class=\"value data-mono\">";

/// End of the shadow-copy card.
pub const VSS_CLOSE: &'static str = "</div></div>\n                </div>";

/// RAM card, before the dump path.
pub const RAM_OPEN: &'static str = "\n                <div class=\"card\" style=\"box-shadow: none; border-color: var(--border);\">\n                    <h4 style=\"margin-top: 0; color: var(--text-muted); font-size: 12px;\">RAM ACQUISITION</h4>\n                    <div class=\"field\"><div class=\"label\">DUMP PATH</div><div class=\"value data-mono\">";

/// Between the dump path and its size.
pub const RAM_AFTER_PATH: &'static str = "</div></div>\n                    <div class=\"field\"><div class=\"label\">SIZE</div><div class=\"value\">";

/// End of the RAM card.
pub const RAM_CLOSE: &'static str = "</div></div>\n                </div>";

/// Locked-files card, before the file list.
pub const LOCKED_OPEN: &'static str = "\n                <div class=\"card\" style=\"box-shadow: none; border-color: var(--border);\">\n                    <h4 style=\"margin-top: 0; color: var(--text-muted); font-size: 12px;\">LOCKED FILES COPIED</h4>\n                    <div class=\"field\"><div class=\"label\">FILES</div><div class=\"value\" style=\"font-size: 12px;\">";

/// End of the locked-files card.
pub const LOCKED_CLOSE: &'static str = "</div></div>\n                </div>";


/// Shown where a digest is missing.
pub const NOT_AVAILABLE: &'static str = "N/A";

/// Badge of a confirmed digest.
pub const BADGE_MATCHED: &'static str = "<span class=\"badge success\">MATCHED</span>";

/// Badge of a digest nothing was compared with.
pub const BADGE_UNCHECKED: &'static str = "<span class=\"badge neutral\">NO VERIFICATION</span>";

/// Badge of a digest that disagrees.
pub const BADGE_MISMATCH: &'static str = "<span class=\"badge error\">MISMATCH</span>";

/// The pre-acquisition digest shown for `a` ("N/A" when there is none).
pub open spec fn shown_pre(d: ReportData, a: HashAlgorithm) -> Seq<char> {
    match d.pre_hashes.lookup(a) {
        Some(p) => p,
        None => NOT_AVAILABLE@,
    }
}

/// Number of comparisons made for the stream digest of `a`: with the
/// pre-acquisition digest unless it shows as "N/A", and in logical mode
/// with the final digest when there is one.
pub open spec fn html_checks(d: ReportData, a: HashAlgorithm) -> nat {
    (if shown_pre(d, a) != NOT_AVAILABLE@ { 1nat } else { 0nat }) + (if is_logical(d) && lookup_in(
        d.post_hashes,
        a,
    ) is Some {
        1nat
    } else {
        0nat
    })
}

/// Whether the stream digest `stream` of `a` agrees with what it is compared with.
pub open spec fn html_matched(d: ReportData, a: HashAlgorithm, stream: Seq<char>) -> bool {
    &&& (shown_pre(d, a) != NOT_AVAILABLE@ ==> shown_pre(d, a) == stream)
    &&& (is_logical(d) ==> (lookup_in(d.post_hashes, a) matches Some(q) ==> q == stream))
}

/// The badge of one hash row.
pub open spec fn match_badge(matched: bool, checks: nat) -> Seq<char> {
    if matched && checks > 0 {
        BADGE_MATCHED@
    } else if checks == 0 {
        BADGE_UNCHECKED@
    } else {
        BADGE_MISMATCH@
    }
}

/// The label of the post-acquisition digest.
pub open spec fn post_label(d: ReportData) -> Seq<char> {
    if is_logical(d) {
        "Final Hash (Destination Folder)"@
    } else {
        "Post-Acquisition (Image File Hash)"@
    }
}

/// The post-acquisition block of the row of `a` (empty when no
/// post-acquisition digests were computed).
pub open spec fn post_block(d: ReportData, a: HashAlgorithm) -> Seq<char> {
    match d.post_hashes {
        Some(m) => POST_OPEN@ + post_label(d) + POST_AFTER_LABEL@ + (match m.lookup(a) {
            Some(q) => q,
            None => NOT_AVAILABLE@,
        }) + POST_CLOSE@,
        None => Seq::empty(),
    }
}

/// The hash row of algorithm `a` with stream digest `stream`.
pub open spec fn hash_row(d: ReportData, a: HashAlgorithm, stream: Seq<char>) -> Seq<char> {
    ROW_OPEN@ + algorithm_name(a) + ROW_AFTER_ALGORITHM@ + shown_pre(d, a) + ROW_AFTER_PRE@ + stream
        + ROW_AFTER_STREAM@ + post_block(d, a) + ROW_AFTER_POST@ + match_badge(
        html_matched(d, a, stream),
        html_checks(d, a),
    ) + ROW_CLOSE@
}

/// Everything of the hash row of `a` before its badge: algorithm, shown
/// pre-acquisition digest, stream digest and post-acquisition block.
pub open spec fn row_head(d: ReportData, a: HashAlgorithm, stream: Seq<char>) -> Seq<char> {
    ROW_OPEN@ + algorithm_name(a) + ROW_AFTER_ALGORITHM@ + shown_pre(d, a) + ROW_AFTER_PRE@ + stream
        + ROW_AFTER_STREAM@ + post_block(d, a) + ROW_AFTER_POST@
}

/// Law of the dashboard's hash rows: the badge after a row's digests reads
/// MATCHED only when the stream digest equals the pre-acquisition digest
/// (where one other than "N/A" is shown) and, for a logical acquisition,
/// the final digest (where there is one); it reads MISMATCH whenever the
/// stream digest differs from either, NO VERIFICATION when there is
/// nothing to compare it with, and MATCHED when every comparison agrees.
pub proof fn lemma_row_badge_reflects_digests(d: ReportData, a: HashAlgorithm, stream: Seq<char>, badge: Seq<char>)
    requires
        hash_row(d, a, stream) == row_head(d, a, stream) + badge + ROW_CLOSE@,
    ensures
        badge == BADGE_MATCHED@ ==> {
            &&& (d.pre_hashes.lookup(a) is Some && d.pre_hashes.lookup(a)->Some_0 != NOT_AVAILABLE@
                ==> d.pre_hashes.lookup(a)->Some_0 == stream)
            &&& (is_logical(d) && lookup_in(d.post_hashes, a) is Some ==> lookup_in(d.post_hashes, a)->Some_0
                == stream)
        },
        ({
            ||| (d.pre_hashes.lookup(a) is Some && d.pre_hashes.lookup(a)->Some_0 != NOT_AVAILABLE@
                && d.pre_hashes.lookup(a)->Some_0 != stream)
            ||| (is_logical(d) && lookup_in(d.post_hashes, a) is Some && lookup_in(d.post_hashes, a)->Some_0
                != stream)
        }) ==> badge == BADGE_MISMATCH@,
        ({
            let pre_shown = d.pre_hashes.lookup(a) is Some && d.pre_hashes.lookup(a)->Some_0 != NOT_AVAILABLE@;
            let post_compared = is_logical(d) && lookup_in(d.post_hashes, a) is Some;
            &&& (!pre_shown && !post_compared ==> badge == BADGE_UNCHECKED@)
            &&& ((pre_shown || post_compared) && (pre_shown ==> d.pre_hashes.lookup(a)->Some_0 == stream)
                && (post_compared ==> lookup_in(d.post_hashes, a)->Some_0 == stream) ==> badge == BADGE_MATCHED@)
        }),
{
    reveal_strlit("<span class=\"badge success\">MATCHED</span>");
    reveal_strlit("<span class=\"badge neutral\">NO VERIFICATION</span>");
    reveal_strlit("<span class=\"badge error\">MISMATCH</span>");
    let h = row_head(d, a, stream);
    let b = match_badge(html_matched(d, a, stream), html_checks(d, a));
    assert(hash_row(d, a, stream) =~= h + b + ROW_CLOSE@);
    assert((h + b + ROW_CLOSE@).len() == (h + badge + ROW_CLOSE@).len());
    assert(b =~= (h + b + ROW_CLOSE@).subrange(h.len() as int, (h.len() + b.len()) as int));
    assert(badge =~= (h + badge + ROW_CLOSE@).subrange(h.len() as int, (h.len() + badge.len()) as int));
    assert(badge == b);
}

/// The rows of the stream digests among the first `k` algorithms.
pub open spec fn hash_rows_upto(d: ReportData, k: int) -> Seq<char>
    decreases k,
{
    if k <= 0 {
        Seq::empty()
    } else {
        let a = algorithm_at(k - 1);
        hash_rows_upto(d, k - 1) + match d.hashes.lookup(a) {
            Some(h) => hash_row(d, a, h),
            None => Seq::empty(),
        }
    }
}

/// Whether every stream digest among the first `k` algorithms agrees.
pub open spec fn html_all_matched_upto(d: ReportData, k: int) -> bool
    decreases k,
{
    if k <= 0 {
        true
    } else {
        let a = algorithm_at(k - 1);
        html_all_matched_upto(d, k - 1) && match d.hashes.lookup(a) {
            Some(h) => html_matched(d, a, h),
            None => true,
        }
    }
}

/// Up to `k` algorithms, a row reads as matched exactly when the text
/// report confirms its digest.
proof fn lemma_rows_match_confirmations(d: ReportData, k: int)
    requires
        forall|a: HashAlgorithm| d.pre_hashes.lookup(a) != Some(NOT_AVAILABLE@),
    ensures
        html_all_matched_upto(d, k) == crate::report::all_confirmed_upto(
            d.hashes,
            d.pre_hashes,
            d.post_hashes,
            is_logical(d),
            k,
        ),
    decreases k,
{
    if k > 0 {
        lemma_rows_match_confirmations(d, k - 1);
        let a = algorithm_at(k - 1);
        assert(d.pre_hashes.lookup(a) != Some(NOT_AVAILABLE@));
    }
}

/// Dashboard and plain report agree on the outcome: the badge shows
/// "COMPLETED & VERIFIED" exactly when the status line of the plain
/// report shows "COMPLETED / VERIFIED", whenever no pre-acquisition
/// digest is the string "N/A" (which the dashboard shows as a missing
/// digest).
pub proof fn lemma_html_verdict_matches_text(d: ReportData)
    requires
        forall|a: HashAlgorithm| d.pre_hashes.lookup(a) != Some(NOT_AVAILABLE@),
    ensures
        html_all_matched_upto(d, 4) == crate::report::report_verified(d),
{
    lemma_rows_match_confirmations(d, 4);
    crate::report::lemma_report_status(d);
}

/// The dashboard's files list: the files joined by "<br>".
pub open spec fn joined_files(files: Seq<String>, k: int) -> Seq<char>
    decreases k,
{
    if k <= 0 {
        Seq::empty()
    } else if k == 1 {
        files[0]@
    } else {
        joined_files(files, k - 1) + "<br>"@ + files[k - 1]@
    }
}

/// The size shown for the RAM dump.
pub open spec fn ram_size_text(size: Option<u64>) -> Seq<char> {
    match size {
        Some(z) => decimal(z as nat) + " bytes"@,
        None => "Unknown"@,
    }
}

/// The shadow-copy card.
pub open spec fn vss_html(d: ReportData) -> Seq<char> {
    match d.vss_snapshot_id {
        Some(id) => VSS_OPEN@ + id@ + VSS_CLOSE@,
        None => Seq::empty(),
    }
}

/// The RAM-dump card.
pub open spec fn ram_html(d: ReportData) -> Seq<char> {
    match d.ram_dump_path {
        Some(p) => RAM_OPEN@ + p@ + RAM_AFTER_PATH@ + ram_size_text(d.ram_dump_size) + RAM_CLOSE@,
        None => Seq::empty(),
    }
}

/// The locked-files card.
pub open spec fn locked_html(d: ReportData) -> Seq<char> {
    if d.locked_files_copied@.len() > 0 {
        LOCKED_OPEN@ + joined_files(d.locked_files_copied@, d.locked_files_copied@.len() as int) + LOCKED_CLOSE@
    } else {
        Seq::empty()
    }
}

/// The live-acquisition card (empty without live-acquisition data).
pub open spec fn live_html(d: ReportData) -> Seq<char> {
    if has_live_section(d) {
        LIVE_OPEN@ + vss_html(d) + ram_html(d) + locked_html(d) + "</div></div>"@
    } else {
        Seq::empty()
    }
}

/// "<h>h <m>m" of a duration of `secs` whole seconds.
pub open spec fn short_duration_text(secs: int) -> Seq<char> {
    signed_decimal(trunc_div(secs, 3600)) + "h "@ + signed_decimal(trunc_rem(trunc_div(secs, 60), 60)) + "m"@
}

/// The dashboard: the page with its placeholders replaced in turn by the
/// report's values, as printed at `now`.
pub open spec fn html_report(d: ReportData, now: Timestamp, fig: ReportFigures) -> Seq<char> {
    let verified = html_all_matched_upto(d, 4);
    let secs = whole_seconds_between(d.start_time, d.end_time);
    let t1 = replaced(HTML_TEMPLATE@, "{{CASE_NUMBER}}"@, d.case_number@);
    let t2 = replaced(t1, "{{IMAGING_MODE}}"@, d.imaging_mode@);
    let t3 = replaced(t2, "{{FORMAT}}"@, d.format@);
    let t4 = replaced(
        t3,
        "{{STATUS_BADGE}}"@,
        if verified { "COMPLETED & VERIFIED"@ } else { "WARNING — MISMATCH"@ },
    );
    let t5 = replaced(t4, "{{STATUS_CLASS}}"@, if verified { "success"@ } else { "error"@ });
    let t6 = replaced(t5, "{{REPORT_DATE}}"@, ist_rfc2822_text(now.secs, now.nanos));
    let t7 = replaced(t6, "{{EXAMINER}}"@, d.examiner@);
    let t8 = replaced(t7, "{{EVIDENCE_ID}}"@, d.evidence_id@);
    let t9 = replaced(t8, "{{SOURCE_SIZE_GB}}"@, fig.source_size_gb@);
    let t10 = replaced(t9, "{{SOURCE_SIZE_BYTES}}"@, decimal(d.source_size as nat));
    let t11 = replaced(t10, "{{DURATION_SHORT}}"@, short_duration_text(secs));
    let t12 = replaced(t11, "{{DURATION_FULL}}"@, duration_text(secs));
    let t13 = replaced(t12, "{{BAD_SECTORS}}"@, decimal(d.bad_sectors as nat));
    let t14 = replaced(t13, "{{SPEED_MB}}"@, fig.speed_mb@);
    let t15 = replaced(t14, "{{NOTES}}"@, d.notes@);
    let t16 = replaced(t15, "{{SOURCE_DEVICE}}"@, d.source_device@);
    let t17 = replaced(t16, "{{SOURCE_MODEL}}"@, d.source_model@);
    let t18 = replaced(t17, "{{SOURCE_SERIAL}}"@, d.source_serial@);
    let t19 = replaced(t18, "{{DEST_FILE}}"@, d.dest_file@);
    let t20 = replaced(t19, "{{START_TIME}}"@, ist_rfc2822_text(d.start_time.secs, d.start_time.nanos));
    let t21 = replaced(t20, "{{END_TIME}}"@, ist_rfc2822_text(d.end_time.secs, d.end_time.nanos));
    let t22 = replaced(t21, "{{HASHES_HTML}}"@, hash_rows_upto(d, 4));
    replaced(t22, "{{LIVE_ACQUISITION_HTML}}"@, live_html(d))
}


/// The hash row of `a` and whether its stream digest agrees.
fn html_row(d: &ReportData, a: HashAlgorithm, stream: &String) -> (r: (String, bool))
    ensures
        r.0@ == hash_row(*d, a, stream@),
        r.1 == html_matched(*d, a, stream@),
{
    let logical = str_eq(d.imaging_mode.as_str(), "Logical");
    let mut pre = String::new();
    match d.pre_hashes.get(a) {
        Some(p) => push_str(&mut pre, p.as_str()),
        None => push_str(&mut pre, NOT_AVAILABLE),
    }
    let mut matched = true;
    let mut checks: u32 = 0;
    if !str_eq(pre.as_str(), NOT_AVAILABLE) {
        checks = checks + 1;
        if !str_eq(pre.as_str(), stream.as_str()) {
            matched = false;
        }
    }
    let post_a = match &d.post_hashes {
        Some(m) => m.get(a),
        None => None,
    };
    if logical {
        if let Some(q) = post_a {
            checks = checks + 1;
            if !str_eq(q.as_str(), stream.as_str()) {
                matched = false;
            }
        }
    }
    let mut row = String::new();
    push_str(&mut row, ROW_OPEN);
    let n = a.name();
    push_str(&mut row, n.as_str());
    push_str(&mut row, ROW_AFTER_ALGORITHM);
    push_str(&mut row, pre.as_str());
    push_str(&mut row, ROW_AFTER_PRE);
    push_str(&mut row, stream.as_str());
    push_str(&mut row, ROW_AFTER_STREAM);
    let ghost before_post = row@;
    match &d.post_hashes {
        Some(m) => {
            push_str(&mut row, POST_OPEN);
            if logical {
                push_str(&mut row, "Final Hash (Destination Folder)");
            } else {
                push_str(&mut row, "Post-Acquisition (Image File Hash)");
            }
            push_str(&mut row, POST_AFTER_LABEL);
            match m.get(a) {
                Some(q) => push_str(&mut row, q.as_str()),
                None => push_str(&mut row, NOT_AVAILABLE),
            }
            push_str(&mut row, POST_CLOSE);
        },
        None => {},
    }
    let ghost after_post = row@;
    push_str(&mut row, ROW_AFTER_POST);
    if matched && checks > 0 {
        push_str(&mut row, BADGE_MATCHED);
    } else if checks == 0 {
        push_str(&mut row, BADGE_UNCHECKED);
    } else {
        push_str(&mut row, BADGE_MISMATCH);
    }
    push_str(&mut row, ROW_CLOSE);
    proof {
        assert(pre@ == shown_pre(*d, a));
        assert(checks == html_checks(*d, a));
        assert(matched == html_matched(*d, a, stream@));
        assert(after_post =~= before_post + post_block(*d, a));
        assert(row@ =~= hash_row(*d, a, stream@));
    }
    (row, matched)
}

/// The hash rows and whether every stream digest agrees.
fn html_rows(d: &ReportData) -> (r: (String, bool))
    ensures
        r.0@ == hash_rows_upto(*d, 4),
        r.1 == html_all_matched_upto(*d, 4),
{
    let mut rows = String::new();
    let mut all = true;
    let mut i: usize = 0;
    while i < 4
        invariant
            i <= 4,
            rows@ == hash_rows_upto(*d, i as int),
            all == html_all_matched_upto(*d, i as int),
        decreases 4 - i,
    {
        let a = crate::report::algorithm_order(i);
        let ghost before = rows@;
        match d.hashes.get(a) {
            Some(h) => {
                let (row, ok) = html_row(d, a, h);
                push_str(&mut rows, row.as_str());
                all = all && ok;
            },
            None => {},
        }
        proof {
            assert(rows@ =~= hash_rows_upto(*d, i + 1));
        }
        i += 1;
    }
    (rows, all)
}

/// Appends the shadow-copy card.
fn push_vss_html(s: &mut String, d: &ReportData)
    ensures
        final(s)@ == old(s)@ + vss_html(*d),
{
    let ghost start = old(s)@;
    match &d.vss_snapshot_id {
        Some(id) => {
            push_str(s, VSS_OPEN);
            push_str(s, id.as_str());
            push_str(s, VSS_CLOSE);
        },
        None => {},
    }
    proof {
        assert(s@ =~= start + vss_html(*d));
    }
}

/// Appends the RAM-dump card.
fn push_ram_html(s: &mut String, d: &ReportData)
    ensures
        final(s)@ == old(s)@ + ram_html(*d),
{
    let ghost start = old(s)@;
    match &d.ram_dump_path {
        Some(p) => {
            push_str(s, RAM_OPEN);
            push_str(s, p.as_str());
            push_str(s, RAM_AFTER_PATH);
            let ghost a = s@;
            match d.ram_dump_size {
                Some(z) => {
                    push_decimal(s, z);
                    push_str(s, " bytes");
                },
                None => push_str(s, "Unknown"),
            }
            proof {
                assert(s@ =~= a + ram_size_text(d.ram_dump_size));
            }
            push_str(s, RAM_CLOSE);
        },
        None => {},
    }
    proof {
        assert(s@ =~= start + ram_html(*d));
    }
}

/// Appends the locked-files card.
fn push_locked_html(s: &mut String, d: &ReportData)
    ensures
        final(s)@ == old(s)@ + locked_html(*d),
{
    let ghost start = old(s)@;
    if d.locked_files_copied.len() > 0 {
        push_str(s, LOCKED_OPEN);
        let ghost before = s@;
        let mut i: usize = 0;
        while i < d.locked_files_copied.len()
            invariant
                i <= d.locked_files_copied@.len(),
                s@ == before + joined_files(d.locked_files_copied@, i as int),
            decreases d.locked_files_copied@.len() - i,
        {
            if i > 0 {
                push_str(s, "<br>");
            }
            push_str(s, d.locked_files_copied[i].as_str());
            proof {
                assert(s@ =~= before + joined_files(d.locked_files_copied@, i + 1));
            }
            i += 1;
        }
        push_str(s, LOCKED_CLOSE);
    }
    proof {
        assert(s@ =~= start + locked_html(*d));
    }
}

/// The live-acquisition card.
fn html_live(d: &ReportData) -> (s: String)
    ensures
        s@ == live_html(*d),
{
    let mut s = String::new();
    if d.vss_snapshot_id.is_some() || d.ram_dump_path.is_some() || d.locked_files_copied.len() > 0 {
        push_str(&mut s, LIVE_OPEN);
        push_vss_html(&mut s, d);
        push_ram_html(&mut s, d);
        push_locked_html(&mut s, d);
        push_str(&mut s, "</div></div>");
        proof {
            assert(s@ =~= live_html(*d));
        }
    } else {
        proof {
            assert(s@ =~= live_html(*d));
        }
    }
    s
}

/// "<h>h <m>m" of the acquisition's duration.
fn short_duration(start: Timestamp, end: Timestamp) -> (s: String)
    requires
        start.printable(),
        end.printable(),
    ensures
        s@ == short_duration_text(whole_seconds_between(start, end)),
{
    let secs = seconds_between(start, end);
    let hours = secs / 3600;
    let minutes = (secs / 60) % 60;
    let mut s = String::new();
    push_signed(&mut s, hours);
    push_str(&mut s, "h ");
    push_signed(&mut s, minutes);
    push_str(&mut s, "m");
    proof {
        assert(s@ =~= short_duration_text(whole_seconds_between(start, end)));
    }
    s
}

/// The HTML dashboard of an acquisition, printed at `now`; `fig` holds
/// the figures rendered by the caller.
pub fn generate_html_report(data: &ReportData, now: Timestamp, fig: &ReportFigures) -> (s: String)
    requires
        now.printable(),
        data.start_time.printable(),
        data.end_time.printable(),
    ensures
        s@ == html_report(*data, now, *fig),
{
    proof {
        reveal_strlit("{{CASE_NUMBER}}");
        reveal_strlit("{{IMAGING_MODE}}");
        reveal_strlit("{{FORMAT}}");
        reveal_strlit("{{STATUS_BADGE}}");
        reveal_strlit("{{STATUS_CLASS}}");
        reveal_strlit("{{REPORT_DATE}}");
        reveal_strlit("{{EXAMINER}}");
        reveal_strlit("{{EVIDENCE_ID}}");
        reveal_strlit("{{SOURCE_SIZE_GB}}");
        reveal_strlit("{{SOURCE_SIZE_BYTES}}");
        reveal_strlit("{{DURATION_SHORT}}");
        reveal_strlit("{{DURATION_FULL}}");
        reveal_strlit("{{BAD_SECTORS}}");
        reveal_strlit("{{SPEED_MB}}");
        reveal_strlit("{{NOTES}}");
        reveal_strlit("{{SOURCE_DEVICE}}");
        reveal_strlit("{{SOURCE_MODEL}}");
        reveal_strlit("{{SOURCE_SERIAL}}");
        reveal_strlit("{{DEST_FILE}}");
        reveal_strlit("{{START_TIME}}");
        reveal_strlit("{{END_TIME}}");
        reveal_strlit("{{HASHES_HTML}}");
        reveal_strlit("{{LIVE_ACQUISITION_HTML}}");
    }
    let (rows, verified) = html_rows(data);
    let live = html_live(data);
    let date = to_ist_rfc2822(now);
    let size_bytes = crate::text::decimal_string(data.source_size);
    let short = short_duration(data.start_time, data.end_time);
    let full = duration_string(data.start_time, data.end_time);
    let bad = crate::text::decimal_string(data.bad_sectors);
    let start = to_ist_rfc2822(data.start_time);
    let end = to_ist_rfc2822(data.end_time);
    let t = replace_all(HTML_TEMPLATE, "{{CASE_NUMBER}}", data.case_number.as_str());
    let t = replace_all(t.as_str(), "{{IMAGING_MODE}}", data.imaging_mode.as_str());
    let t = replace_all(t.as_str(), "{{FORMAT}}", data.format.as_str());
    let t = replace_all(
        t.as_str(),
        "{{STATUS_BADGE}}",
        if verified { "COMPLETED & VERIFIED" } else { "WARNING — MISMATCH" },
    );
    let t = replace_all(t.as_str(), "{{STATUS_CLASS}}", if verified { "success" } else { "error" });
    let t = replace_all(t.as_str(), "{{REPORT_DATE}}", date.as_str());
    let t = replace_all(t.as_str(), "{{EXAMINER}}", data.examiner.as_str());
    let t = replace_all(t.as_str(), "{{EVIDENCE_ID}}", data.evidence_id.as_str());
    let t = replace_all(t.as_str(), "{{SOURCE_SIZE_GB}}", fig.source_size_gb.as_str());
    let t = replace_all(t.as_str(), "{{SOURCE_SIZE_BYTES}}", size_bytes.as_str());
    let t = replace_all(t.as_str(), "{{DURATION_SHORT}}", short.as_str());
    let t = replace_all(t.as_str(), "{{DURATION_FULL}}", full.as_str());
    let t = replace_all(t.as_str(), "{{BAD_SECTORS}}", bad.as_str());
    let t = replace_all(t.as_str(), "{{SPEED_MB}}", fig.speed_mb.as_str());
    let t = replace_all(t.as_str(), "{{NOTES}}", data.notes.as_str());
    let t = replace_all(t.as_str(), "{{SOURCE_DEVICE}}", data.source_device.as_str());
    let t = replace_all(t.as_str(), "{{SOURCE_MODEL}}", data.source_model.as_str());
    let t = replace_all(t.as_str(), "{{SOURCE_SERIAL}}", data.source_serial.as_str());
    let t = replace_all(t.as_str(), "{{DEST_FILE}}", data.dest_file.as_str());
    let t = replace_all(t.as_str(), "{{START_TIME}}", start.as_str());
    let t = replace_all(t.as_str(), "{{END_TIME}}", end.as_str());
    let t = replace_all(t.as_str(), "{{HASHES_HTML}}", rows.as_str());
    let t = replace_all(t.as_str(), "{{LIVE_ACQUISITION_HTML}}", live.as_str());
    t
}

} // verus!
