//! The page of the PDF acquisition report: every line of text, its font,
//! its size and where it stands. Positions are in millimetres from the
//! bottom of an A4 page; the text starts 280 mm up and each line moves
//! the cursor down by its line height. Long lists show twenty entries at
//! most and stop early near the bottom margin.

use vstd::prelude::*;
use crate::acquisition::{AcquisitionConfig, AcquisitionResult};
use crate::hasher::{HashDigests, algorithm_name};
use crate::report::{Timestamp, algorithm_at, algorithm_order};
use crate::text::{decimal, push_str, push_decimal};

verus! {

/// A line of text placed on the page.
#[derive(Clone, Debug)]
pub struct PdfLine {
    pub text: String,
    /// Helvetica Bold rather than Helvetica.
    pub bold: bool,
    /// Font size in points.
    pub size: u32,
    /// Distance from the left edge, in millimetres.
    pub x: u32,
    /// Height of the baseline above the bottom edge, in millimetres.
    pub y: i64,
}

/// A placed line as plain values: text, bold, size, x and y.
pub open spec fn line_view(l: PdfLine) -> (Seq<char>, bool, nat, nat, int) {
    (l.text@, l.bold, l.size as nat, l.x as nat, l.y as int)
}

/// Placed lines as plain values.
pub open spec fn lines_view(v: Seq<PdfLine>) -> Seq<(Seq<char>, bool, nat, nat, int)> {
    v.map_values(|l: PdfLine| line_view(l))
}

/// What `chrono` prints for the instant with a `strftime` pattern, in UTC.
pub uninterp spec fn utc_strftime(secs: i64, nanos: u32, pattern: Seq<char>) -> Seq<char>;

/// `chrono`: the instant (`DateTime::from_timestamp`) printed by
/// `DateTime::format` with `pattern`, one of the two patterns the page
/// uses. The contract names the text; it is a function of its arguments.
#[verifier::external_body]
fn format_utc(t: Timestamp, pattern: &str) -> (s: String)
    requires
        t.printable(),
        pattern@ == "%Y-%m-%d %H:%M:%S"@ || pattern@ == "%Y-%m-%d"@,
    ensures
        s@ == utc_strftime(t.secs, t.nanos, pattern@),
{
    chrono::DateTime::from_timestamp(t.secs, t.nanos).unwrap().format(pattern).to_string()
}

// ---------------------------------------------------------------------
// The layout as a function of the report's data
// ---------------------------------------------------------------------

/// Places a line at the cursor and moves the cursor down by `lh`.
pub open spec fn put(
    st: (Seq<(Seq<char>, bool, nat, nat, int)>, int),
    text: Seq<char>,
    bold: bool,
    size: nat,
    x: nat,
    lh: int,
) -> (Seq<(Seq<char>, bool, nat, nat, int)>, int) {
    (st.0.push((text, bold, size, x, st.1)), st.1 - lh)
}

/// Moves the cursor down by `d`.
pub open spec fn lowered(st: (Seq<(Seq<char>, bool, nat, nat, int)>, int), d: int) -> (
    Seq<(Seq<char>, bool, nat, nat, int)>,
    int,
) {
    (st.0, st.1 - d)
}

/// A section heading: bold, 14 pt, 6 mm.
pub open spec fn heading(st: (Seq<(Seq<char>, bool, nat, nat, int)>, int), text: Seq<char>) -> (
    Seq<(Seq<char>, bool, nat, nat, int)>,
    int,
) {
    put(st, text, true, 14, 20, 6)
}

/// A body line: regular, 10 pt.
pub open spec fn body(st: (Seq<(Seq<char>, bool, nat, nat, int)>, int), text: Seq<char>, lh: int) -> (
    Seq<(Seq<char>, bool, nat, nat, int)>,
    int,
) {
    put(st, text, false, 10, 20, lh)
}

/// Title, case information and acquisition details.
pub open spec fn pdf_top(
    st: (Seq<(Seq<char>, bool, nat, nat, int)>, int),
    c: AcquisitionConfig,
    r: AcquisitionResult,
    start: Timestamp,
    end: Timestamp,
) -> (Seq<(Seq<char>, bool, nat, nat, int)>, int) {
    let s = lowered(put(st, "OpenForensic Acquisition Report"@, true, 18, 20, 10), 5);
    let s = heading(s, "Case Information"@);
    let s = body(s, "Case Number: "@ + c.case_number@, 5);
    let s = body(s, "Examiner: "@ + c.examiner@, 5);
    let s = body(s, "Evidence ID: "@ + c.evidence_id@, 5);
    let s = body(s, "Notes: "@ + c.notes@, 10);
    let s = heading(s, "Acquisition Details"@);
    let s = body(s, "Start Time (UTC): "@ + utc_strftime(start.secs, start.nanos, "%Y-%m-%d %H:%M:%S"@), 5);
    let s = body(s, "End Time (UTC): "@ + utc_strftime(end.secs, end.nanos, "%Y-%m-%d %H:%M:%S"@), 5);
    let s = body(s, "Imaging Mode: "@ + c.imaging_mode@, 5);
    let s = body(s, "Total Bytes Processed: "@ + decimal(r.bytes_read as nat), 5);
    body(s, "Bad Sectors Encountered: "@ + decimal(r.bad_sectors as nat), 10)
}

/// "<algorithm> Hash: <digest>" lines for the digests among the first
/// `k` algorithms of the report order.
pub open spec fn hash_puts(st: (Seq<(Seq<char>, bool, nat, nat, int)>, int), d: HashDigests, k: int) -> (
    Seq<(Seq<char>, bool, nat, nat, int)>,
    int,
)
    decreases k,
{
    if k <= 0 {
        st
    } else {
        let s = hash_puts(st, d, k - 1);
        match d.lookup(algorithm_at(k - 1)) {
            Some(h) => body(s, algorithm_name(algorithm_at(k - 1)) + " Hash: "@ + h, 5),
            None => s,
        }
    }
}

/// The chain-of-custody section.
pub open spec fn pdf_hashes(
    st: (Seq<(Seq<char>, bool, nat, nat, int)>, int),
    pre_hash: Option<String>,
    d: HashDigests,
) -> (Seq<(Seq<char>, bool, nat, nat, int)>, int) {
    let s = heading(st, "Chain of Custody (Cryptographic Hashes)"@);
    let s = match pre_hash {
        Some(p) => body(s, "Pre-Acquisition Hash: "@ + p@, 5),
        None => s,
    };
    lowered(hash_puts(s, d, 4), 5)
}

/// List entries from the `i`-th on: 9 pt, indented, 4 mm apart, at most
/// twenty in all, none once the cursor is below 20 mm.
pub open spec fn listed(st: (Seq<(Seq<char>, bool, nat, nat, int)>, int), items: Seq<Seq<char>>, i: nat) -> (
    Seq<(Seq<char>, bool, nat, nat, int)>,
    int,
)
    decreases items.len() - i,
{
    if i >= items.len() || i >= 20 || st.1 < 20 {
        st
    } else {
        listed(put(st, items[i as int], false, 9, 25, 4), items, i + 1)
    }
}

/// A list section (none for an empty list): the heading, the entries and,
/// past twenty, a line counting the rest.
pub open spec fn list_section(
    st: (Seq<(Seq<char>, bool, nat, nat, int)>, int),
    title: Seq<char>,
    items: Seq<Seq<char>>,
    more: Seq<char>,
) -> (Seq<(Seq<char>, bool, nat, nat, int)>, int) {
    if items.len() == 0 {
        st
    } else {
        let s = listed(heading(st, title), items, 0);
        let s = if items.len() > 20 {
            put(s, "... and "@ + decimal((items.len() - 20) as nat) + more, false, 9, 25, 4)
        } else {
            s
        };
        lowered(s, 5)
    }
}

/// The number of the `i`-th entry: "<i+1>. ".
pub open spec fn numbered(i: int) -> Seq<char> {
    decimal((i + 1) as nat) + ". "@
}

/// The keyword hit entries.
pub open spec fn keyword_items(h: Seq<(String, u64)>) -> Seq<Seq<char>> {
    Seq::new(h.len(), |i: int| numbered(i) + "'"@ + h[i].0@ + "' at offset "@ + decimal(h[i].1 as nat))
}

/// The first `k` tags joined by ", ".
pub open spec fn joined_tags(tags: Seq<String>, k: int) -> Seq<char>
    decreases k,
{
    if k <= 0 {
        Seq::empty()
    } else if k == 1 {
        tags[0]@
    } else {
        joined_tags(tags, k - 1) + ", "@ + tags[k - 1]@
    }
}

/// The tags of a rule hit: " [<tags>]", or nothing without tags.
pub open spec fn tags_text(tags: Seq<String>) -> Seq<char> {
    if tags.len() == 0 {
        Seq::empty()
    } else {
        " ["@ + joined_tags(tags, tags.len() as int) + "]"@
    }
}

/// The rule hit entries.
pub open spec fn yara_items(h: Seq<(String, Vec<String>, u64)>) -> Seq<Seq<char>> {
    Seq::new(
        h.len(),
        |i: int| numbered(i) + "Rule '"@ + h[i].0@ + "'"@ + tags_text(h[i].1@) + " at offset "@ + decimal(h[i].2 as nat),
    )
}

/// The plugin result entries.
pub open spec fn plugin_items(p: Seq<(String, String)>) -> Seq<Seq<char>> {
    Seq::new(p.len(), |i: int| numbered(i) + p[i].0@ + ": "@ + p[i].1@)
}

/// The signature block, dated `now`.
pub open spec fn pdf_signature(st: (Seq<(Seq<char>, bool, nat, nat, int)>, int), now: Timestamp) -> (
    Seq<(Seq<char>, bool, nat, nat, int)>,
    int,
) {
    let s = put(lowered(st, 10), "Examiner Signature: _________________________________"@, true, 12, 20, 6);
    put(s, "Date: "@ + utc_strftime(now.secs, now.nanos, "%Y-%m-%d"@), false, 10, 20, 6)
}

/// Every line of the page, in the order written.
pub open spec fn pdf_layout(
    c: AcquisitionConfig,
    r: AcquisitionResult,
    start: Timestamp,
    end: Timestamp,
    now: Timestamp,
) -> Seq<(Seq<char>, bool, nat, nat, int)> {
    let s = pdf_top((Seq::empty(), 280), c, r, start, end);
    let s = pdf_hashes(s, c.pre_hash, r.hashes);
    let s = list_section(s, "Keyword Hits"@, keyword_items(r.keyword_hits@), " more hits."@);
    let s = list_section(s, "YARA Rule Hits"@, yara_items(r.yara_hits@), " more YARA hits."@);
    let s = list_section(
        s,
        "Plugin Results & Custom Hashes"@,
        plugin_items(r.plugin_results.pairs()),
        " more plugin results."@,
    );
    pdf_signature(s, now).0
}

// ---------------------------------------------------------------------
// Building the page
// ---------------------------------------------------------------------

/// The lines placed so far and the cursor; `steps` counts the moves of
/// the cursor, which bounds how far down it can be.
struct Page {
    lines: Vec<PdfLine>,
    y: i64,
    steps: Ghost<nat>,
}

impl Page {
    spec fn state(&self) -> (Seq<(Seq<char>, bool, nat, nat, int)>, int) {
        (lines_view(self.lines@), self.y as int)
    }

    spec fn wf(&self) -> bool {
        &&& self.steps@ <= 1000
        &&& self.y >= 280 - 10 * self.steps@
        &&& self.y <= 280
    }

    fn start() -> (p: Self)
        ensures
            p.wf(),
            p.steps@ == 0,
            p.state() == (Seq::<(Seq<char>, bool, nat, nat, int)>::empty(), 280int),
    {
        let p = Page { lines: Vec::new(), y: 280, steps: Ghost(0) };
        proof {
            assert(lines_view(p.lines@) =~= Seq::<(Seq<char>, bool, nat, nat, int)>::empty());
        }
        p
    }

    fn put(&mut self, text: String, bold: bool, size: u32, x: u32, lh: i64)
        requires
            old(self).wf(),
            old(self).steps@ < 1000,
            0 <= lh <= 10,
        ensures
            final(self).wf(),
            final(self).steps@ == old(self).steps@ + 1,
            final(self).state() == put(old(self).state(), text@, bold, size as nat, x as nat, lh as int),
    {
        let ghost before = self.lines@;
        let line = PdfLine { text, bold, size, x, y: self.y };
        self.lines.push(line);
        self.y = self.y - lh;
        proof {
            self.steps@ = self.steps@ + 1;
            assert(lines_view(self.lines@) =~= lines_view(before).push(line_view(line)));
        }
    }

    fn lower(&mut self, d: i64)
        requires
            old(self).wf(),
            old(self).steps@ < 1000,
            0 <= d <= 10,
        ensures
            final(self).wf(),
            final(self).steps@ == old(self).steps@ + 1,
            final(self).state() == lowered(old(self).state(), d as int),
    {
        self.y = self.y - d;
        proof {
            self.steps@ = self.steps@ + 1;
        }
    }

    fn body(&mut self, label: &str, value: &str, lh: i64)
        requires
            old(self).wf(),
            old(self).steps@ < 1000,
            0 <= lh <= 10,
        ensures
            final(self).wf(),
            final(self).steps@ == old(self).steps@ + 1,
            final(self).state() == body(old(self).state(), label@ + value@, lh as int),
    {
        let mut t = String::new();
        push_str(&mut t, label);
        push_str(&mut t, value);
        self.put(t, false, 10, 20, lh);
    }

    fn body_number(&mut self, label: &str, n: u64, lh: i64)
        requires
            old(self).wf(),
            old(self).steps@ < 1000,
            0 <= lh <= 10,
        ensures
            final(self).wf(),
            final(self).steps@ == old(self).steps@ + 1,
            final(self).state() == body(old(self).state(), label@ + decimal(n as nat), lh as int),
    {
        let mut t = String::new();
        push_str(&mut t, label);
        push_decimal(&mut t, n);
        self.put(t, false, 10, 20, lh);
    }

    fn heading(&mut self, title: &str)
        requires
            old(self).wf(),
            old(self).steps@ < 1000,
        ensures
            final(self).wf(),
            final(self).steps@ == old(self).steps@ + 1,
            final(self).state() == heading(old(self).state(), title@),
    {
        let mut t = String::new();
        push_str(&mut t, title);
        self.put(t, true, 14, 20, 6);
    }
}

/// Places the title, case information and acquisition details.
fn place_top(page: &mut Page, c: &AcquisitionConfig, r: &AcquisitionResult, start: Timestamp, end: Timestamp)
    requires
        old(page).wf(),
        old(page).steps@ <= 900,
        start.printable(),
        end.printable(),
    ensures
        final(page).wf(),
        final(page).steps@ <= old(page).steps@ + 20,
        final(page).state() == pdf_top(old(page).state(), *c, *r, start, end),
{
    let mut title = String::new();
    push_str(&mut title, "OpenForensic Acquisition Report");
    page.put(title, true, 18, 20, 10);
    page.lower(5);
    page.heading("Case Information");
    page.body("Case Number: ", c.case_number.as_str(), 5);
    page.body("Examiner: ", c.examiner.as_str(), 5);
    page.body("Evidence ID: ", c.evidence_id.as_str(), 5);
    page.body("Notes: ", c.notes.as_str(), 10);
    page.heading("Acquisition Details");
    let st = format_utc(start, "%Y-%m-%d %H:%M:%S");
    page.body("Start Time (UTC): ", st.as_str(), 5);
    let et = format_utc(end, "%Y-%m-%d %H:%M:%S");
    page.body("End Time (UTC): ", et.as_str(), 5);
    page.body("Imaging Mode: ", c.imaging_mode.as_str(), 5);
    page.body_number("Total Bytes Processed: ", r.bytes_read, 5);
    page.body_number("Bad Sectors Encountered: ", r.bad_sectors, 10);
}

/// Places the chain-of-custody section.
fn place_hashes(page: &mut Page, pre_hash: &Option<String>, d: &HashDigests)
    requires
        old(page).wf(),
        old(page).steps@ <= 900,
    ensures
        final(page).wf(),
        final(page).steps@ <= old(page).steps@ + 10,
        final(page).state() == pdf_hashes(old(page).state(), *pre_hash, *d),
{
    page.heading("Chain of Custody (Cryptographic Hashes)");
    match pre_hash {
        Some(p) => page.body("Pre-Acquisition Hash: ", p.as_str(), 5),
        None => {},
    }
    let ghost base = page.state();
    let ghost steps0 = page.steps@;
    let mut i: usize = 0;
    while i < 4
        invariant
            i <= 4,
            page.wf(),
            steps0 <= 902,
            page.steps@ <= steps0 + i,
            page.state() == hash_puts(base, *d, i as int),
        decreases 4 - i,
    {
        let a = algorithm_order(i);
        match d.get(a) {
            Some(h) => {
                let n = a.name();
                let mut t = String::new();
                push_str(&mut t, n.as_str());
                push_str(&mut t, " Hash: ");
                push_str(&mut t, h.as_str());
                page.put(t, false, 10, 20, 5);
            },
            None => {},
        }
        i += 1;
    }
    page.lower(5);
}

/// Places a list section whose entries are `items`; `shown` holds the
/// first twenty entries (all, when fewer).
fn place_list(page: &mut Page, title: &str, shown: &Vec<String>, total: usize, more: &str, Ghost(items): Ghost<Seq<Seq<char>>>)
    requires
        old(page).wf(),
        old(page).steps@ <= 900,
        total == items.len(),
        shown@.len() == if total < 20 { total } else { 20 },
        forall|i: int| 0 <= i < shown@.len() ==> (#[trigger] shown@[i])@ == items[i],
    ensures
        final(page).wf(),
        final(page).steps@ <= old(page).steps@ + 30,
        final(page).state() == list_section(old(page).state(), title@, items, more@),
{
    if total == 0 {
        return;
    }
    page.heading(title);
    let ghost s1 = page.state();
    let ghost steps1 = page.steps@;
    let mut i: usize = 0;
    while i < shown.len() && page.y >= 20
        invariant
            i <= shown@.len(),
            shown@.len() <= 20,
            shown@.len() == if total < 20 { total } else { 20 },
            total == items.len(),
            forall|k: int| 0 <= k < shown@.len() ==> (#[trigger] shown@[k])@ == items[k],
            page.wf(),
            steps1 <= 901,
            page.steps@ == steps1 + i,
            listed(page.state(), items, i as nat) == listed(s1, items, 0),
        decreases shown@.len() - i,
    {
        let t = shown[i].clone();
        page.put(t, false, 9, 25, 4);
        i += 1;
    }
    if total > 20 {
        let mut t = String::new();
        push_str(&mut t, "... and ");
        push_decimal(&mut t, (total - 20) as u64);
        push_str(&mut t, more);
        page.put(t, false, 9, 25, 4);
    }
    page.lower(5);
}

/// The entries of a keyword list, the first twenty at most.
fn keyword_entries(h: &Vec<(String, u64)>) -> (v: Vec<String>)
    ensures
        v@.len() == if h@.len() < 20 { h@.len() } else { 20 },
        forall|i: int| 0 <= i < v@.len() ==> (#[trigger] v@[i])@ == keyword_items(h@)[i],
{
    let mut v: Vec<String> = Vec::new();
    let mut i: usize = 0;
    while i < h.len() && i < 20
        invariant
            i <= h@.len(),
            i <= 20,
            v@.len() == i,
            forall|k: int| 0 <= k < i ==> (#[trigger] v@[k])@ == keyword_items(h@)[k],
        decreases h@.len() - i,
    {
        let mut t = String::new();
        push_decimal(&mut t, (i + 1) as u64);
        push_str(&mut t, ". ");
        push_str(&mut t, "'");
        push_str(&mut t, h[i].0.as_str());
        push_str(&mut t, "' at offset ");
        push_decimal(&mut t, h[i].1);
        proof {
            assert(t@ =~= keyword_items(h@)[i as int]);
        }
        v.push(t);
        i += 1;
    }
    v
}

/// Appends the tags of a rule hit.
fn push_tags(s: &mut String, tags: &Vec<String>)
    ensures
        final(s)@ == old(s)@ + tags_text(tags@),
{
    if tags.len() == 0 {
        proof {
            assert(final(s)@ =~= old(s)@ + tags_text(tags@));
        }
        return;
    }
    let ghost start = s@;
    push_str(s, " [");
    let ghost head = s@;
    let mut i: usize = 0;
    while i < tags.len()
        invariant
            i <= tags@.len(),
            s@ == head + joined_tags(tags@, i as int),
        decreases tags@.len() - i,
    {
        if i > 0 {
            push_str(s, ", ");
        }
        push_str(s, tags[i].as_str());
        proof {
            assert(s@ =~= head + joined_tags(tags@, i + 1));
        }
        i += 1;
    }
    push_str(s, "]");
    proof {
        assert(s@ =~= start + tags_text(tags@));
    }
}

/// The entries of a rule hit list, the first twenty at most.
fn yara_entries(h: &Vec<(String, Vec<String>, u64)>) -> (v: Vec<String>)
    ensures
        v@.len() == if h@.len() < 20 { h@.len() } else { 20 },
        forall|i: int| 0 <= i < v@.len() ==> (#[trigger] v@[i])@ == yara_items(h@)[i],
{
    let mut v: Vec<String> = Vec::new();
    let mut i: usize = 0;
    while i < h.len() && i < 20
        invariant
            i <= h@.len(),
            i <= 20,
            v@.len() == i,
            forall|k: int| 0 <= k < i ==> (#[trigger] v@[k])@ == yara_items(h@)[k],
        decreases h@.len() - i,
    {
        let mut t = String::new();
        push_decimal(&mut t, (i + 1) as u64);
        push_str(&mut t, ". ");
        push_str(&mut t, "Rule '");
        push_str(&mut t, h[i].0.as_str());
        push_str(&mut t, "'");
        push_tags(&mut t, &h[i].1);
        push_str(&mut t, " at offset ");
        push_decimal(&mut t, h[i].2);
        proof {
            assert(t@ =~= yara_items(h@)[i as int]);
        }
        v.push(t);
        i += 1;
    }
    v
}

/// The entries of a plugin result list, the first twenty at most.
fn plugin_entries(p: &Vec<(String, String)>, Ghost(pairs): Ghost<Seq<(String, String)>>) -> (v: Vec<String>)
    requires
        p@.len() == pairs.len(),
        forall|i: int| 0 <= i < p@.len() ==> (#[trigger] p@[i]).0@ == pairs[i].0@ && p@[i].1@ == pairs[i].1@,
    ensures
        v@.len() == if p@.len() < 20 { p@.len() } else { 20 },
        forall|i: int| 0 <= i < v@.len() ==> (#[trigger] v@[i])@ == plugin_items(pairs)[i],
{
    let mut v: Vec<String> = Vec::new();
    let mut i: usize = 0;
    while i < p.len() && i < 20
        invariant
            i <= p@.len(),
            i <= 20,
            v@.len() == i,
            p@.len() == pairs.len(),
            forall|k: int| 0 <= k < p@.len() ==> (#[trigger] p@[k]).0@ == pairs[k].0@ && p@[k].1@ == pairs[k].1@,
            forall|k: int| 0 <= k < i ==> (#[trigger] v@[k])@ == plugin_items(pairs)[k],
        decreases p@.len() - i,
    {
        let mut t = String::new();
        push_decimal(&mut t, (i + 1) as u64);
        push_str(&mut t, ". ");
        push_str(&mut t, p[i].0.as_str());
        push_str(&mut t, ": ");
        push_str(&mut t, p[i].1.as_str());
        proof {
            assert(p@[i as int].0@ == pairs[i as int].0@);
            assert(t@ =~= plugin_items(pairs)[i as int]);
        }
        v.push(t);
        i += 1;
    }
    v
}

/// The page of the PDF report of an acquisition run from `start` to
/// `end`, dated `now`: every line, in the order written.
pub fn pdf_report_lines(
    config: &AcquisitionConfig,
    result: &AcquisitionResult,
    start: Timestamp,
    end: Timestamp,
    now: Timestamp,
) -> (v: Vec<PdfLine>)
    requires
        start.printable(),
        end.printable(),
        now.printable(),
    ensures
        lines_view(v@) == pdf_layout(*config, *result, start, end, now),
{
    let mut page = Page::start();
    place_top(&mut page, config, result, start, end);
    place_hashes(&mut page, &config.pre_hash, &result.hashes);
    let kw = keyword_entries(&result.keyword_hits);
    place_list(&mut page, "Keyword Hits", &kw, result.keyword_hits.len(), " more hits.", Ghost(keyword_items(result.keyword_hits@)));
    let yr = yara_entries(&result.yara_hits);
    place_list(&mut page, "YARA Rule Hits", &yr, result.yara_hits.len(), " more YARA hits.", Ghost(yara_items(result.yara_hits@)));
    let pairs = result.plugin_results.entries();
    let pl = plugin_entries(&pairs, Ghost(result.plugin_results.pairs()));
    place_list(
        &mut page,
        "Plugin Results & Custom Hashes",
        &pl,
        pairs.len(),
        " more plugin results.",
        Ghost(plugin_items(result.plugin_results.pairs())),
    );
    page.lower(10);
    let mut sig = String::new();
    push_str(&mut sig, "Examiner Signature: _________________________________");
    page.put(sig, true, 12, 20, 6);
    let date = format_utc(now, "%Y-%m-%d");
    page.body("Date: ", date.as_str(), 6);
    page.lines
}

/// Where the PDF report of an acquisition is written.
#[derive(Debug)]
pub enum PdfTarget {
    /// A file of this name inside the destination folder.
    InFolder(String),
    /// The destination itself with its extension replaced by this one.
    Extension(String),
}

/// The PDF report beside a destination: "report.pdf" inside a folder;
/// else the destination with "_report.pdf" added to its extension
/// ("image.dd" becomes "image.dd_report.pdf"), or with "report.pdf" as
/// its extension when it has none.
pub fn pdf_report_target(dest_is_dir: bool, extension: Option<&str>) -> (t: PdfTarget)
    ensures
        match t {
            PdfTarget::InFolder(name) => dest_is_dir && name@ == "report.pdf"@,
            PdfTarget::Extension(e) => !dest_is_dir && e@ == match extension {
                Some(x) => x@ + "_report.pdf"@,
                None => "report.pdf"@,
            },
        },
{
    let mut s = String::new();
    if dest_is_dir {
        push_str(&mut s, "report.pdf");
        PdfTarget::InFolder(s)
    } else {
        match extension {
            Some(x) => {
                push_str(&mut s, x);
                push_str(&mut s, "_report.pdf");
            },
            None => push_str(&mut s, "report.pdf"),
        }
        PdfTarget::Extension(s)
    }
}

} // verus!
