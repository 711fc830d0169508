//! Acquisition of files the running system keeps locked: which files,
//! where they are read from (through a shadow copy when there is one),
//! the names their copies get, the copy of one file with its digests, and
//! the manifest of the run.

use vstd::prelude::*;
use crate::hasher::{HashAlgorithm, HashDigests, MultiHasher, hex_digest_of};
use crate::text::{
    push_str, push_decimal, decimal, replaced, replace_all, trim_end_char, trim_start_char,
    trim_end_matches_char, trim_start_matches_char,
};
use crate::report::{hash_lines, push_hash_lines, utc_rfc2822_text, to_utc_rfc2822, Timestamp, ln, push_line};

verus! {

/// The operating system whose locked files are acquired.
#[derive(Clone, Copy, Debug, PartialEq, Eq, Structural)]
pub enum TargetOs {
    Windows,
    Linux,
    MacOs,
}

/// The files acquired by default, relative to the system volume's root.
pub open spec fn default_locked_file_list(os: TargetOs) -> Seq<Seq<char>> {
    match os {
        TargetOs::Windows => seq![
            "Windows\\System32\\config\\SAM"@,
            "Windows\\System32\\config\\SECURITY"@,
            "Windows\\System32\\config\\SYSTEM"@,
            "Windows\\System32\\config\\SOFTWARE"@,
            "Windows\\System32\\config\\DEFAULT"@,
            "Windows\\System32\\config\\COMPONENTS"@,
            "Windows\\System32\\config\\BBI"@,
            "$MFT"@,
            "pagefile.sys"@,
            "hiberfil.sys"@,
            "swapfile.sys"@,
            "Windows\\System32\\winevt\\Logs\\System.evtx"@,
            "Windows\\System32\\winevt\\Logs\\Security.evtx"@,
            "Windows\\System32\\winevt\\Logs\\Application.evtx"@,
            "Windows\\AppCompat\\Programs\\Amcache.hve"@,
        ],
        TargetOs::Linux => seq![
            "etc/passwd"@,
            "etc/shadow"@,
            "etc/group"@,
            "etc/hosts"@,
            "etc/fstab"@,
            "var/log/auth.log"@,
            "var/log/syslog"@,
            "var/log/kern.log"@,
            "var/log/secure"@,
        ],
        TargetOs::MacOs => seq![
            "etc/passwd"@,
            "etc/hosts"@,
            "var/log/system.log"@,
            "var/log/install.log"@,
        ],
    }
}

/// A string holding `s`.
fn lit_string(s: &str) -> (r: String)
    ensures
        r@ == s@,
{
    let mut r = String::new();
    push_str(&mut r, s);
    r
}

/// The files acquired by default on `os`: registry hives, the MFT, paging
/// and hibernation files, event logs and Amcache on Windows; account,
/// host and log files on Linux and macOS.
pub fn default_locked_files(os: TargetOs) -> (v: Vec<String>)
    ensures
        v@.len() == default_locked_file_list(os).len(),
        forall|i: int| 0 <= i < v@.len() ==> (#[trigger] v@[i])@ == default_locked_file_list(os)[i],
{
    let mut v: Vec<String> = Vec::new();
    match os {
        TargetOs::Windows => {
            v.push(lit_string("Windows\\System32\\config\\SAM"));
            v.push(lit_string("Windows\\System32\\config\\SECURITY"));
            v.push(lit_string("Windows\\System32\\config\\SYSTEM"));
            v.push(lit_string("Windows\\System32\\config\\SOFTWARE"));
            v.push(lit_string("Windows\\System32\\config\\DEFAULT"));
            v.push(lit_string("Windows\\System32\\config\\COMPONENTS"));
            v.push(lit_string("Windows\\System32\\config\\BBI"));
            v.push(lit_string("$MFT"));
            v.push(lit_string("pagefile.sys"));
            v.push(lit_string("hiberfil.sys"));
            v.push(lit_string("swapfile.sys"));
            v.push(lit_string("Windows\\System32\\winevt\\Logs\\System.evtx"));
            v.push(lit_string("Windows\\System32\\winevt\\Logs\\Security.evtx"));
            v.push(lit_string("Windows\\System32\\winevt\\Logs\\Application.evtx"));
            v.push(lit_string("Windows\\AppCompat\\Programs\\Amcache.hve"));
        },
        TargetOs::Linux => {
            v.push(lit_string("etc/passwd"));
            v.push(lit_string("etc/shadow"));
            v.push(lit_string("etc/group"));
            v.push(lit_string("etc/hosts"));
            v.push(lit_string("etc/fstab"));
            v.push(lit_string("var/log/auth.log"));
            v.push(lit_string("var/log/syslog"));
            v.push(lit_string("var/log/kern.log"));
            v.push(lit_string("var/log/secure"));
        },
        TargetOs::MacOs => {
            v.push(lit_string("etc/passwd"));
            v.push(lit_string("etc/hosts"));
            v.push(lit_string("var/log/system.log"));
            v.push(lit_string("var/log/install.log"));
        },
    }
    v
}


/// Where a locked file is read from: through the shadow copy when there
/// is one (its path without trailing backslashes, a backslash, the
/// relative path without leading backslashes and slashes), else directly
/// on the system volume ("C:\<path>" on Windows, "/<path>" elsewhere).
pub open spec fn source_path_of(vss_device_path: Option<Seq<char>>, relative_path: Seq<char>, os: TargetOs) -> Seq<char> {
    match vss_device_path {
        Some(vss) => trim_end_char(vss, '\\') + "\\"@ + trim_start_char(
            trim_start_char(relative_path, '\\'),
            '/',
        ),
        None => if os == TargetOs::Windows {
            "C:\\"@ + relative_path
        } else {
            "/"@ + relative_path
        },
    }
}

/// The characters of an optional string.
pub open spec fn opt_view(o: Option<String>) -> Option<Seq<char>> {
    match o {
        Some(s) => Some(s@),
        None => None,
    }
}

/// The path a locked file is read from.
pub fn build_source_path(vss_device_path: &Option<String>, relative_path: &str, os: TargetOs) -> (p: String)
    ensures
        p@ == source_path_of(opt_view(*vss_device_path), relative_path@, os),
{
    match vss_device_path {
        Some(vss) => {
            let mut p = trim_end_matches_char(vss.as_str(), '\\');
            push_str(&mut p, "\\");
            let r1 = trim_start_matches_char(relative_path, '\\');
            let r2 = trim_start_matches_char(r1.as_str(), '/');
            push_str(&mut p, r2.as_str());
            p
        },
        None => {
            let mut p = String::new();
            if os == TargetOs::Windows {
                push_str(&mut p, "C:\\");
            } else {
                push_str(&mut p, "/");
            }
            push_str(&mut p, relative_path);
            p
        },
    }
}

/// The name of a locked file's copy: backslashes and slashes become
/// underscores and each '$' becomes "_DOLLAR_".
pub open spec fn safe_name_of(relative_path: Seq<char>) -> Seq<char> {
    replaced(replaced(replaced(relative_path, "\\"@, "_"@), "/"@, "_"@), "$"@, "_DOLLAR_"@)
}

/// The name of a locked file's copy.
pub fn safe_name(relative_path: &str) -> (n: String)
    ensures
        n@ == safe_name_of(relative_path@),
{
    proof {
        reveal_strlit("\\");
        reveal_strlit("/");
        reveal_strlit("$");
    }
    let a = replace_all(relative_path, "\\", "_");
    let b = replace_all(a.as_str(), "/", "_");
    replace_all(b.as_str(), "$", "_DOLLAR_")
}

/// Replacing a one-character pattern by text without the character `c`
/// leaves no `c` where there was none, and none of the pattern character.
proof fn lemma_replaced_free(s: Seq<char>, p: char, rep: Seq<char>, c: char)
    requires
        !rep.contains(c),
        !rep.contains(p),
    ensures
        !s.contains(c) || c == p ==> !replaced(s, seq![p], rep).contains(c),
        !replaced(s, seq![p], rep).contains(p),
    decreases s.len(),
{
    let pat = seq![p];
    if s.len() >= 1 {
        let r = replaced(s, pat, rep);
        let tail = s.subrange(1, s.len() as int);
        lemma_replaced_free(tail, p, rep, c);
        assert(s.subrange(pat.len() as int, s.len() as int) == tail);
        if s.subrange(0, 1) == pat {
            assert(s[0] == s.subrange(0, 1)[0]);
            assert(s[0] == p);
            assert(r == rep + replaced(tail, pat, rep));
            assert forall|k: int| 0 <= k < r.len() implies r[k] != p by {
                if k < rep.len() {
                    assert(r[k] == rep[k]);
                } else {
                    assert(r[k] == replaced(tail, pat, rep)[k - rep.len()]);
                }
            }
            if !s.contains(c) || c == p {
                if c != p {
                    assert forall|k: int| 0 <= k < tail.len() implies tail[k] != c by {
                        assert(tail[k] == s[k + 1]);
                    }
                }
                assert forall|k: int| 0 <= k < r.len() implies r[k] != c by {
                    if k < rep.len() {
                        assert(r[k] == rep[k]);
                    } else {
                        assert(r[k] == replaced(tail, pat, rep)[k - rep.len()]);
                    }
                }
            }
        } else {
            assert(s[0] != p) by {
                if s[0] == p {
                    assert(s.subrange(0, 1) =~= pat);
                }
            }
            assert(r == seq![s[0]] + replaced(tail, pat, rep));
            assert forall|k: int| 0 <= k < r.len() implies r[k] != p by {
                if k > 0 {
                    assert(r[k] == replaced(tail, pat, rep)[k - 1]);
                }
            }
            if !s.contains(c) || c == p {
                if c != p {
                    assert(s[0] != c);
                    assert forall|k: int| 0 <= k < tail.len() implies tail[k] != c by {
                        assert(tail[k] == s[k + 1]);
                    }
                }
                assert forall|k: int| 0 <= k < r.len() implies r[k] != c by {
                    if k > 0 {
                        assert(r[k] == replaced(tail, pat, rep)[k - 1]);
                    }
                }
            }
        }
    }
}

/// The name of a locked file's copy holds no backslash and no slash, so
/// every copy lands directly in the copy directory.
pub proof fn lemma_safe_name_flat(relative_path: Seq<char>)
    ensures
        !safe_name_of(relative_path).contains('\\'),
        !safe_name_of(relative_path).contains('/'),
{
    reveal_strlit("\\");
    reveal_strlit("/");
    reveal_strlit("$");
    reveal_strlit("_");
    reveal_strlit("_DOLLAR_");
    assert("\\"@ == seq!['\\']);
    assert("/"@ == seq!['/']);
    assert("$"@ == seq!['$']);
    let a = replaced(relative_path, "\\"@, "_"@);
    let b = replaced(a, "/"@, "_"@);
    lemma_replaced_free(relative_path, '\\', "_"@, '\\');
    lemma_replaced_free(a, '/', "_"@, '\\');
    lemma_replaced_free(a, '/', "_"@, '/');
    lemma_replaced_free(b, '$', "_DOLLAR_"@, '\\');
    lemma_replaced_free(b, '$', "_DOLLAR_"@, '/');
}


/// The outcome of copying one locked file.
#[derive(Clone, Debug)]
pub struct CopiedFileInfo {
    pub source_path: String,
    pub dest_path: String,
    pub size: u64,
    pub hashes: HashDigests,
    pub success: bool,
    pub error: Option<String>,
}

/// Settings of a locked-file acquisition.
#[derive(Clone, Debug)]
pub struct LockedFileCopyConfig {
    /// Directory the copies go to (under "locked_files").
    pub dest_dir: String,
    /// Digests computed of each file.
    pub hash_algorithms: Vec<HashAlgorithm>,
    /// The shadow copy's device path; files are read through it when given.
    pub vss_device_path: Option<String>,
    /// Files to copy instead of the defaults, when not empty.
    pub custom_files: Vec<String>,
}

/// The files a run copies: the configured ones, or the defaults of `os`
/// when none is configured.
pub open spec fn files_to_copy_list(config: LockedFileCopyConfig, os: TargetOs) -> Seq<Seq<char>> {
    if config.custom_files@.len() > 0 {
        config.custom_files@.map_values(|f: String| f@)
    } else {
        default_locked_file_list(os)
    }
}

/// The files a run copies.
pub fn files_to_copy(config: &LockedFileCopyConfig, os: TargetOs) -> (v: Vec<String>)
    ensures
        v@.len() == files_to_copy_list(*config, os).len(),
        forall|i: int| 0 <= i < v@.len() ==> (#[trigger] v@[i])@ == files_to_copy_list(*config, os)[i],
{
    if config.custom_files.len() > 0 {
        let mut v: Vec<String> = Vec::new();
        let mut i: usize = 0;
        while i < config.custom_files.len()
            invariant
                i <= config.custom_files@.len(),
                config.custom_files@.len() > 0,
                v@.len() == i,
                forall|k: int| 0 <= k < i ==> (#[trigger] v@[k])@ == config.custom_files@[k]@,
            decreases config.custom_files@.len() - i,
        {
            v.push(config.custom_files[i].clone());
            i += 1;
        }
        v
    } else {
        default_locked_files(os)
    }
}

/// The copy of one file in progress: the bytes copied and their digests.
pub struct FileCopy {
    total: u64,
    hasher: MultiHasher,
}

/// What to do when a read of the file fails.
pub open spec fn read_failure_outcome(copied: nat, message: Seq<char>) -> Option<Seq<char>> {
    if copied > 0 {
        None
    } else {
        Some("Read error: "@ + message)
    }
}

impl FileCopy {
    /// The bytes copied so far.
    pub closed spec fn copied(&self) -> Seq<u8> {
        self.hasher.data()
    }

    /// Whether the copy computes a digest under `a`.
    pub closed spec fn computes(&self, a: HashAlgorithm) -> bool {
        self.hasher.computes(a)
    }

    /// Internal consistency.
    pub closed spec fn wf(&self) -> bool {
        self.hasher.wf() && self.hasher.data().len() == self.total
    }

    /// A copy that has copied nothing yet.
    pub fn new(algorithms: &[HashAlgorithm]) -> (c: Self)
        ensures
            c.wf(),
            c.copied() == Seq::<u8>::empty(),
            forall|a: HashAlgorithm| c.computes(a) <==> algorithms@.contains(a),
    {
        FileCopy { total: 0, hasher: MultiHasher::new(algorithms) }
    }

    /// Records a chunk read and written.
    pub fn copied_chunk(&mut self, data: &[u8])
        requires
            old(self).wf(),
            old(self).copied().len() + data@.len() <= u64::MAX,
        ensures
            final(self).wf(),
            final(self).copied() == old(self).copied() + data@,
            forall|a: HashAlgorithm| final(self).computes(a) == old(self).computes(a),
    {
        self.hasher.update(data);
        self.total = self.total + data.len() as u64;
    }

    /// Decides after a failed read: `None` to stop and keep what was
    /// copied (a partly read locked file is still evidence), or the error
    /// when nothing was copied.
    pub fn read_failed(&self, message: &str) -> (r: Option<String>)
        requires
            self.wf(),
        ensures
            match r {
                Some(e) => read_failure_outcome(self.copied().len(), message@) == Some(e@),
                None => read_failure_outcome(self.copied().len(), message@) is None,
            },
    {
        if self.total > 0 {
            None
        } else {
            let mut e = String::new();
            push_str(&mut e, "Read error: ");
            push_str(&mut e, message);
            Some(e)
        }
    }

    /// The size copied and the digests of the bytes copied.
    pub fn finish(self) -> (r: (u64, HashDigests))
        requires
            self.wf(),
        ensures
            r.0 == self.copied().len(),
            forall|a: HashAlgorithm|
                #[trigger] r.1.lookup(a) == if self.computes(a) {
                    Some(hex_digest_of(a, self.copied()))
                } else {
                    None
                },
    {
        let total = self.total;
        (total, self.hasher.finalize())
    }
}

impl CopiedFileInfo {
    /// The record of one copy from `source_path` to `dest_path`: its size
    /// and digests when it succeeded, its error (with no size and no
    /// digests) when it failed.
    pub fn from_outcome(source_path: String, dest_path: String, outcome: Result<(u64, HashDigests), String>) -> (i: Self)
        ensures
            i.source_path@ == source_path@,
            i.dest_path@ == dest_path@,
            outcome is Ok ==> i.success && i.size == outcome->Ok_0.0 && i.hashes == outcome->Ok_0.1
                && i.error is None,
            outcome is Err ==> !i.success && i.size == 0 && i.error is Some
                && i.error->Some_0@ == outcome->Err_0@,
            outcome is Err ==> forall|a: HashAlgorithm| i.hashes.lookup(a) is None,
    {
        match outcome {
            Ok((size, hashes)) => CopiedFileInfo { source_path, dest_path, size, hashes, success: true, error: None },
            Err(e) => CopiedFileInfo {
                source_path,
                dest_path,
                size: 0,
                hashes: HashDigests::new(),
                success: false,
                error: Some(e),
            },
        }
    }
}

/// Number of successful copies among the first `k`.
pub open spec fn successes(infos: Seq<CopiedFileInfo>, k: int) -> nat
    decreases k,
{
    if k <= 0 {
        0
    } else {
        successes(infos, k - 1) + if infos[k - 1].success { 1nat } else { 0nat }
    }
}

/// The successes never outnumber the copies.
proof fn lemma_successes_bound(infos: Seq<CopiedFileInfo>, k: int)
    requires
        0 <= k <= infos.len(),
    ensures
        successes(infos, k) <= k,
    decreases k,
{
    if k > 0 {
        lemma_successes_bound(infos, k - 1);
    }
}

/// Law of the copy counts: the successes among the first `k` records are
/// exactly the records among them whose copy succeeded, and the rest are
/// exactly those whose copy failed.
pub proof fn lemma_successes_count_successful_copies(infos: Seq<CopiedFileInfo>, k: int)
    requires
        0 <= k <= infos.len(),
    ensures
        successes(infos, k) == infos.take(k).filter(|i: CopiedFileInfo| i.success).len(),
        k - successes(infos, k) == infos.take(k).filter(|i: CopiedFileInfo| !i.success).len(),
    decreases k,
{
    reveal(Seq::filter);
    if k > 0 {
        lemma_successes_count_successful_copies(infos, k - 1);
        let t = infos.take(k);
        let ok = |i: CopiedFileInfo| i.success;
        let bad = |i: CopiedFileInfo| !i.success;
        assert(t.drop_last() =~= infos.take(k - 1));
        assert(t.last() == infos[k - 1]);
        assert(t.filter(ok) == if ok(t.last()) {
            t.drop_last().filter(ok).push(t.last())
        } else {
            t.drop_last().filter(ok)
        });
        assert(t.filter(bad) == if bad(t.last()) {
            t.drop_last().filter(bad).push(t.last())
        } else {
            t.drop_last().filter(bad)
        });
    } else {
        assert(infos.take(0) =~= Seq::<CopiedFileInfo>::empty());
        assert(infos.take(0).filter(|i: CopiedFileInfo| i.success).len() == 0);
        assert(infos.take(0).filter(|i: CopiedFileInfo| !i.success).len() == 0);
    }
}

/// The numbers of successful and failed copies.
pub fn copy_counts(infos: &Vec<CopiedFileInfo>) -> (r: (usize, usize))
    ensures
        r.0 == successes(infos@, infos@.len() as int),
        r.0 + r.1 == infos@.len(),
        r.0 == infos@.filter(|i: CopiedFileInfo| i.success).len(),
        r.1 == infos@.filter(|i: CopiedFileInfo| !i.success).len(),
{
    proof {
        lemma_successes_count_successful_copies(infos@, infos@.len() as int);
        assert(infos@.take(infos@.len() as int) =~= infos@);
    }
    let mut ok: usize = 0;
    let mut i: usize = 0;
    while i < infos.len()
        invariant
            i <= infos@.len(),
            ok == successes(infos@, i as int),
            ok <= i,
        decreases infos@.len() - i,
    {
        if infos[i].success {
            ok += 1;
        }
        i += 1;
    }
    (ok, infos.len() - ok)
}

/// One entry of the locked-file manifest.
pub open spec fn manifest_entry(info: CopiedFileInfo) -> Seq<char> {
    ln(
        "["@ + (if info.success { "OK"@ } else { "FAILED"@ }) + "] "@ + info.source_path@ + " -> "@
            + info.dest_path@ + " ("@ + decimal(info.size as nat) + " bytes)"@,
    ) + (if info.success { hash_lines(info.hashes) } else { Seq::empty() }) + match info.error {
        Some(e) => ln("  Error: "@ + e@),
        None => Seq::empty(),
    }
}

/// The entries of the first `k` copies.
pub open spec fn manifest_entries(infos: Seq<CopiedFileInfo>, k: int) -> Seq<char>
    decreases k,
{
    if k <= 0 {
        Seq::empty()
    } else {
        manifest_entries(infos, k - 1) + manifest_entry(infos[k - 1])
    }
}

/// The head of the locked-file manifest: title, date, shadow copy and counts.
pub open spec fn manifest_head(now: Timestamp, vss: Option<Seq<char>>, total: nat, ok: nat) -> Seq<char> {
    ln("=== FORGELENS LOCKED FILE ACQUISITION MANIFEST ==="@) + ln("Date: "@ + utc_rfc2822_text(now.secs, now.nanos))
        + ln("VSS Path: "@ + match vss {
        Some(p) => p,
        None => "N/A (direct access)"@,
    }) + ln(
        "Total Files: "@ + decimal(total) + " (Success: "@ + decimal(ok) + ", Failed: "@ + decimal(
            (total - ok) as nat,
        ) + ")"@,
    ) + ln("---------------------------------------------------"@)
}

/// The manifest of a locked-file run written at `now`.
pub open spec fn locked_manifest_text(now: Timestamp, vss: Option<Seq<char>>, infos: Seq<CopiedFileInfo>) -> Seq<char> {
    manifest_head(now, vss, infos.len(), successes(infos, infos.len() as int)) + manifest_entries(
        infos,
        infos.len() as int,
    ) + ln("=== END OF MANIFEST ==="@)
}

/// Appends the head of the manifest.
fn push_manifest_head(s: &mut String, now: Timestamp, vss_device_path: &Option<String>, total: u64, ok: u64)
    requires
        now.printable(),
        ok <= total,
    ensures
        final(s)@ == old(s)@ + manifest_head(now, opt_view(*vss_device_path), total as nat, ok as nat),
{
    let ghost start = old(s)@;
    push_line(s, "=== FORGELENS LOCKED FILE ACQUISITION MANIFEST ===");
    let date = to_utc_rfc2822(now);
    push_str(s, "Date: ");
    push_str(s, date.as_str());
    push_str(s, "\n");
    let ghost a = s@;
    proof {
        assert(a =~= start + ln("=== FORGELENS LOCKED FILE ACQUISITION MANIFEST ==="@) + ln(
            "Date: "@ + utc_rfc2822_text(now.secs, now.nanos),
        ));
    }
    push_str(s, "VSS Path: ");
    match vss_device_path {
        Some(p) => push_str(s, p.as_str()),
        None => push_str(s, "N/A (direct access)"),
    }
    push_str(s, "\n");
    let ghost b = s@;
    proof {
        assert(b =~= a + ln("VSS Path: "@ + match opt_view(*vss_device_path) {
            Some(p) => p,
            None => "N/A (direct access)"@,
        }));
    }
    push_str(s, "Total Files: ");
    push_decimal(s, total);
    push_str(s, " (Success: ");
    push_decimal(s, ok);
    push_str(s, ", Failed: ");
    push_decimal(s, total - ok);
    push_str(s, ")");
    push_str(s, "\n");
    let ghost c = s@;
    push_line(s, "---------------------------------------------------");
    proof {
        assert(c =~= b + ln(
            "Total Files: "@ + decimal(total as nat) + " (Success: "@ + decimal(ok as nat) + ", Failed: "@
                + decimal((total - ok) as nat) + ")"@,
        ));
        assert(s@ =~= start + manifest_head(now, opt_view(*vss_device_path), total as nat, ok as nat));
    }
}

/// Appends one manifest entry.
fn push_manifest_entry(s: &mut String, info: &CopiedFileInfo)
    ensures
        final(s)@ == old(s)@ + manifest_entry(*info),
{
    let ghost start = old(s)@;
    push_str(s, "[");
    if info.success {
        push_str(s, "OK");
    } else {
        push_str(s, "FAILED");
    }
    push_str(s, "] ");
    push_str(s, info.source_path.as_str());
    push_str(s, " -> ");
    push_str(s, info.dest_path.as_str());
    push_str(s, " (");
    push_decimal(s, info.size);
    push_str(s, " bytes)");
    push_str(s, "\n");
    let ghost a = s@;
    if info.success {
        push_hash_lines(s, &info.hashes);
    }
    let ghost b = s@;
    match &info.error {
        Some(e) => {
            push_str(s, "  Error: ");
            push_str(s, e.as_str());
            push_str(s, "\n");
        },
        None => {},
    }
    proof {
        assert(s@ =~= start + manifest_entry(*info));
    }
}

/// The manifest of a locked-file run written at `now`.
pub fn locked_manifest(now: Timestamp, vss_device_path: &Option<String>, infos: &Vec<CopiedFileInfo>) -> (s: String)
    requires
        now.printable(),
    ensures
        s@ == locked_manifest_text(now, opt_view(*vss_device_path), infos@),
{
    let (ok, failed) = copy_counts(infos);
    let mut s = String::new();
    push_manifest_head(&mut s, now, vss_device_path, infos.len() as u64, ok as u64);
    let ghost head = s@;
    let mut i: usize = 0;
    while i < infos.len()
        invariant
            i <= infos@.len(),
            s@ == head + manifest_entries(infos@, i as int),
        decreases infos@.len() - i,
    {
        push_manifest_entry(&mut s, &infos[i]);
        proof {
            assert(s@ =~= head + manifest_entries(infos@, i + 1));
        }
        i += 1;
    }
    push_line(&mut s, "=== END OF MANIFEST ===");
    proof {
        assert(s@ =~= locked_manifest_text(now, opt_view(*vss_device_path), infos@));
    }
    s
}

} // verus!
