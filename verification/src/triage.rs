//! Live triage: the programs run and the files gathered from a running
//! system, the network table read from `netstat`, the lines logged along
//! the way and the summary written at the end.

use vstd::prelude::*;
use crate::text::{push_str, trim, trimmed, lines, lines_of, split_whitespace, words_of, parse_u32, parsed_unsigned};
use crate::locked_files::TargetOs;
use crate::ram::ProgramCall;
use crate::report::{Timestamp, utc_rfc2822_text, to_utc_rfc2822, push_signed, signed_decimal, hash_lines, push_hash_lines};
use crate::hasher::HashDigests;
use crate::text::{decimal, push_decimal};

verus! {

// Programs run
// ---------------------------------------------------------------------

/// A string holding `t`.
fn owned(t: &str) -> (s: String)
    ensures
        s@ == t@,
{
    let mut s = String::new();
    push_str(&mut s, t);
    s
}

/// A program run without arguments.
fn bare_call(program: &str) -> (c: ProgramCall)
    ensures
        c.program@ == program@,
        c.args@.len() == 0,
{
    ProgramCall { program: owned(program), args: Vec::new() }
}

/// A program run with one argument.
fn call_with(program: &str, arg: &str) -> (c: ProgramCall)
    ensures
        c.program@ == program@,
        c.args@.len() == 1,
        c.args@[0]@ == arg@,
{
    let mut args: Vec<String> = Vec::new();
    args.push(owned(arg));
    ProgramCall { program: owned(program), args }
}

/// The running processes: `tasklist` on Windows, `ps ax` elsewhere.
pub fn process_list_call(os: TargetOs) -> (c: ProgramCall)
    ensures
        os == TargetOs::Windows ==> c.program@ == "tasklist"@ && c.args@.len() == 0,
        os != TargetOs::Windows ==> c.program@ == "ps"@ && c.args@.len() == 1 && c.args@[0]@ == "ax"@,
{
    match os {
        TargetOs::Windows => bare_call("tasklist"),
        _ => call_with("ps", "ax"),
    }
}

/// The network table: `netstat -ano` on Windows (with owning process),
/// `netstat -an` elsewhere.
pub fn netstat_call(os: TargetOs) -> (c: ProgramCall)
    ensures
        c.program@ == "netstat"@,
        c.args@.len() == 1,
        os == TargetOs::Windows ==> c.args@[0]@ == "-ano"@,
        os != TargetOs::Windows ==> c.args@[0]@ == "-an"@,
{
    match os {
        TargetOs::Windows => call_with("netstat", "-ano"),
        _ => call_with("netstat", "-an"),
    }
}

/// The loaded kernel modules: `driverquery` on Windows, `kextstat` on
/// macOS, `lsmod` on Linux.
pub fn loaded_modules_call(os: TargetOs) -> (c: ProgramCall)
    ensures
        c.args@.len() == 0,
        c.program@ == match os {
            TargetOs::Windows => "driverquery"@,
            TargetOs::MacOs => "kextstat"@,
            TargetOs::Linux => "lsmod"@,
        },
{
    match os {
        TargetOs::Windows => bare_call("driverquery"),
        TargetOs::MacOs => bare_call("kextstat"),
        TargetOs::Linux => bare_call("lsmod"),
    }
}

/// The system description: `systeminfo` on Windows, `uname -a` elsewhere.
pub fn system_info_call(os: TargetOs) -> (c: ProgramCall)
    ensures
        os == TargetOs::Windows ==> c.program@ == "systeminfo"@ && c.args@.len() == 0,
        os != TargetOs::Windows ==> c.program@ == "uname"@ && c.args@.len() == 1 && c.args@[0]@ == "-a"@,
{
    match os {
        TargetOs::Windows => bare_call("systeminfo"),
        _ => call_with("uname", "-a"),
    }
}

/// A registry key exported to a file.
#[derive(Clone, Debug)]
pub struct RegistryExport {
    pub key: String,
    /// Where the key is written, in the registry folder.
    pub hive_file: String,
    /// Where the export's own output is kept, in the registry folder.
    pub log_file: String,
}

/// The registry keys exported on Windows, each with its file names.
pub open spec fn registry_export_list() -> Seq<(Seq<char>, Seq<char>, Seq<char>)> {
    seq![
        ("HKLM\\SYSTEM"@, "system_hive.reg"@, "system_export_log.txt"@),
        ("HKLM\\SAM"@, "sam_hive.reg"@, "sam_export_log.txt"@),
        ("HKLM\\SOFTWARE\\Microsoft\\Windows\\CurrentVersion\\Run"@, "run_keys.reg"@, "run_keys_export_log.txt"@),
    ]
}

fn registry_export(key: &str, hive_file: &str, log_file: &str) -> (r: RegistryExport)
    ensures
        r.key@ == key@,
        r.hive_file@ == hive_file@,
        r.log_file@ == log_file@,
{
    RegistryExport { key: owned(key), hive_file: owned(hive_file), log_file: owned(log_file) }
}

/// The registry keys exported on Windows.
pub fn registry_exports() -> (v: Vec<RegistryExport>)
    ensures
        v@.len() == registry_export_list().len(),
        forall|i: int|
            0 <= i < v@.len() ==> ((#[trigger] v@[i]).key@, v@[i].hive_file@, v@[i].log_file@)
                == registry_export_list()[i],
{
    let mut v: Vec<RegistryExport> = Vec::new();
    v.push(registry_export("HKLM\\SYSTEM", "system_hive.reg", "system_export_log.txt"));
    v.push(registry_export("HKLM\\SAM", "sam_hive.reg", "sam_export_log.txt"));
    v.push(
        registry_export("HKLM\\SOFTWARE\\Microsoft\\Windows\\CurrentVersion\\Run", "run_keys.reg", "run_keys_export_log.txt"),
    );
    v
}

/// `reg export <key> <destination> /y`.
pub fn registry_export_call(key: &str, destination: &str) -> (c: ProgramCall)
    ensures
        c.program@ == "reg"@,
        c.args@.len() == 4,
        c.args@[0]@ == "export"@,
        c.args@[1]@ == key@,
        c.args@[2]@ == destination@,
        c.args@[3]@ == "/y"@,
{
    let mut args: Vec<String> = Vec::new();
    args.push(owned("export"));
    args.push(owned(key));
    args.push(owned(destination));
    args.push(owned("/y"));
    ProgramCall { program: owned("reg"), args }
}

/// The configuration files copied on Linux and macOS.
pub open spec fn config_file_list() -> Seq<Seq<char>> {
    seq!["/etc/passwd"@, "/etc/hosts"@, "/etc/resolv.conf"@, "/etc/fstab"@]
}

/// The configuration files copied on Linux and macOS.
pub fn config_files() -> (v: Vec<String>)
    ensures
        v@.len() == config_file_list().len(),
        forall|i: int| 0 <= i < v@.len() ==> (#[trigger] v@[i])@ == config_file_list()[i],
{
    let mut v: Vec<String> = Vec::new();
    v.push(owned("/etc/passwd"));
    v.push(owned("/etc/hosts"));
    v.push(owned("/etc/resolv.conf"));
    v.push(owned("/etc/fstab"));
    v
}

/// The event logs exported on Windows: channel, file and export log.
pub open spec fn event_log_export_list() -> Seq<(Seq<char>, Seq<char>, Seq<char>)> {
    seq![
        ("System"@, "System.evtx"@, "system_logs_export_log.txt"@),
        ("Security"@, "Security.evtx"@, "security_logs_export_log.txt"@),
    ]
}

/// The event logs exported on Windows, as channel, file and export log.
pub fn event_log_exports() -> (v: Vec<(String, String, String)>)
    ensures
        v@.len() == event_log_export_list().len(),
        forall|i: int|
            0 <= i < v@.len() ==> ((#[trigger] v@[i]).0@, v@[i].1@, v@[i].2@) == event_log_export_list()[i],
{
    let mut v: Vec<(String, String, String)> = Vec::new();
    v.push((owned("System"), owned("System.evtx"), owned("system_logs_export_log.txt")));
    v.push((owned("Security"), owned("Security.evtx"), owned("security_logs_export_log.txt")));
    v
}

/// `wevtutil epl <channel> <destination>`.
pub fn event_log_export_call(channel: &str, destination: &str) -> (c: ProgramCall)
    ensures
        c.program@ == "wevtutil"@,
        c.args@.len() == 3,
        c.args@[0]@ == "epl"@,
        c.args@[1]@ == channel@,
        c.args@[2]@ == destination@,
{
    let mut args: Vec<String> = Vec::new();
    args.push(owned("epl"));
    args.push(owned(channel));
    args.push(owned(destination));
    ProgramCall { program: owned("wevtutil"), args }
}

/// The system logs copied on Linux and macOS.
pub open spec fn system_log_list() -> Seq<Seq<char>> {
    seq!["/var/log/syslog"@, "/var/log/auth.log"@, "/var/log/secure"@, "/var/log/messages"@, "/var/log/kern.log"@]
}

/// The system logs copied on Linux and macOS.
pub fn system_logs() -> (v: Vec<String>)
    ensures
        v@.len() == system_log_list().len(),
        forall|i: int| 0 <= i < v@.len() ==> (#[trigger] v@[i])@ == system_log_list()[i],
{
    let mut v: Vec<String> = Vec::new();
    v.push(owned("/var/log/syslog"));
    v.push(owned("/var/log/auth.log"));
    v.push(owned("/var/log/secure"));
    v.push(owned("/var/log/messages"));
    v.push(owned("/var/log/kern.log"));
    v
}

// Browser history
// ---------------------------------------------------------------------

/// The folder a browser's profile path is relative to.
#[derive(Clone, Copy, Debug, PartialEq, Eq, Structural)]
pub enum ProfileBase {
    /// `LOCALAPPDATA` (Windows).
    LocalAppData,
    /// `HOME` (Linux and macOS).
    Home,
}

/// A browser history database to copy.
#[derive(Clone, Debug)]
pub struct HistorySource {
    pub base: ProfileBase,
    pub relative_path: String,
    /// The copy's name in the browsers folder.
    pub copy_name: String,
    pub label: String,
}

/// The history databases looked for: base, path, copy name and label.
pub open spec fn history_source_list(os: TargetOs) -> Seq<(ProfileBase, Seq<char>, Seq<char>, Seq<char>)> {
    match os {
        TargetOs::Windows => seq![
            (ProfileBase::LocalAppData, "Google/Chrome/User Data/Default/History"@, "chrome_history"@, "Chrome"@),
            (ProfileBase::LocalAppData, "Microsoft/Edge/User Data/Default/History"@, "edge_history"@, "Edge"@),
        ],
        TargetOs::MacOs => seq![
            (ProfileBase::Home, "Library/Application Support/Google/Chrome/Default/History"@, "chrome_history"@,
            "macOS Chrome"@),
        ],
        TargetOs::Linux => seq![
            (ProfileBase::Home, ".config/google-chrome/Default/History"@, "chrome_history"@, "Linux Chrome"@),
        ],
    }
}

fn history_source(base: ProfileBase, relative_path: &str, copy_name: &str, label: &str) -> (h: HistorySource)
    ensures
        h.base == base,
        h.relative_path@ == relative_path@,
        h.copy_name@ == copy_name@,
        h.label@ == label@,
{
    HistorySource { base, relative_path: owned(relative_path), copy_name: owned(copy_name), label: owned(label) }
}

/// The browser history databases looked for on `os`.
pub fn history_sources(os: TargetOs) -> (v: Vec<HistorySource>)
    ensures
        v@.len() == history_source_list(os).len(),
        forall|i: int|
            0 <= i < v@.len() ==> ((#[trigger] v@[i]).base, v@[i].relative_path@, v@[i].copy_name@,
            v@[i].label@) == history_source_list(os)[i],
{
    let mut v: Vec<HistorySource> = Vec::new();
    match os {
        TargetOs::Windows => {
            v.push(
                history_source(ProfileBase::LocalAppData, "Google/Chrome/User Data/Default/History", "chrome_history", "Chrome"),
            );
            v.push(
                history_source(ProfileBase::LocalAppData, "Microsoft/Edge/User Data/Default/History", "edge_history", "Edge"),
            );
        },
        TargetOs::MacOs => {
            v.push(
                history_source(
                    ProfileBase::Home,
                    "Library/Application Support/Google/Chrome/Default/History",
                    "chrome_history",
                    "macOS Chrome",
                ),
            );
        },
        TargetOs::Linux => {
            v.push(
                history_source(ProfileBase::Home, ".config/google-chrome/Default/History", "chrome_history", "Linux Chrome"),
            );
        },
    }
    v
}

/// Logged when a history database was copied.
pub fn history_copied_message(label: &str) -> (s: String)
    ensures
        s@ == "[TRIAGE] Successfully copied "@ + label@ + " history database."@,
{
    let mut s = owned("[TRIAGE] Successfully copied ");
    push_str(&mut s, label);
    push_str(&mut s, " history database.");
    s
}

/// Logged when a system log was copied.
pub fn log_copied_message(source: &str) -> (s: String)
    ensures
        s@ == "[TRIAGE] Successfully copied log file: "@ + source@,
{
    let mut s = owned("[TRIAGE] Successfully copied log file: ");
    push_str(&mut s, source);
    s
}

// Commands run into files
// ---------------------------------------------------------------------

/// The arguments joined by single spaces.
pub open spec fn spaced(args: Seq<String>, k: int) -> Seq<char>
    decreases k,
{
    if k <= 0 {
        Seq::empty()
    } else if k == 1 {
        args[0]@
    } else {
        spaced(args, k - 1) + " "@ + args[k - 1]@
    }
}

/// Logged before a command runs: "[TRIAGE] Executing command: <program> <args>".
pub fn executing_message(call: &ProgramCall) -> (s: String)
    ensures
        s@ == "[TRIAGE] Executing command: "@ + call.program@ + " "@ + spaced(call.args@, call.args@.len() as int),
{
    let mut s = owned("[TRIAGE] Executing command: ");
    push_str(&mut s, call.program.as_str());
    push_str(&mut s, " ");
    let ghost head = s@;
    let mut i: usize = 0;
    while i < call.args.len()
        invariant
            i <= call.args@.len(),
            s@ == head + spaced(call.args@, i as int),
        decreases call.args@.len() - i,
    {
        if i > 0 {
            push_str(&mut s, " ");
        }
        push_str(&mut s, call.args[i].as_str());
        proof {
            assert(s@ =~= head + spaced(call.args@, i + 1));
        }
        i += 1;
    }
    s
}

/// Logged when a command succeeded.
pub fn command_done_message(program: &str) -> (s: String)
    ensures
        s@ == "[TRIAGE] Command '"@ + program@ + "' completed successfully."@,
{
    let mut s = owned("[TRIAGE] Command '");
    push_str(&mut s, program);
    push_str(&mut s, "' completed successfully.");
    s
}

/// The first line of the output file of a command that failed; the exit
/// code is -1 where the process gave none.
pub fn failed_status_line(code: Option<i32>) -> (s: String)
    ensures
        s@ == "=== ERROR: Command returned non-zero status "@ + signed_decimal(
            match code {
                Some(c) => c as int,
                None => -1,
            },
        ) + " ==="@,
{
    let mut s = owned("=== ERROR: Command returned non-zero status ");
    let c: i64 = match code {
        Some(c) => c as i64,
        None => -1,
    };
    push_signed(&mut s, c);
    push_str(&mut s, " ===");
    s
}

/// Logged when a command failed, with its error output trimmed.
pub fn command_failed_message(program: &str, stderr: &str) -> (s: String)
    ensures
        s@ == "[TRIAGE] Warning: Command '"@ + program@ + "' failed: "@ + trimmed(stderr@),
{
    let mut s = owned("[TRIAGE] Warning: Command '");
    push_str(&mut s, program);
    push_str(&mut s, "' failed: ");
    let t = trim(stderr);
    push_str(&mut s, t.as_str());
    s
}

/// The output file's text when a command could not be started.
pub fn start_failure_text(program: &str, reason: &str) -> (s: String)
    ensures
        s@ == "=== ERROR: Failed to start command '"@ + program@ + "' ===\nReason: "@ + reason@ + "\n"@,
{
    let mut s = owned("=== ERROR: Failed to start command '");
    push_str(&mut s, program);
    push_str(&mut s, "' ===\nReason: ");
    push_str(&mut s, reason);
    push_str(&mut s, "\n");
    s
}

/// Logged when a command could not be started.
pub fn start_failure_message(program: &str, reason: &str) -> (s: String)
    ensures
        s@ == "[TRIAGE] Warning: Failed to execute '"@ + program@ + "': "@ + reason@,
{
    let mut s = owned("[TRIAGE] Warning: Failed to execute '");
    push_str(&mut s, program);
    push_str(&mut s, "': ");
    push_str(&mut s, reason);
    s
}

// The network table
// ---------------------------------------------------------------------

/// One connection of the network table.
#[derive(Clone, Debug)]
pub struct NetConnection {
    pub protocol: String,
    pub local_address: String,
    pub foreign_address: String,
    /// Empty where the row has no state column.
    pub state: String,
    /// 0 where the process column is not a number.
    pub pid: u32,
}

/// A connection as plain values.
pub open spec fn connection_view(c: NetConnection) -> (Seq<char>, Seq<char>, Seq<char>, Seq<char>, nat) {
    (c.protocol@, c.local_address@, c.foreign_address@, c.state@, c.pid as nat)
}

/// The process id a column gives: the number, or 0.
pub open spec fn pid_of(s: Seq<char>) -> nat {
    match parsed_unsigned(s, u32::MAX as nat) {
        Some(v) => v,
        None => 0,
    }
}

/// The connection a row's columns give, where there are at least four:
/// protocol, local and foreign address, then state and process where
/// there are more than four, else the process alone.
pub open spec fn row_connection(w: Seq<Seq<char>>) -> Option<(Seq<char>, Seq<char>, Seq<char>, Seq<char>, nat)> {
    if w.len() < 4 {
        None
    } else if w.len() > 4 {
        Some((w[0], w[1], w[2], w[3], pid_of(w[4])))
    } else {
        Some((w[0], w[1], w[2], Seq::empty(), pid_of(w[3])))
    }
}

/// The connections of the table's rows, in order.
pub open spec fn table_connections(rows: Seq<Seq<char>>) -> Seq<(Seq<char>, Seq<char>, Seq<char>, Seq<char>, nat)>
    decreases rows.len(),
{
    if rows.len() == 0 {
        Seq::empty()
    } else {
        let rest = table_connections(rows.drop_last());
        match row_connection(words_of(rows.last())) {
            Some(c) => rest.push(c),
            None => rest,
        }
    }
}

/// The rows of `netstat` output: its lines after the first four.
pub open spec fn table_rows(output: Seq<char>) -> Seq<Seq<char>> {
    let ls = lines_of(output);
    if ls.len() <= 4 {
        Seq::empty()
    } else {
        ls.subrange(4, ls.len() as int)
    }
}

/// The connection a row gives, if it has at least four columns.
pub fn parse_netstat_row(line: &str) -> (r: Option<NetConnection>)
    ensures
        match r {
            Some(c) => row_connection(words_of(line@)) == Some(connection_view(c)),
            None => row_connection(words_of(line@)) is None,
        },
{
    let parts = split_whitespace(line);
    let n = parts.len();
    if n < 4 {
        return None;
    }
    let (state, pid_text) = if n > 4 {
        (parts[3].clone(), parts[4].clone())
    } else {
        (String::new(), parts[3].clone())
    };
    let pid: u32 = match parse_u32(pid_text.as_str()) {
        Some(v) => v,
        None => 0,
    };
    Some(NetConnection {
        protocol: parts[0].clone(),
        local_address: parts[1].clone(),
        foreign_address: parts[2].clone(),
        state,
        pid,
    })
}

/// The connections listed in `netstat` output: each line after the
/// first four with at least four columns, in order.
pub fn parse_netstat_output(output: &str) -> (v: Vec<NetConnection>)
    ensures
        v@.len() == table_connections(table_rows(output@)).len(),
        forall|i: int|
            0 <= i < v@.len() ==> connection_view(#[trigger] v@[i]) == table_connections(table_rows(output@))[i],
{
    let ls = lines(output);
    let ghost all = lines_of(output@);
    let mut v: Vec<NetConnection> = Vec::new();
    if ls.len() <= 4 {
        return v;
    }
    let mut i: usize = 4;
    proof {
        assert(all.subrange(4, 4) =~= Seq::<Seq<char>>::empty());
    }
    while i < ls.len()
        invariant
            4 <= i <= ls@.len(),
            ls@.len() == all.len(),
            all == lines_of(output@),
            forall|k: int| 0 <= k < ls@.len() ==> (#[trigger] ls@[k])@ == all[k],
            v@.len() == table_connections(all.subrange(4, i as int)).len(),
            forall|k: int|
                0 <= k < v@.len() ==> connection_view(#[trigger] v@[k]) == table_connections(
                    all.subrange(4, i as int),
                )[k],
        decreases ls@.len() - i,
    {
        let r = parse_netstat_row(ls[i].as_str());
        proof {
            let next = all.subrange(4, i + 1);
            assert(next.drop_last() =~= all.subrange(4, i as int));
            assert(next.last() == all[i as int]);
        }
        match r {
            Some(c) => {
                v.push(c);
            },
            None => {},
        }
        i += 1;
    }
    proof {
        assert(all.subrange(4, all.len() as int) == table_rows(output@));
    }
    v
}

// The summary
// ---------------------------------------------------------------------

/// The rule that frames the summary.
pub open spec fn summary_rule() -> Seq<char> {
    "==================================================\n"@
}

/// The summary written at the end of a triage.
pub open spec fn triage_summary_text(location: Seq<char>, now: Timestamp, os: Seq<char>, arch: Seq<char>) -> Seq<char> {
    summary_rule() + "        FORGELENS FORENSIC TRIAGE REPORT          \n"@ + summary_rule()
        + "Triage Location: "@ + location + "\n"@
        + "Execution Date:  "@ + utc_rfc2822_text(now.secs, now.nanos) + "\n"@
        + "Status:          SUCCESS / TRIAGED\n"@
        + "Operating System:"@ + os + "\n"@
        + "Architecture:    "@ + arch + "\n"@
        + summary_rule()
}

/// The summary of a triage made at `location` at `now`, on the system
/// `os` and architecture `arch`.
pub fn triage_summary(location: &str, now: Timestamp, os: &str, arch: &str) -> (s: String)
    requires
        now.printable(),
    ensures
        s@ == triage_summary_text(location@, now, os@, arch@),
{
    let rule = "==================================================\n";
    let mut s = owned(rule);
    push_str(&mut s, "        FORGELENS FORENSIC TRIAGE REPORT          \n");
    push_str(&mut s, rule);
    push_str(&mut s, "Triage Location: ");
    push_str(&mut s, location);
    push_str(&mut s, "\n");
    push_str(&mut s, "Execution Date:  ");
    let date = to_utc_rfc2822(now);
    push_str(&mut s, date.as_str());
    push_str(&mut s, "\n");
    push_str(&mut s, "Status:          SUCCESS / TRIAGED\n");
    push_str(&mut s, "Operating System:");
    push_str(&mut s, os);
    push_str(&mut s, "\n");
    push_str(&mut s, "Architecture:    ");
    push_str(&mut s, arch);
    push_str(&mut s, "\n");
    push_str(&mut s, rule);
    proof {
        reveal_strlit("==================================================\n");
        assert(rule@ == summary_rule());
    }
    s
}


// The audit manifest
// ---------------------------------------------------------------------

/// The entries of the audit manifest: for each gathered file, its path
/// and one line per digest.
pub open spec fn audit_entries_text(entries: Seq<(String, HashDigests)>) -> Seq<char>
    decreases entries.len(),
{
    if entries.len() == 0 {
        Seq::empty()
    } else {
        audit_entries_text(entries.drop_last()) + "File: "@ + entries.last().0@ + "\n"@ + hash_lines(
            entries.last().1,
        )
    }
}

/// The audit manifest of a triage made at `location` at `now`: the
/// digests of every file gathered, and their number.
pub open spec fn audit_manifest_text(location: Seq<char>, now: Timestamp, entries: Seq<(String, HashDigests)>) -> Seq<
    char,
> {
    summary_rule() + "        FORGELENS TRIAGE AUDIT MANIFEST           \n"@ + summary_rule()
        + "Triage Location: "@ + location + "\n"@
        + "Generated:       "@ + utc_rfc2822_text(now.secs, now.nanos) + "\n"@
        + summary_rule() + audit_entries_text(entries) + summary_rule()
        + "Files Hashed:    "@ + decimal(entries.len()) + "\n"@
}

/// The audit manifest of the files gathered by a triage made at
/// `location` at `now`, each with its digests.
pub fn triage_audit_manifest(location: &str, now: Timestamp, entries: &Vec<(String, HashDigests)>) -> (s: String)
    requires
        now.printable(),
    ensures
        s@ == audit_manifest_text(location@, now, entries@),
{
    let rule = "==================================================\n";
    proof {
        reveal_strlit("==================================================\n");
        assert(rule@ == summary_rule());
    }
    let mut s = owned(rule);
    push_str(&mut s, "        FORGELENS TRIAGE AUDIT MANIFEST           \n");
    push_str(&mut s, rule);
    push_str(&mut s, "Triage Location: ");
    push_str(&mut s, location);
    push_str(&mut s, "\n");
    push_str(&mut s, "Generated:       ");
    let date = to_utc_rfc2822(now);
    push_str(&mut s, date.as_str());
    push_str(&mut s, "\n");
    push_str(&mut s, rule);
    let ghost head = s@;
    let mut i: usize = 0;
    while i < entries.len()
        invariant
            i <= entries@.len(),
            s@ == head + audit_entries_text(entries@.take(i as int)),
        decreases entries@.len() - i,
    {
        let (path, digests) = &entries[i];
        push_str(&mut s, "File: ");
        push_str(&mut s, path.as_str());
        push_str(&mut s, "\n");
        push_hash_lines(&mut s, digests);
        proof {
            let t = entries@.take(i + 1);
            assert(t.drop_last() =~= entries@.take(i as int));
            assert(t.last() == entries@[i as int]);
        }
        i += 1;
    }
    proof {
        assert(entries@.take(entries@.len() as int) =~= entries@);
    }
    push_str(&mut s, rule);
    push_str(&mut s, "Files Hashed:    ");
    push_decimal(&mut s, entries.len() as u64);
    push_str(&mut s, "\n");
    proof {
        assert(s@ =~= audit_manifest_text(location@, now, entries@));
    }
    s
}

} // verus!
