//! The desktop imager's checks of an imaging request before it starts,
//! the extension and header it picks for the image, and when its log
//! notes progress.

use vstd::prelude::*;
use crate::text::{push_str, str_eq, contains_str, has_substring, trim, trimmed};
use vstd::string::StrSliceExecFns;

verus! {

/// What is wrong with a request, checked in this order: a physical
/// acquisition without a device, another without a source folder, no
/// destination, no hash algorithm. `None` when nothing is.
pub open spec fn request_problem(
    imaging_mode: Seq<char>,
    device_selected: bool,
    logical_source: Seq<char>,
    dest_path: Seq<char>,
    algorithm_count: nat,
) -> Option<Seq<char>> {
    if imaging_mode == "Physical"@ && !device_selected {
        Some("No source device selected."@)
    } else if imaging_mode != "Physical"@ && trimmed(logical_source).len() == 0 {
        Some("No logical source path specified."@)
    } else if trimmed(dest_path).len() == 0 {
        Some("No destination path specified."@)
    } else if algorithm_count == 0 {
        Some("At least one hash algorithm must be enabled."@)
    } else {
        None
    }
}

/// A string holding `t`.
fn owned(t: &str) -> (s: String)
    ensures
        s@ == t@,
{
    let mut s = String::new();
    push_str(&mut s, t);
    s
}

/// What is wrong with a request, if anything.
pub fn check_request(
    imaging_mode: &str,
    device_selected: bool,
    logical_source: &str,
    dest_path: &str,
    algorithm_count: usize,
) -> (r: Option<String>)
    ensures
        match r {
            Some(m) => request_problem(imaging_mode@, device_selected, logical_source@, dest_path@, algorithm_count as nat)
                == Some(m@),
            None => request_problem(imaging_mode@, device_selected, logical_source@, dest_path@, algorithm_count as nat)
                is None,
        },
{
    let physical = str_eq(imaging_mode, "Physical");
    if physical {
        if !device_selected {
            return Some(owned("No source device selected."));
        }
    } else {
        let t = trim(logical_source);
        if t.unicode_len() == 0 {
            return Some(owned("No logical source path specified."));
        }
    }
    let d = trim(dest_path);
    if d.unicode_len() == 0 {
        return Some(owned("No destination path specified."));
    }
    if algorithm_count == 0 {
        return Some(owned("At least one hash algorithm must be enabled."));
    }
    None
}

/// The extension given to a destination that has none: none for a
/// folder copy; "e01" or "aff" for a format choice mentioning E01 or AFF
/// (tried in that order); "dd" otherwise.
pub open spec fn default_extension_of(imaging_mode: Seq<char>, format_mode: Seq<char>) -> Option<Seq<char>> {
    if imaging_mode == "Logical"@ {
        None
    } else if has_substring(format_mode, "E01"@) {
        Some("e01"@)
    } else if has_substring(format_mode, "AFF"@) {
        Some("aff"@)
    } else {
        Some("dd"@)
    }
}

/// The extension given to a destination that has none.
pub fn default_extension(imaging_mode: &str, format_mode: &str) -> (r: Option<String>)
    ensures
        match r {
            Some(e) => default_extension_of(imaging_mode@, format_mode@) == Some(e@),
            None => default_extension_of(imaging_mode@, format_mode@) is None,
        },
{
    if str_eq(imaging_mode, "Logical") {
        None
    } else if contains_str(format_mode, "E01") {
        Some(owned("e01"))
    } else if contains_str(format_mode, "AFF") {
        Some(owned("aff"))
    } else {
        Some(owned("dd"))
    }
}

/// The header format of a format choice: "E01" or "AFF" when it mentions
/// them (tried in that order), "DD" otherwise.
pub open spec fn header_name_of(format_mode: Seq<char>) -> Seq<char> {
    if has_substring(format_mode, "E01"@) {
        "E01"@
    } else if has_substring(format_mode, "AFF"@) {
        "AFF"@
    } else {
        "DD"@
    }
}

/// The header format of a format choice.
pub fn header_name(format_mode: &str) -> (s: String)
    ensures
        s@ == header_name_of(format_mode@),
{
    if contains_str(format_mode, "E01") {
        owned("E01")
    } else if contains_str(format_mode, "AFF") {
        owned("AFF")
    } else {
        owned("DD")
    }
}

/// Whether progress from `before` to `now` bytes passed a whole gigabyte
/// (10^9 bytes), which the log notes.
pub fn gigabyte_passed(before: u64, now: u64) -> (b: bool)
    ensures
        b == (now / 1_000_000_000 > before / 1_000_000_000),
{
    now / 1_000_000_000 > before / 1_000_000_000
}

} // verus!
