//! Reading an acquisition request: the hash algorithms, compression,
//! image format and extension, sizes, the verification mode, and the
//! messages and names the front end shows.

use vstd::prelude::*;
use crate::hasher::HashAlgorithm;
use crate::output::CompressionFormat;
use crate::text::{push_str, str_eq, contains_str, has_substring, ends_with_str, ends_with, trim, trimmed};
use vstd::string::StrSliceExecFns;

verus! {

/// The algorithm a front-end name selects ("MD5", "SHA1", "SHA256",
/// "SHA512"); other names select none.
pub open spec fn algorithm_named(name: Seq<char>) -> Option<HashAlgorithm> {
    if name == "MD5"@ {
        Some(HashAlgorithm::MD5)
    } else if name == "SHA1"@ {
        Some(HashAlgorithm::SHA1)
    } else if name == "SHA256"@ {
        Some(HashAlgorithm::SHA256)
    } else if name == "SHA512"@ {
        Some(HashAlgorithm::SHA512)
    } else {
        None
    }
}

/// The algorithms the first `k` names select, in order.
pub open spec fn algorithms_named(names: Seq<String>, k: int) -> Seq<HashAlgorithm>
    decreases k,
{
    if k <= 0 {
        Seq::empty()
    } else {
        match algorithm_named(names[k - 1]@) {
            Some(a) => algorithms_named(names, k - 1).push(a),
            None => algorithms_named(names, k - 1),
        }
    }
}

/// The algorithm a name selects.
pub fn algorithm_from_name(name: &str) -> (r: Option<HashAlgorithm>)
    ensures
        r == algorithm_named(name@),
{
    if str_eq(name, "MD5") {
        Some(HashAlgorithm::MD5)
    } else if str_eq(name, "SHA1") {
        Some(HashAlgorithm::SHA1)
    } else if str_eq(name, "SHA256") {
        Some(HashAlgorithm::SHA256)
    } else if str_eq(name, "SHA512") {
        Some(HashAlgorithm::SHA512)
    } else {
        None
    }
}

/// The algorithms selected by `names`, in order; names of no algorithm
/// are passed over.
pub fn parse_hash_algorithms(names: &Vec<String>) -> (v: Vec<HashAlgorithm>)
    ensures
        v@ == algorithms_named(names@, names@.len() as int),
{
    let mut v: Vec<HashAlgorithm> = Vec::new();
    let mut i: usize = 0;
    while i < names.len()
        invariant
            i <= names@.len(),
            v@ == algorithms_named(names@, i as int),
        decreases names@.len() - i,
    {
        match algorithm_from_name(names[i].as_str()) {
            Some(a) => v.push(a),
            None => {},
        }
        i += 1;
    }
    v
}

/// The algorithms selected by `names`, or the error shown when none is.
pub fn selected_algorithms(names: &Vec<String>) -> (r: Result<Vec<HashAlgorithm>, String>)
    ensures
        match r {
            Ok(v) => v@ == algorithms_named(names@, names@.len() as int) && v@.len() > 0,
            Err(e) => algorithms_named(names@, names@.len() as int).len() == 0
                && e@ == "At least one hash algorithm must be enabled."@,
        },
{
    let v = parse_hash_algorithms(names);
    if v.len() == 0 {
        let mut e = String::new();
        push_str(&mut e, "At least one hash algorithm must be enabled.");
        Err(e)
    } else {
        Ok(v)
    }
}

/// The compression a front-end name selects: "Gzip", "Zstd", or none.
pub open spec fn compression_named(name: Seq<char>) -> CompressionFormat {
    if name == "Gzip"@ {
        CompressionFormat::Gzip
    } else if name == "Zstd"@ {
        CompressionFormat::Zstd
    } else {
        CompressionFormat::Uncompressed
    }
}

/// The compression a name selects.
pub fn parse_compression(name: &str) -> (c: CompressionFormat)
    ensures
        c == compression_named(name@),
{
    if str_eq(name, "Gzip") {
        CompressionFormat::Gzip
    } else if str_eq(name, "Zstd") {
        CompressionFormat::Zstd
    } else {
        CompressionFormat::Uncompressed
    }
}

/// The image extension a format choice selects: "e01", "ex01", "aff",
/// "smart" for a choice mentioning E01, EX01, AFF, SMART (tried in that
/// order), else "dd".
pub open spec fn image_extension_of(format_mode: Seq<char>) -> Seq<char> {
    if has_substring(format_mode, "E01"@) {
        "e01"@
    } else if has_substring(format_mode, "EX01"@) {
        "ex01"@
    } else if has_substring(format_mode, "AFF"@) {
        "aff"@
    } else if has_substring(format_mode, "SMART"@) {
        "smart"@
    } else {
        "dd"@
    }
}

/// The short format name a format choice selects, for the image header:
/// "E01", "EX01", "AFF", "SMART" (tried in that order), else "DD".
pub open spec fn format_short_of(format_mode: Seq<char>) -> Seq<char> {
    if has_substring(format_mode, "E01"@) {
        "E01"@
    } else if has_substring(format_mode, "EX01"@) {
        "EX01"@
    } else if has_substring(format_mode, "AFF"@) {
        "AFF"@
    } else if has_substring(format_mode, "SMART"@) {
        "SMART"@
    } else {
        "DD"@
    }
}

/// The image extension of a format choice.
pub fn image_extension(format_mode: &str) -> (e: String)
    ensures
        e@ == image_extension_of(format_mode@),
{
    let mut e = String::new();
    if contains_str(format_mode, "E01") {
        push_str(&mut e, "e01");
    } else if contains_str(format_mode, "EX01") {
        push_str(&mut e, "ex01");
    } else if contains_str(format_mode, "AFF") {
        push_str(&mut e, "aff");
    } else if contains_str(format_mode, "SMART") {
        push_str(&mut e, "smart");
    } else {
        push_str(&mut e, "dd");
    }
    e
}

/// The short format name of a format choice.
pub fn format_short(format_mode: &str) -> (f: String)
    ensures
        f@ == format_short_of(format_mode@),
{
    let mut f = String::new();
    if contains_str(format_mode, "E01") {
        push_str(&mut f, "E01");
    } else if contains_str(format_mode, "EX01") {
        push_str(&mut f, "EX01");
    } else if contains_str(format_mode, "AFF") {
        push_str(&mut f, "AFF");
    } else if contains_str(format_mode, "SMART") {
        push_str(&mut f, "SMART");
    } else {
        push_str(&mut f, "DD");
    }
    f
}

/// Bytes per part of a split image of `mb` MiB (wrapping at 64 bits).
pub fn split_size_bytes(mb: Option<usize>) -> (r: Option<u64>)
    ensures
        match mb {
            Some(m) => r == Some((m as u64).wrapping_mul(1048576)),
            None => r is None,
        },
{
    match mb {
        Some(m) => Some((m as u64).wrapping_mul(1048576)),
        None => None,
    }
}

/// Bytes per block of `kb` KiB (wrapping at the word size).
pub fn block_size_bytes(kb: usize) -> (n: usize)
    ensures
        n == kb.wrapping_mul(1024),
{
    kb.wrapping_mul(1024)
}

/// Whether the source is hashed before imaging: in "Pre & Post-Acquisition"
/// mode, when the acquisition is not resumed.
pub fn pre_hash_wanted(hash_verification: &str, start_offset: u64) -> (b: bool)
    ensures
        b == (hash_verification@ == "Pre & Post-Acquisition"@ && start_offset == 0),
{
    str_eq(hash_verification, "Pre & Post-Acquisition") && start_offset == 0
}

/// Whether an acquisition is logical (a folder copy).
pub fn is_logical_mode(imaging_mode: &str) -> (b: bool)
    ensures
        b == (imaging_mode@ == "Logical"@),
{
    str_eq(imaging_mode, "Logical")
}

/// Whether a checkpoint is looked for beside a destination: not for an
/// empty (or all white space) destination.
pub fn checkpoint_candidate(dest_path: &str) -> (b: bool)
    ensures
        b == (trimmed(dest_path@).len() > 0),
{
    let t = trim(dest_path);
    t.unicode_len() > 0
}

/// Where an interrupted acquisition resumes on the source: at the offset
/// its checkpoint recorded when the image is uncompressed, whose part
/// files can be cut back to exactly the bytes the checkpoint covers; from
/// the start otherwise, since a compressed stream cannot be cut back to an
/// offset of the bytes it holds.
pub fn resume_offset(checkpoint_bytes: u64, compression: CompressionFormat) -> (r: u64)
    ensures
        r == if compression == CompressionFormat::Uncompressed {
            checkpoint_bytes
        } else {
            0
        },
{
    match compression {
        CompressionFormat::Uncompressed => checkpoint_bytes,
        _ => 0,
    }
}

/// The file-dialog filter name of an image extension.
pub open spec fn filter_name_of(ext: Seq<char>) -> Seq<char> {
    if ext == "e01"@ {
        "E01 Evidence Image (.e01)"@
    } else if ext == "aff"@ {
        "Advanced Forensic Format (.aff)"@
    } else {
        "Raw Image (.dd)"@
    }
}

/// The file-dialog filter name of an image extension.
pub fn filter_name(ext: &str) -> (s: String)
    ensures
        s@ == filter_name_of(ext@),
{
    let mut s = String::new();
    if str_eq(ext, "e01") {
        push_str(&mut s, "E01 Evidence Image (.e01)");
    } else if str_eq(ext, "aff") {
        push_str(&mut s, "Advanced Forensic Format (.aff)");
    } else {
        push_str(&mut s, "Raw Image (.dd)");
    }
    s
}

/// A chosen save path with ".<ext>" appended unless it already ends so.
pub open spec fn with_extension_suffix(path: Seq<char>, ext: Seq<char>) -> Seq<char> {
    if ends_with(path, "."@ + ext) {
        path
    } else {
        path + "."@ + ext
    }
}

/// A chosen save path with its extension.
pub fn ensure_extension(path: &str, ext: &str) -> (p: String)
    ensures
        p@ == with_extension_suffix(path@, ext@),
{
    let mut suffix = String::new();
    push_str(&mut suffix, ".");
    push_str(&mut suffix, ext);
    let mut p = String::new();
    push_str(&mut p, path);
    if !ends_with_str(path, suffix.as_str()) {
        push_str(&mut p, suffix.as_str());
    }
    p
}

} // verus!
