//! Volume Shadow Copy snapshots: the volume name a snapshot is made of,
//! the shadow ID and device path read from the Windows tools' output, and
//! paths of files inside a snapshot.

use vstd::prelude::*;
use crate::text::{
    push_str, push_char, trim, trimmed, lines, lines_of, contains_str, has_substring, starts_with_str,
    starts_with, ends_with_str, ends_with, suffix_from, substring, find_char, index_of_char,
    lemma_index_of_char_bound, trim_end_matches_char, trim_start_matches_char, trim_end_char,
    trim_start_char, str_eq,
};
use vstd::string::StrSliceExecFns;

verus! {

/// A shadow copy of a volume.
#[derive(Clone, Debug)]
pub struct VssSnapshot {
    /// The shadow copy's ID (a GUID).
    pub shadow_id: String,
    /// Its device path, e.g. \\?\GLOBALROOT\Device\HarddiskVolumeShadowCopy1.
    pub device_path: String,
    /// The volume snapshotted, e.g. C:\.
    pub volume: String,
}

/// The volume in the form "X:\": unchanged when it ends with a backslash,
/// a backslash appended after a colon, ":\" appended otherwise.
pub open spec fn normalized_volume(volume: Seq<char>) -> Seq<char> {
    if ends_with(volume, "\\"@) {
        volume
    } else if ends_with(volume, ":"@) {
        volume + "\\"@
    } else {
        volume + ":\\"@
    }
}

/// The volume in the form "X:\".
pub fn normalize_volume(volume: &str) -> (v: String)
    ensures
        v@ == normalized_volume(volume@),
{
    let mut v = String::new();
    push_str(&mut v, volume);
    if ends_with_str(volume, "\\") {
    } else if ends_with_str(volume, ":") {
        push_str(&mut v, "\\");
    } else {
        push_str(&mut v, ":\\");
    }
    v
}

/// Where a file lies inside a shadow copy: the device path without
/// trailing backslashes, a backslash, and the relative path without
/// leading backslashes.
pub open spec fn snapshot_file_path(device_path: Seq<char>, relative_path: Seq<char>) -> Seq<char> {
    trim_end_char(device_path, '\\') + "\\"@ + trim_start_char(relative_path, '\\')
}

impl VssSnapshot {
    /// The path of `relative_path` inside the shadow copy.
    pub fn file_path(&self, relative_path: &str) -> (p: String)
        ensures
            p@ == snapshot_file_path(self.device_path@, relative_path@),
    {
        let mut p = trim_end_matches_char(self.device_path.as_str(), '\\');
        push_str(&mut p, "\\");
        let rel = trim_start_matches_char(relative_path, '\\');
        push_str(&mut p, rel.as_str());
        p
    }
}

// ---------------------------------------------------------------------
// The shadow ID in `wmic shadowcopy call create` output
// ---------------------------------------------------------------------

/// What a trimmed line mentioning "ShadowID" gives: the text between its
/// first two double quotes; failing that, the text from its first '{'
/// through its first '}'; failing that, nothing.
pub open spec fn shadow_id_in_line(t: Seq<char>) -> Option<Seq<char>> {
    let quoted = match index_of_char(t, '"') {
        Some(start) => match index_of_char(t.subrange(start + 1, t.len() as int), '"') {
            Some(end) => Some(t.subrange(start + 1, start + 1 + end)),
            None => None,
        },
        None => None,
    };
    if quoted is Some {
        quoted
    } else {
        match (index_of_char(t, '{'), index_of_char(t, '}')) {
            (Some(a), Some(b)) => Some(t.subrange(a, b + 1)),
            _ => None,
        }
    }
}

/// Whether the braces of a line are read without running backwards: the
/// line is read by its quotes, or has no pair of braces, or its first '}'
/// is not before the character before its first '{'.
pub open spec fn braces_readable(t: Seq<char>) -> bool {
    let quoted = match index_of_char(t, '"') {
        Some(start) => index_of_char(t.subrange(start + 1, t.len() as int), '"') is Some,
        None => false,
    };
    quoted || match (index_of_char(t, '{'), index_of_char(t, '}')) {
        (Some(a), Some(b)) => a <= b + 1,
        _ => true,
    }
}

/// The shadow ID of the first line (trimmed) that mentions "ShadowID"
/// and yields one.
pub open spec fn wmic_shadow_id(lines: Seq<Seq<char>>) -> Option<Seq<char>>
    decreases lines.len(),
{
    if lines.len() == 0 {
        None
    } else {
        let t = trimmed(lines[0]);
        let rest = wmic_shadow_id(lines.subrange(1, lines.len() as int));
        if has_substring(t, "ShadowID"@) {
            match shadow_id_in_line(t) {
                Some(id) => Some(id),
                None => rest,
            }
        } else {
            rest
        }
    }
}

/// Whether the lines are read up to the shadow ID without reading a pair
/// of braces backwards.
pub open spec fn wmic_readable(lines: Seq<Seq<char>>) -> bool
    decreases lines.len(),
{
    if lines.len() == 0 {
        true
    } else {
        let t = trimmed(lines[0]);
        let rest = wmic_readable(lines.subrange(1, lines.len() as int));
        if has_substring(t, "ShadowID"@) {
            braces_readable(t) && (shadow_id_in_line(t) is Some || rest)
        } else {
            rest
        }
    }
}

/// The shadow ID in one trimmed line mentioning "ShadowID".
fn shadow_id_from_line(t: &str) -> (r: Option<String>)
    requires
        braces_readable(t@),
    ensures
        match r {
            Some(id) => shadow_id_in_line(t@) == Some(id@),
            None => shadow_id_in_line(t@) is None,
        },
{
    proof {
        lemma_index_of_char_bound(t@, '"');
        lemma_index_of_char_bound(t@, '{');
        lemma_index_of_char_bound(t@, '}');
    }
    let _ = crate::text::chars_of(t);
    if let Some(start) = find_char(t, '"') {
        let after = suffix_from(t, start + 1);
        proof {
            lemma_index_of_char_bound(after@, '"');
        }
        if let Some(end) = find_char(after.as_str(), '"') {
            return Some(substring(t, start + 1, start + 1 + end));
        }
    }
    if let Some(a) = find_char(t, '{') {
        if let Some(b) = find_char(t, '}') {
            return Some(substring(t, a, b + 1));
        }
    }
    None
}

/// Whether `wmic` output can be read for a shadow ID (see `wmic_readable`).
pub fn wmic_output_readable(output: &str) -> (r: bool)
    ensures
        r == wmic_readable(lines_of(output@)),
{
    let ls = lines(output);
    let ghost all = lines_of(output@);
    let mut i = ls.len();
    let mut readable = true;
    proof {
        assert(all.subrange(ls@.len() as int, all.len() as int) =~= Seq::<Seq<char>>::empty());
    }
    while i > 0
        invariant
            i <= ls@.len(),
            all == lines_of(output@),
            ls@.len() == all.len(),
            forall|k: int| 0 <= k < ls@.len() ==> (#[trigger] ls@[k])@ == all[k],
            readable == wmic_readable(all.subrange(i as int, all.len() as int)),
        decreases i,
    {
        i -= 1;
        let t = trim(ls[i].as_str());
        let _ = crate::text::chars_of(t.as_str());
        let rest_ok = readable;
        proof {
            assert(ls@[i as int]@ == all[i as int]);
            lemma_index_of_char_bound(t@, '"');
            lemma_index_of_char_bound(t@, '{');
            lemma_index_of_char_bound(t@, '}');
        }
        proof {
            let sub = all.subrange(i as int, all.len() as int);
            assert(sub[0] == all[i as int]);
            assert(sub.subrange(1, sub.len() as int) =~= all.subrange(i + 1, all.len() as int));
        }
        if contains_str(t.as_str(), "ShadowID") {
            let quoted = match find_char(t.as_str(), '"') {
                Some(start) => {
                    proof {
                        lemma_index_of_char_bound(t@, '"');
                    }
                    let after = suffix_from(t.as_str(), start + 1);
                    find_char(after.as_str(), '"').is_some()
                },
                None => false,
            };
            let braces_ok = quoted || match (find_char(t.as_str(), '{'), find_char(t.as_str(), '}')) {
                (Some(a), Some(b)) => a <= b + 1,
                _ => true,
            };
            if braces_ok {
                let found = shadow_id_from_line(t.as_str());
                readable = found.is_some() || rest_ok;
            } else {
                readable = false;
            }
        }
    }
    proof {
        assert(all.subrange(0, all.len() as int) =~= all);
    }
    readable
}

impl VssSnapshot {
    /// The shadow ID in the output of `wmic shadowcopy call create`: the
    /// first line mentioning "ShadowID" that holds one, quoted or in braces.
    pub fn parse_shadow_id_from_wmic(output: &str) -> (r: Option<String>)
        requires
            wmic_readable(lines_of(output@)),
        ensures
            match r {
                Some(id) => wmic_shadow_id(lines_of(output@)) == Some(id@),
                None => wmic_shadow_id(lines_of(output@)) is None,
            },
    {
        let ls = lines(output);
        let ghost all = lines_of(output@);
        let mut i: usize = 0;
        proof {
            assert(all.subrange(0, all.len() as int) =~= all);
        }
        while i < ls.len()
            invariant
                i <= ls@.len(),
                all == lines_of(output@),
                ls@.len() == all.len(),
                forall|k: int| 0 <= k < ls@.len() ==> (#[trigger] ls@[k])@ == all[k],
                wmic_readable(all.subrange(i as int, all.len() as int)),
                wmic_shadow_id(all.subrange(i as int, all.len() as int)) == wmic_shadow_id(all),
            decreases ls@.len() - i,
        {
            let t = trim(ls[i].as_str());
            proof {
                assert(ls@[i as int]@ == all[i as int]);
                let sub = all.subrange(i as int, all.len() as int);
                assert(sub[0] == all[i as int]);
                assert(sub.subrange(1, sub.len() as int) =~= all.subrange(i + 1, all.len() as int));
            }
            let ghost sub = all.subrange(i as int, all.len() as int);
            if contains_str(t.as_str(), "ShadowID") {
                if let Some(id) = shadow_id_from_line(t.as_str()) {
                    proof {
                        assert(t@ == trimmed(sub[0]));
                        assert(wmic_shadow_id(sub) == Some(id@));
                    }
                    return Some(id);
                }
            }
            i += 1;
        }
        proof {
            assert(all.subrange(i as int, all.len() as int) =~= Seq::<Seq<char>>::empty());
        }
        None
    }
}

/// The shadow ID in `wmic` output, where the output can be read for one
/// (`wmic_readable`); `None` where a line mentioning "ShadowID" holds a
/// pair of braces the wrong way round, which the parser cannot slice.
pub fn shadow_id_in_wmic_output(output: &str) -> (r: Option<String>)
    ensures
        match r {
            Some(id) => wmic_readable(lines_of(output@)) && wmic_shadow_id(lines_of(output@)) == Some(id@),
            None => !wmic_readable(lines_of(output@)) || wmic_shadow_id(lines_of(output@)) is None,
        },
{
    if wmic_output_readable(output) {
        VssSnapshot::parse_shadow_id_from_wmic(output)
    } else {
        None
    }
}

// ---------------------------------------------------------------------
// The device path in `vssadmin list shadows` and `wmic` listings
// ---------------------------------------------------------------------

/// The device path `vssadmin list shadows` gives for shadow `id`: after
/// the (trimmed) "Shadow Copy ID:" line naming `id`, the first line
/// starting "Shadow Copy Volume:", its rest trimmed; nothing once another
/// shadow's block starts.
pub open spec fn vssadmin_device(lines: Seq<Seq<char>>, id: Seq<char>, found: bool) -> Option<Seq<char>>
    decreases lines.len(),
{
    if lines.len() == 0 {
        None
    } else {
        let t = trimmed(lines[0]);
        let rest = lines.subrange(1, lines.len() as int);
        if has_substring(t, "Shadow Copy ID:"@) && has_substring(t, id) {
            vssadmin_device(rest, id, true)
        } else if found && starts_with(t, "Shadow Copy Volume:"@) {
            Some(trimmed(t.subrange(19, t.len() as int)))
        } else if found && has_substring(t, "Shadow Copy ID:"@) {
            None
        } else {
            vssadmin_device(rest, id, found)
        }
    }
}

/// The device path of shadow `id` in `vssadmin list shadows` output.
pub fn device_path_from_vssadmin(output: &str, id: &str) -> (r: Option<String>)
    ensures
        match r {
            Some(p) => vssadmin_device(lines_of(output@), id@, false) == Some(p@),
            None => vssadmin_device(lines_of(output@), id@, false) is None,
        },
{
    let ls = lines(output);
    let ghost all = lines_of(output@);
    let mut found = false;
    let mut i: usize = 0;
    proof {
        assert(all.subrange(0, all.len() as int) =~= all);
    }
    while i < ls.len()
        invariant
            i <= ls@.len(),
            all == lines_of(output@),
            ls@.len() == all.len(),
            forall|k: int| 0 <= k < ls@.len() ==> (#[trigger] ls@[k])@ == all[k],
            vssadmin_device(all.subrange(i as int, all.len() as int), id@, found) == vssadmin_device(
                all,
                id@,
                false,
            ),
        decreases ls@.len() - i,
    {
        let t = trim(ls[i].as_str());
        proof {
            reveal_strlit("Shadow Copy Volume:");
            assert(ls@[i as int]@ == all[i as int]);
            let sub = all.subrange(i as int, all.len() as int);
            assert(sub[0] == all[i as int]);
            assert(sub.subrange(1, sub.len() as int) =~= all.subrange(i + 1, all.len() as int));
        }
        let is_id_line = contains_str(t.as_str(), "Shadow Copy ID:");
        if is_id_line && contains_str(t.as_str(), id) {
            found = true;
            i += 1;
            continue;
        }
        let ghost sub = all.subrange(i as int, all.len() as int);
        if found && starts_with_str(t.as_str(), "Shadow Copy Volume:") {
            let rest = suffix_from(t.as_str(), 19);
            let p = trim(rest.as_str());
            proof {
                assert(t@ == trimmed(sub[0]));
                assert(vssadmin_device(sub, id@, found) == Some(p@));
            }
            return Some(p);
        }
        if found && is_id_line {
            proof {
                assert(t@ == trimmed(sub[0]));
                assert(vssadmin_device(sub, id@, found) is None);
            }
            return None;
        }
        i += 1;
    }
    proof {
        assert(all.subrange(i as int, all.len() as int) =~= Seq::<Seq<char>>::empty());
    }
    None
}

/// The device object `wmic shadowcopy get DeviceObject,ID /format:list`
/// gives for shadow `id`: the latest "DeviceObject=" value seen when an
/// "ID=" line (its value trimmed) names `id`, if that value is not empty.
pub open spec fn wmic_device(lines: Seq<Seq<char>>, id: Seq<char>, current: Seq<char>) -> Option<Seq<char>>
    decreases lines.len(),
{
    if lines.len() == 0 {
        None
    } else {
        let t = trimmed(lines[0]);
        let cur = if starts_with(t, "DeviceObject="@) {
            t.subrange(13, t.len() as int)
        } else {
            current
        };
        if starts_with(t, "ID="@) && trimmed(t.subrange(3, t.len() as int)) == id && cur.len() > 0 {
            Some(cur)
        } else {
            wmic_device(lines.subrange(1, lines.len() as int), id, cur)
        }
    }
}

/// The device object of shadow `id` in a `wmic` listing.
pub fn device_path_from_wmic(output: &str, id: &str) -> (r: Option<String>)
    ensures
        match r {
            Some(p) => wmic_device(lines_of(output@), id@, Seq::empty()) == Some(p@),
            None => wmic_device(lines_of(output@), id@, Seq::empty()) is None,
        },
{
    let ls = lines(output);
    let ghost all = lines_of(output@);
    let mut current = String::new();
    let mut i: usize = 0;
    proof {
        assert(all.subrange(0, all.len() as int) =~= all);
    }
    while i < ls.len()
        invariant
            i <= ls@.len(),
            all == lines_of(output@),
            ls@.len() == all.len(),
            forall|k: int| 0 <= k < ls@.len() ==> (#[trigger] ls@[k])@ == all[k],
            wmic_device(all.subrange(i as int, all.len() as int), id@, current@) == wmic_device(
                all,
                id@,
                Seq::empty(),
            ),
        decreases ls@.len() - i,
    {
        let t = trim(ls[i].as_str());
        proof {
            reveal_strlit("DeviceObject=");
            reveal_strlit("ID=");
            assert(ls@[i as int]@ == all[i as int]);
            let sub = all.subrange(i as int, all.len() as int);
            assert(sub[0] == all[i as int]);
            assert(sub.subrange(1, sub.len() as int) =~= all.subrange(i + 1, all.len() as int));
        }
        let ghost cur_before = current@;
        if starts_with_str(t.as_str(), "DeviceObject=") {
            current = suffix_from(t.as_str(), 13);
        }
        if starts_with_str(t.as_str(), "ID=") {
            let rest = suffix_from(t.as_str(), 3);
            let value = trim(rest.as_str());
            if str_eq(value.as_str(), id) && current.unicode_len() > 0 {
                proof {
                    let sub = all.subrange(i as int, all.len() as int);
                    assert(t@ == trimmed(sub[0]));
                    assert(wmic_device(sub, id@, cur_before) == Some(current@));
                }
                return Some(current);
            }
        }
        i += 1;
    }
    proof {
        assert(all.subrange(i as int, all.len() as int) =~= Seq::<Seq<char>>::empty());
    }
    None
}

// ---------------------------------------------------------------------
// Commands
// ---------------------------------------------------------------------

/// The PowerShell script that creates a shadow copy of `volume` and
/// prints its ID.
pub fn shadow_create_script(volume: &str) -> (s: String)
    ensures
        s@ == "(Invoke-CimMethod -ClassName Win32_ShadowCopy -MethodName Create -Arguments @{Volume='"@ + volume@
            + "'}).ShadowID"@,
{
    let mut s = String::new();
    push_str(&mut s, "(Invoke-CimMethod -ClassName Win32_ShadowCopy -MethodName Create -Arguments @{Volume='");
    push_str(&mut s, volume);
    push_str(&mut s, "'}).ShadowID");
    s
}

/// The PowerShell script that prints the device object of shadow `id`.
pub fn device_object_script(id: &str) -> (s: String)
    ensures
        s@ == "(Get-CimInstance -ClassName Win32_ShadowCopy | Where-Object { $_.ID -eq '"@ + id@
            + "' }).DeviceObject"@,
{
    let mut s = String::new();
    push_str(&mut s, "(Get-CimInstance -ClassName Win32_ShadowCopy | Where-Object { $_.ID -eq '");
    push_str(&mut s, id);
    push_str(&mut s, "' }).DeviceObject");
    s
}

/// The `vssadmin delete shadows` argument selecting shadow `id`.
pub fn delete_shadow_argument(id: &str) -> (s: String)
    ensures
        s@ == "/Shadow="@ + id@,
{
    let mut s = String::new();
    push_str(&mut s, "/Shadow=");
    push_str(&mut s, id);
    s
}

} // verus!
