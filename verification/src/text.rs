//! Character-level building blocks for the textual artefacts of the
//! library: decimal and hexadecimal renderings, appending to strings,
//! and reading strings as character sequences.

use vstd::prelude::*;

verus! {

/// The character of a decimal digit.
pub open spec fn decimal_digit(d: nat) -> char
    recommends d < 10,
{
    ((d + 48) as u8) as char
}

/// Base-10 rendering of a natural number, without leading zeros
/// (zero is rendered as "0"); what `{}` prints for an unsigned integer.
pub open spec fn decimal(n: nat) -> Seq<char>
    decreases n,
{
    if n < 10 {
        seq![decimal_digit(n)]
    } else {
        decimal(n / 10).push(decimal_digit(n % 10))
    }
}

/// `n` rendered in decimal and left-padded with zeros to at least `width`
/// characters; what `{:0w}` prints for an unsigned integer.
pub open spec fn zero_padded(n: nat, width: nat) -> Seq<char> {
    let d = decimal(n);
    if d.len() >= width {
        d
    } else {
        Seq::new((width - d.len()) as nat, |i: int| '0') + d
    }
}

/// Lower-case hexadecimal character of a nibble.
pub open spec fn hex_digit(d: nat) -> char
    recommends d < 16,
{
    if d < 10 {
        ((d + 48) as u8) as char
    } else {
        ((d + 87) as u8) as char
    }
}

/// Upper-case hexadecimal character of a nibble.
pub open spec fn hex_digit_upper(d: nat) -> char
    recommends d < 16,
{
    if d < 10 {
        ((d + 48) as u8) as char
    } else {
        ((d + 55) as u8) as char
    }
}

/// Lower-case hexadecimal encoding of bytes, two characters per byte,
/// high nibble first.
pub open spec fn hex_lower(bytes: Seq<u8>) -> Seq<char>
    decreases bytes.len(),
{
    if bytes.len() == 0 {
        Seq::empty()
    } else {
        hex_lower(bytes.drop_last()).push(hex_digit((bytes.last() / 16) as nat)).push(
            hex_digit((bytes.last() % 16) as nat),
        )
    }
}

/// Appends one character to a string.
#[verifier::external_body]
pub(crate) fn push_char(s: &mut String, c: char)
    ensures
        final(s)@ == old(s)@.push(c),
{
    s.push(c)
}

/// Appends a string slice to a string.
pub fn push_str(s: &mut String, t: &str)
    ensures
        final(s)@ == old(s)@ + t@,
{
    let ghost start = s@;
    for c in it: t.chars()
        invariant
            it.seq() == t@,
            s@ == start + it.seq().take(it.index() as int),
    {
        proof {
            assert(it.seq().take(it.index() + 1) =~= it.seq().take(it.index() as int).push(c));
        }
        push_char(s, c);
    }
    proof {
        assert(t@.take(t@.len() as int) =~= t@);
    }
}

/// The characters of a string slice, in order.
pub fn chars_of(s: &str) -> (v: Vec<char>)
    ensures
        v@ == s@,
        s@.len() <= usize::MAX,
{
    let mut v: Vec<char> = Vec::new();
    for c in it: s.chars()
        invariant
            it.seq() == s@,
            v@ == it.seq().take(it.index() as int),
    {
        proof {
            assert(it.seq().take(it.index() + 1) =~= it.seq().take(it.index() as int).push(c));
        }
        v.push(c);
    }
    proof {
        assert(s@.take(s@.len() as int) =~= s@);
    }
    let n = v.len();
    v
}

/// A string holding exactly the given characters.
pub fn string_of(v: &[char]) -> (s: String)
    ensures
        s@ == v@,
{
    let mut s = String::new();
    let mut i: usize = 0;
    while i < v.len()
        invariant
            i <= v.len(),
            s@ == v@.take(i as int),
        decreases v.len() - i,
    {
        push_char(&mut s, v[i]);
        proof {
            assert(v@.take(i + 1) =~= v@.take(i as int).push(v@[i as int]));
        }
        i += 1;
    }
    proof {
        assert(v@.take(v@.len() as int) =~= v@);
    }
    s
}

/// The character of a decimal digit.
pub fn digit_char(d: u64) -> (c: char)
    requires
        d < 10,
    ensures
        c == decimal_digit(d as nat),
{
    ((d as u8) + 48) as char
}

/// Appends the decimal rendering of `n`.
pub fn push_decimal(s: &mut String, n: u64)
    ensures
        final(s)@ == old(s)@ + decimal(n as nat),
    decreases n,
{
    if n >= 10 {
        push_decimal(s, n / 10);
    }
    let c = digit_char(n % 10);
    push_char(s, c);
    proof {
        if n >= 10 {
            assert(decimal(n as nat) == decimal((n / 10) as nat).push(decimal_digit((n % 10) as nat)));
        } else {
            assert(decimal(n as nat) =~= seq![decimal_digit(n as nat)]);
        }
    }
}

/// Number of characters of the decimal rendering of `n`.
pub proof fn lemma_decimal_len(n: nat)
    ensures
        decimal(n).len() >= 1,
        n < 10 ==> decimal(n).len() == 1,
        n >= 10 ==> decimal(n).len() == decimal(n / 10).len() + 1,
    decreases n,
{
    if n >= 10 {
        lemma_decimal_len(n / 10);
    }
}

/// The decimal rendering of `n`.
pub fn decimal_string(n: u64) -> (s: String)
    ensures
        s@ == decimal(n as nat),
{
    let mut s = String::new();
    push_decimal(&mut s, n);
    proof {
        assert(s@ =~= decimal(n as nat));
    }
    s
}

/// Appends `n` in decimal, left-padded with zeros to `width` characters.
pub fn push_zero_padded(s: &mut String, n: u64, width: usize)
    ensures
        final(s)@ == old(s)@ + zero_padded(n as nat, width as nat),
{
    let d = decimal_string(n);
    let dv = chars_of(d.as_str());
    let ghost start = s@;
    if dv.len() < width {
        let pad = width - dv.len();
        let mut i: usize = 0;
        while i < pad
            invariant
                i <= pad,
                s@ == start + Seq::new(i as nat, |k: int| '0'),
            decreases pad - i,
        {
            push_char(s, '0');
            proof {
                assert(Seq::new((i + 1) as nat, |k: int| '0') =~= Seq::new(i as nat, |k: int| '0').push('0'));
            }
            i += 1;
        }
    }
    let ghost mid = s@;
    push_str(s, d.as_str());
    proof {
        let dd = decimal(n as nat);
        if dd.len() >= width {
            assert(mid == start);
            assert(s@ =~= start + zero_padded(n as nat, width as nat));
        } else {
            assert(s@ =~= start + zero_padded(n as nat, width as nat));
        }
    }
}

/// Lower-case hexadecimal digit of a nibble.
pub fn hex_char(d: u8) -> (c: char)
    requires
        d < 16,
    ensures
        c == hex_digit(d as nat),
{
    if d < 10 {
        (d + 48) as char
    } else {
        (d + 87) as char
    }
}

/// Upper-case hexadecimal digit of a nibble.
pub fn hex_char_upper(d: u8) -> (c: char)
    requires
        d < 16,
    ensures
        c == hex_digit_upper(d as nat),
{
    if d < 10 {
        (d + 48) as char
    } else {
        (d + 55) as char
    }
}

/// Lower-case hexadecimal encoding of `data`, as `hex::encode` produces it.
pub fn hex_encode(data: &[u8]) -> (s: String)
    ensures
        s@ == hex_lower(data@),
{
    let mut s = String::new();
    let mut i: usize = 0;
    while i < data.len()
        invariant
            i <= data.len(),
            s@ == hex_lower(data@.take(i as int)),
        decreases data.len() - i,
    {
        let b = data[i];
        push_char(&mut s, hex_char(b / 16));
        push_char(&mut s, hex_char(b % 16));
        proof {
            let t = data@.take(i + 1);
            assert(t.drop_last() =~= data@.take(i as int));
            assert(t.last() == b);
        }
        i += 1;
    }
    proof {
        assert(data@.take(data@.len() as int) =~= data@);
    }
    s
}

/// Length of a hexadecimal encoding.
pub proof fn lemma_hex_lower_len(bytes: Seq<u8>)
    ensures
        hex_lower(bytes).len() == 2 * bytes.len(),
    decreases bytes.len(),
{
    if bytes.len() > 0 {
        lemma_hex_lower_len(bytes.drop_last());
    }
}

} // verus!

verus! {

/// `s` without its leading white space.
pub open spec fn trim_start(s: Seq<char>) -> Seq<char>
    decreases s.len(),
{
    if s.len() > 0 && is_white(s[0]) {
        trim_start(s.drop_first())
    } else {
        s
    }
}

/// `s` without its trailing white space.
pub open spec fn trim_end(s: Seq<char>) -> Seq<char>
    decreases s.len(),
{
    if s.len() > 0 && is_white(s.last()) {
        trim_end(s.drop_last())
    } else {
        s
    }
}

/// What `str::trim` leaves of a string: leading and trailing white space
/// (`is_white`) removed.
pub open spec fn trimmed(s: Seq<char>) -> Seq<char> {
    trim_end(trim_start(s))
}

/// The string without leading and trailing white space (`str::trim`).
pub fn trim(s: &str) -> (r: String)
    ensures
        r@ == trimmed(s@),
{
    let v = chars_of(s);
    let n = v.len();
    let mut i: usize = 0;
    proof {
        assert(v@.subrange(0, n as int) =~= v@);
    }
    while i < n && is_white_char(v[i])
        invariant
            i <= n,
            n == v@.len(),
            trim_start(v@) == trim_start(v@.subrange(i as int, n as int)),
        decreases n - i,
    {
        proof {
            assert(v@.subrange(i as int, n as int).drop_first() =~= v@.subrange(i + 1, n as int));
        }
        i += 1;
    }
    let mut j: usize = n;
    while j > i && is_white_char(v[j - 1])
        invariant
            i <= j <= n,
            n == v@.len(),
            trim_start(v@) == v@.subrange(i as int, n as int),
            trim_end(trim_start(v@)) == trim_end(v@.subrange(i as int, j as int)),
        decreases j - i,
    {
        proof {
            assert(v@.subrange(i as int, j as int).drop_last() =~= v@.subrange(i as int, j - 1));
        }
        j -= 1;
    }
    let mut r = String::new();
    let mut k: usize = i;
    while k < j
        invariant
            i <= k <= j <= n,
            n == v@.len(),
            r@ == v@.subrange(i as int, k as int),
        decreases j - k,
    {
        push_char(&mut r, v[k]);
        proof {
            assert(v@.subrange(i as int, k + 1) =~= v@.subrange(i as int, k as int).push(v@[k as int]));
        }
        k += 1;
    }
    r
}

/// `char::from_u32`: the character with code point `u`, when `u` is a
/// Unicode scalar value (below 0xD800, or from 0xE000 to 0x10FFFF), and
/// `None` otherwise, as its documentation states.
#[verifier::external_body]
fn char_from_u32(u: u32) -> (r: Option<char>)
    ensures
        (u < 0xD800 || (0xE000 <= u && u <= 0x10FFFF)) ==> r == Some(u as char),
        !(u < 0xD800 || (0xE000 <= u && u <= 0x10FFFF)) ==> r is None,
{
    char::from_u32(u)
}

/// The code point a UTF-16 surrogate pair (high, then low) stands for.
pub open spec fn surrogate_pair_value(hi: u16, lo: u16) -> int {
    0x10000 + (hi - 0xD800) * 0x400 + (lo - 0xDC00)
}

/// `p` before the decoded text, if there is one.
pub open spec fn prepended(p: Seq<char>, o: Option<Seq<char>>) -> Option<Seq<char>> {
    match o {
        Some(r) => Some(p + r),
        None => None,
    }
}

/// What `String::from_utf16` decodes from UTF-16 code units: a unit
/// outside 0xD800..=0xDFFF is a character, a high surrogate followed by a
/// low one is the character of the pair, and anything else (a lone
/// surrogate) makes the units invalid (`None`).
pub open spec fn utf16_decoded(units: Seq<u16>) -> Option<Seq<char>>
    decreases units.len(),
{
    if units.len() == 0 {
        Some(Seq::empty())
    } else {
        let u = units[0];
        if u < 0xD800 || u > 0xDFFF {
            prepended(seq![u as char], utf16_decoded(units.subrange(1, units.len() as int)))
        } else if u <= 0xDBFF && units.len() >= 2 && 0xDC00 <= units[1] <= 0xDFFF {
            prepended(
                seq![surrogate_pair_value(u, units[1]) as char],
                utf16_decoded(units.subrange(2, units.len() as int)),
            )
        } else {
            None
        }
    }
}

/// Decodes UTF-16 code units (`String::from_utf16`): `None` when they
/// hold a lone surrogate.
pub fn decode_utf16(units: &[u16]) -> (r: Option<String>)
    ensures
        match r {
            Some(s) => utf16_decoded(units@) == Some(s@),
            None => utf16_decoded(units@) is None,
        },
{
    let n = units.len();
    let mut out: Vec<char> = Vec::new();
    let mut i: usize = 0;
    proof {
        assert(units@.subrange(0, n as int) =~= units@);
        assert(Seq::<char>::empty() + Seq::<char>::empty() =~= Seq::<char>::empty());
        match utf16_decoded(units@) {
            Some(r) => assert(out@ + r =~= r),
            None => {},
        }
    }
    while i < n
        invariant
            i <= n,
            n == units@.len(),
            utf16_decoded(units@) == prepended(out@, utf16_decoded(units@.subrange(i as int, n as int))),
        decreases n - i,
    {
        let u = units[i];
        let ghost rest = units@.subrange(i as int, n as int);
        proof {
            assert(rest[0] == u);
        }
        if u < 0xD800 || u > 0xDFFF {
            let c = match char_from_u32(u as u32) {
                Some(c) => c,
                None => return None,
            };
            proof {
                assert(rest.subrange(1, rest.len() as int) =~= units@.subrange(i + 1, n as int));
                match utf16_decoded(units@.subrange(i + 1, n as int)) {
                    Some(r) => assert(out@ + (seq![c] + r) =~= out@.push(c) + r),
                    None => {},
                }
            }
            out.push(c);
            i += 1;
        } else if u <= 0xDBFF && i + 1 < n && 0xDC00 <= units[i + 1] && units[i + 1] <= 0xDFFF {
            let lo = units[i + 1];
            let v: u32 = 0x10000 + (u as u32 - 0xD800) * 0x400 + (lo as u32 - 0xDC00);
            let c = match char_from_u32(v) {
                Some(c) => c,
                None => return None,
            };
            proof {
                assert(rest[1] == lo);
                assert(v as int == surrogate_pair_value(u, lo));
                assert(rest.subrange(2, rest.len() as int) =~= units@.subrange(i + 2, n as int));
                match utf16_decoded(units@.subrange(i + 2, n as int)) {
                    Some(r) => assert(out@ + (seq![c] + r) =~= out@.push(c) + r),
                    None => {},
                }
            }
            out.push(c);
            i += 2;
        } else {
            return None;
        }
    }
    proof {
        assert(units@.subrange(n as int, n as int) =~= Seq::<u16>::empty());
        assert(out@ + Seq::<char>::empty() =~= out@);
    }
    Some(string_of(out.as_slice()))
}

/// What `String::from_utf8_lossy` decodes from bytes (invalid sequences
/// replaced by U+FFFD).
pub uninterp spec fn utf8_lossy(bytes: Seq<u8>) -> Seq<char>;

/// `String::from_utf8_lossy`: decodes bytes as UTF-8, replacing invalid sequences.
#[verifier::external_body]
pub(crate) fn decode_utf8_lossy(bytes: &[u8]) -> (r: String)
    ensures
        r@ == utf8_lossy(bytes@),
{
    String::from_utf8_lossy(bytes).into_owned()
}

/// Whether two strings hold the same characters.
pub fn str_eq(a: &str, b: &str) -> (r: bool)
    ensures
        r == (a@ == b@),
{
    let av = chars_of(a);
    let bv = chars_of(b);
    if av.len() != bv.len() {
        return false;
    }
    let mut i: usize = 0;
    while i < av.len()
        invariant
            i <= av@.len(),
            av@ == a@,
            bv@ == b@,
            av@.len() == bv@.len(),
            forall|k: int| 0 <= k < i ==> av@[k] == bv@[k],
        decreases av.len() - i,
    {
        if av[i] != bv[i] {
            proof {
                assert(av@[i as int] != bv@[i as int]);
            }
            return false;
        }
        i += 1;
    }
    proof {
        assert(av@ =~= bv@);
    }
    true
}

} // verus!

verus! {

/// UTF-8 encoding of a character sequence (the bytes of a `str`).
pub open spec fn utf8_of(s: Seq<char>) -> Seq<u8> {
    vstd::utf8::encode_utf8(s)
}

/// A non-empty string has non-empty UTF-8 bytes.
pub proof fn lemma_utf8_len_positive(s: Seq<char>)
    ensures
        s.len() > 0 ==> utf8_of(s).len() > 0,
{
    if s.len() > 0 {
        let first = vstd::utf8::encode_scalar(s[0] as u32);
        assert(first.len() >= 1);
        assert(utf8_of(s) == first + vstd::utf8::encode_utf8(s.drop_first()));
    }
}

} // verus!

verus! {

/// `s` with every occurrence of the non-empty `pat` replaced by `rep`,
/// occurrences taken left to right without overlap (what `str::replace`
/// gives).
pub open spec fn replaced(s: Seq<char>, pat: Seq<char>, rep: Seq<char>) -> Seq<char>
    decreases s.len(),
{
    if pat.len() == 0 || s.len() < pat.len() {
        s
    } else if s.subrange(0, pat.len() as int) == pat {
        rep + replaced(s.subrange(pat.len() as int, s.len() as int), pat, rep)
    } else {
        seq![s[0]] + replaced(s.subrange(1, s.len() as int), pat, rep)
    }
}

/// Whether `v` holds `pat` at `i`.
fn chars_match_at(v: &Vec<char>, pat: &Vec<char>, i: usize) -> (r: bool)
    requires
        i + pat@.len() <= v@.len(),
    ensures
        r == (v@.subrange(i as int, i + pat@.len()) == pat@),
{
    let vlen = v.len();
    let mut k: usize = 0;
    while k < pat.len()
        invariant
            k <= pat@.len(),
            vlen == v@.len(),
            i + pat@.len() <= v@.len(),
            forall|j: int| 0 <= j < k ==> v@[i + j] == pat@[j],
        decreases pat@.len() - k,
    {
        if v[i + k] != pat[k] {
            proof {
                assert(v@.subrange(i as int, i + pat@.len())[k as int] != pat@[k as int]);
            }
            return false;
        }
        k += 1;
    }
    proof {
        assert(v@.subrange(i as int, i + pat@.len()) =~= pat@);
    }
    true
}

/// `s` with every occurrence of the non-empty `pat` replaced by `rep`.
pub fn replace_all(s: &str, pat: &str, rep: &str) -> (r: String)
    requires
        pat@.len() > 0,
    ensures
        r@ == replaced(s@, pat@, rep@),
{
    let v = chars_of(s);
    let p = chars_of(pat);
    let mut out = String::new();
    let mut i: usize = 0;
    proof {
        assert(v@.subrange(0, v@.len() as int) =~= v@);
        assert(out@ + replaced(v@, p@, rep@) =~= replaced(v@, p@, rep@));
    }
    while i < v.len()
        invariant
            i <= v@.len(),
            v@ == s@,
            p@ == pat@,
            p@.len() > 0,
            out@ + replaced(v@.subrange(i as int, v@.len() as int), p@, rep@) == replaced(s@, pat@, rep@),
        decreases v@.len() - i,
    {
        let ghost rest = v@.subrange(i as int, v@.len() as int);
        if p.len() <= v.len() - i && chars_match_at(&v, &p, i) {
            proof {
                assert(rest.subrange(0, p@.len() as int) =~= v@.subrange(i as int, i + p@.len()));
                assert(rest.subrange(p@.len() as int, rest.len() as int) =~= v@.subrange(i + p@.len(), v@.len() as int));
            }
            let ghost before = out@;
            push_str(&mut out, rep);
            proof {
                assert(out@ + replaced(v@.subrange(i + p@.len(), v@.len() as int), p@, rep@) =~= before + replaced(rest, p@, rep@));
            }
            i = i + p.len();
        } else {
            proof {
                if rest.len() >= p@.len() {
                    assert(rest.subrange(0, p@.len() as int) =~= v@.subrange(i as int, i + p@.len()));
                }
                assert(rest.subrange(1, rest.len() as int) =~= v@.subrange(i + 1, v@.len() as int));
            }
            let ghost before = out@;
            push_char(&mut out, v[i]);
            proof {
                assert(out@ + replaced(v@.subrange(i + 1, v@.len() as int), p@, rep@) =~= before + replaced(rest, p@, rep@));
            }
            i = i + 1;
        }
    }
    proof {
        assert(v@.subrange(v@.len() as int, v@.len() as int) =~= Seq::<char>::empty());
        assert(out@ + Seq::<char>::empty() =~= out@);
    }
    out
}

} // verus!

verus! {

/// A line without its carriage return, if it ends with one.
pub open spec fn strip_cr(line: Seq<char>) -> Seq<char> {
    if line.len() > 0 && line.last() == '\r' {
        line.drop_last()
    } else {
        line
    }
}

/// The lines of `s` as `str::lines` gives them: split at each line feed,
/// each without a carriage return before the feed, and no empty line
/// after a final line feed.
pub open spec fn lines_of(s: Seq<char>) -> Seq<Seq<char>>
    decreases s.len(),
{
    if s.len() == 0 {
        Seq::empty()
    } else {
        let i = first_newline(s);
        if 0 <= i < s.len() {
            seq![strip_cr(s.subrange(0, i))] + lines_of(s.subrange(i + 1, s.len() as int))
        } else {
            seq![strip_cr(s)]
        }
    }
}

/// Position of the first line feed of `s` (its length when there is none).
pub open spec fn first_newline(s: Seq<char>) -> int
    decreases s.len(),
{
    if s.len() == 0 {
        0
    } else if s[0] == '\n' {
        0
    } else {
        1 + first_newline(s.subrange(1, s.len() as int))
    }
}

/// The first line feed lies at `first_newline`, and none before it.
proof fn lemma_first_newline(s: Seq<char>)
    ensures
        0 <= first_newline(s) <= s.len(),
        first_newline(s) < s.len() ==> s[first_newline(s)] == '\n',
        forall|k: int| 0 <= k < first_newline(s) ==> s[k] != '\n',
    decreases s.len(),
{
    if s.len() > 0 && s[0] != '\n' {
        let t = s.subrange(1, s.len() as int);
        lemma_first_newline(t);
        assert forall|k: int| 0 <= k < first_newline(s) implies s[k] != '\n' by {
            if k > 0 {
                assert(s[k] == t[k - 1]);
            }
        }
    }
}

/// The characters of `v` from `from` to `to`, as a string.
fn string_between(v: &Vec<char>, from: usize, to: usize) -> (s: String)
    requires
        from <= to <= v@.len(),
    ensures
        s@ == v@.subrange(from as int, to as int),
{
    let mut s = String::new();
    let mut i = from;
    while i < to
        invariant
            from <= i <= to,
            to <= v@.len(),
            s@ == v@.subrange(from as int, i as int),
        decreases to - i,
    {
        push_char(&mut s, v[i]);
        proof {
            assert(v@.subrange(from as int, i + 1) =~= v@.subrange(from as int, i as int).push(v@[i as int]));
        }
        i += 1;
    }
    s
}

/// The lines of `s`, as `str::lines` gives them.
pub fn lines(s: &str) -> (v: Vec<String>)
    ensures
        v@.len() == lines_of(s@).len(),
        forall|i: int| 0 <= i < v@.len() ==> (#[trigger] v@[i])@ == lines_of(s@)[i],
{
    let c = chars_of(s);
    let mut out: Vec<String> = Vec::new();
    let mut start: usize = 0;
    let ghost all = c@;
    proof {
        assert(all.subrange(0, all.len() as int) =~= all);
    }
    while start < c.len()
        invariant
            start <= c@.len(),
            c@ == s@,
            all == c@,
            out@.len() + lines_of(all.subrange(start as int, all.len() as int)).len() == lines_of(all).len(),
            forall|i: int| 0 <= i < out@.len() ==> lines_of(all)[i] == (#[trigger] out@[i])@,
            forall|i: int|
                0 <= i < lines_of(all.subrange(start as int, all.len() as int)).len() ==> lines_of(all)[out@.len()
                    + i] == #[trigger] lines_of(all.subrange(start as int, all.len() as int))[i],
        decreases c@.len() - start,
    {
        let ghost rest = all.subrange(start as int, all.len() as int);
        proof {
            lemma_first_newline(rest);
        }
        let mut end = start;
        while end < c.len() && c[end] != '\n'
            invariant
                start <= end <= c@.len(),
                c@ == all,
                rest == all.subrange(start as int, all.len() as int),
                end - start <= first_newline(rest),
                forall|k: int| 0 <= k < first_newline(rest) ==> rest[k] != '\n',
                first_newline(rest) < rest.len() ==> rest[first_newline(rest)] == '\n',
                first_newline(rest) <= rest.len(),
            decreases c@.len() - end,
        {
            proof {
                assert(rest[end - start] == c@[end as int]);
            }
            end += 1;
        }
        proof {
            if end < c@.len() {
                assert(rest[end - start] == '\n');
            }
            assert(end - start == first_newline(rest));
        }
        let mut line_end = end;
        if line_end > start && c[line_end - 1] == '\r' {
            line_end = line_end - 1;
        }
        let line = string_between(&c, start, line_end);
        proof {
            let piece = rest.subrange(0, end - start);
            assert(piece =~= all.subrange(start as int, end as int));
            if end > start && c@[end - 1] == '\r' {
                assert(strip_cr(piece) =~= piece.drop_last());
                assert(piece.drop_last() =~= all.subrange(start as int, line_end as int));
            } else {
                assert(strip_cr(piece) =~= all.subrange(start as int, line_end as int));
            }
            assert(line@ == strip_cr(piece));
        }
        let ghost before = out@;
        out.push(line);
        if end < c.len() {
            proof {
                let next = all.subrange(end + 1, all.len() as int);
                assert(rest.subrange(end - start + 1, rest.len() as int) =~= next);
                assert(lines_of(rest) == seq![strip_cr(rest.subrange(0, end - start))] + lines_of(next));
                assert forall|i: int| 0 <= i < lines_of(next).len() implies lines_of(all)[out@.len() + i]
                    == #[trigger] lines_of(next)[i] by {
                    assert(lines_of(rest)[i + 1] == lines_of(next)[i]);
                }
            }
            start = end + 1;
        } else {
            proof {
                assert(rest.subrange(0, end - start) =~= rest);
                assert(lines_of(rest) == seq![strip_cr(rest)]);
                assert(all.subrange(c@.len() as int, all.len() as int) =~= Seq::<char>::empty());
                assert(lines_of(Seq::<char>::empty()).len() == 0);
            }
            start = end;
        }
        proof {
            assert forall|i: int| 0 <= i < out@.len() implies lines_of(all)[i] == (#[trigger] out@[i])@ by {
                if i < before.len() {
                    assert(out@[i] == before[i]);
                } else {
                    assert(lines_of(rest)[0] == line@);
                }
            }
        }
    }
    proof {
        assert(all.subrange(start as int, all.len() as int) =~= Seq::<char>::empty());
    }
    out
}

} // verus!

verus! {

/// Whether `s` holds `t` at position `i`.
pub open spec fn holds_sub_at(s: Seq<char>, t: Seq<char>, i: int) -> bool {
    0 <= i && i + t.len() <= s.len() && s.subrange(i, i + t.len()) == t
}

/// Whether `t` occurs in `s` (`str::contains`).
pub open spec fn has_substring(s: Seq<char>, t: Seq<char>) -> bool {
    exists|i: int| holds_sub_at(s, t, i)
}

/// Whether `s` starts with `p` (`str::starts_with`).
pub open spec fn starts_with(s: Seq<char>, p: Seq<char>) -> bool {
    p.len() <= s.len() && s.subrange(0, p.len() as int) == p
}

/// Whether `s` ends with `p` (`str::ends_with`).
pub open spec fn ends_with(s: Seq<char>, p: Seq<char>) -> bool {
    p.len() <= s.len() && s.subrange(s.len() - p.len(), s.len() as int) == p
}

/// Position of the first `c` in `s` (`str::find` with a character).
pub open spec fn index_of_char(s: Seq<char>, c: char) -> Option<int>
    decreases s.len(),
{
    if s.len() == 0 {
        None
    } else if s[0] == c {
        Some(0)
    } else {
        match index_of_char(s.subrange(1, s.len() as int), c) {
            Some(i) => Some(i + 1),
            None => None,
        }
    }
}

/// `s` without the copies of `c` at its end (`trim_end_matches`).
pub open spec fn trim_end_char(s: Seq<char>, c: char) -> Seq<char>
    decreases s.len(),
{
    if s.len() > 0 && s.last() == c {
        trim_end_char(s.drop_last(), c)
    } else {
        s
    }
}

/// `s` without the copies of `c` at its start (`trim_start_matches`).
pub open spec fn trim_start_char(s: Seq<char>, c: char) -> Seq<char>
    decreases s.len(),
{
    if s.len() > 0 && s[0] == c {
        trim_start_char(s.subrange(1, s.len() as int), c)
    } else {
        s
    }
}

/// Whether `t` occurs in `s`.
pub fn contains_str(s: &str, t: &str) -> (r: bool)
    ensures
        r == has_substring(s@, t@),
{
    let v = chars_of(s);
    let w = chars_of(t);
    if w.len() > v.len() {
        proof {
            assert forall|i: int| !holds_sub_at(s@, t@, i) by {}
        }
        return false;
    }
    let last = v.len() - w.len();
    let mut i: usize = 0;
    while i <= last
        invariant
            v@ == s@,
            w@ == t@,
            w@.len() <= v@.len(),
            last == v@.len() - w@.len(),
            forall|j: int| 0 <= j < i ==> !holds_sub_at(s@, t@, j),
        decreases last + 1 - i,
    {
        if chars_match_at(&v, &w, i) {
            proof {
                assert(holds_sub_at(s@, t@, i as int));
            }
            return true;
        }
        if i == last {
            proof {
                assert forall|j: int| !holds_sub_at(s@, t@, j) by {
                    if 0 <= j <= i {
                    }
                }
            }
            return false;
        }
        i += 1;
    }
    false
}

/// Whether `s` starts with `p`.
pub fn starts_with_str(s: &str, p: &str) -> (r: bool)
    ensures
        r == starts_with(s@, p@),
{
    let v = chars_of(s);
    let w = chars_of(p);
    if w.len() > v.len() {
        return false;
    }
    chars_match_at(&v, &w, 0)
}

/// Whether `s` ends with `p`.
pub fn ends_with_str(s: &str, p: &str) -> (r: bool)
    ensures
        r == ends_with(s@, p@),
{
    let v = chars_of(s);
    let w = chars_of(p);
    if w.len() > v.len() {
        return false;
    }
    chars_match_at(&v, &w, v.len() - w.len())
}

/// The characters of `s` from position `from` on.
pub fn suffix_from(s: &str, from: usize) -> (r: String)
    requires
        from <= s@.len(),
    ensures
        r@ == s@.subrange(from as int, s@.len() as int),
{
    let v = chars_of(s);
    string_between(&v, from, v.len())
}

/// The characters of `s` from `from` up to `to`.
pub fn substring(s: &str, from: usize, to: usize) -> (r: String)
    requires
        from <= to <= s@.len(),
    ensures
        r@ == s@.subrange(from as int, to as int),
{
    let v = chars_of(s);
    string_between(&v, from, to)
}

/// Position of the first `c` in `s`.
pub fn find_char(s: &str, c: char) -> (r: Option<usize>)
    ensures
        match r {
            Some(i) => index_of_char(s@, c) == Some(i as int),
            None => index_of_char(s@, c) is None,
        },
{
    let v = chars_of(s);
    let mut i: usize = 0;
    while i < v.len()
        invariant
            i <= v@.len(),
            v@ == s@,
            forall|j: int| 0 <= j < i ==> v@[j] != c,
        decreases v@.len() - i,
    {
        if v[i] == c {
            proof {
                lemma_index_of_char(s@, c, i as int);
            }
            return Some(i);
        }
        i += 1;
    }
    proof {
        lemma_index_of_char_none(s@, c);
    }
    None
}

/// The first `c` lies at `i` when it is there and nowhere before.
proof fn lemma_index_of_char(s: Seq<char>, c: char, i: int)
    requires
        0 <= i < s.len(),
        s[i] == c,
        forall|j: int| 0 <= j < i ==> s[j] != c,
    ensures
        index_of_char(s, c) == Some(i),
    decreases s.len(),
{
    if i > 0 {
        let t = s.subrange(1, s.len() as int);
        assert forall|j: int| 0 <= j < i - 1 implies t[j] != c by {
            assert(t[j] == s[j + 1]);
        }
        lemma_index_of_char(t, c, i - 1);
    }
}

/// No `c` in `s`: no position.
proof fn lemma_index_of_char_none(s: Seq<char>, c: char)
    requires
        forall|j: int| 0 <= j < s.len() ==> s[j] != c,
    ensures
        index_of_char(s, c) is None,
    decreases s.len(),
{
    if s.len() > 0 {
        let t = s.subrange(1, s.len() as int);
        assert forall|j: int| 0 <= j < t.len() implies t[j] != c by {
            assert(t[j] == s[j + 1]);
        }
        lemma_index_of_char_none(t, c);
    }
}

/// A found position lies inside the string.
pub proof fn lemma_index_of_char_bound(s: Seq<char>, c: char)
    ensures
        index_of_char(s, c) matches Some(i) ==> 0 <= i < s.len() && s[i] == c,
    decreases s.len(),
{
    if s.len() > 0 && s[0] != c {
        let t = s.subrange(1, s.len() as int);
        lemma_index_of_char_bound(t, c);
    }
}

/// `s` without the copies of `c` at its end.
pub fn trim_end_matches_char(s: &str, c: char) -> (r: String)
    ensures
        r@ == trim_end_char(s@, c),
{
    let v = chars_of(s);
    let mut end = v.len();
    proof {
        assert(v@.subrange(0, v@.len() as int) =~= v@);
    }
    while end > 0 && v[end - 1] == c
        invariant
            end <= v@.len(),
            v@ == s@,
            trim_end_char(v@.subrange(0, end as int), c) == trim_end_char(s@, c),
        decreases end,
    {
        proof {
            let t = v@.subrange(0, end as int);
            assert(t.drop_last() =~= v@.subrange(0, end - 1));
        }
        end -= 1;
    }
    proof {
        let t = v@.subrange(0, end as int);
        assert(trim_end_char(t, c) == t);
    }
    string_between(&v, 0, end)
}

/// `s` without the copies of `c` at its start.
pub fn trim_start_matches_char(s: &str, c: char) -> (r: String)
    ensures
        r@ == trim_start_char(s@, c),
{
    let v = chars_of(s);
    let mut start: usize = 0;
    proof {
        assert(v@.subrange(0, v@.len() as int) =~= v@);
    }
    while start < v.len() && v[start] == c
        invariant
            start <= v@.len(),
            v@ == s@,
            trim_start_char(v@.subrange(start as int, v@.len() as int), c) == trim_start_char(s@, c),
        decreases v@.len() - start,
    {
        proof {
            let t = v@.subrange(start as int, v@.len() as int);
            assert(t.subrange(1, t.len() as int) =~= v@.subrange(start + 1, v@.len() as int));
        }
        start += 1;
    }
    proof {
        let t = v@.subrange(start as int, v@.len() as int);
        assert(trim_start_char(t, c) == t);
    }
    string_between(&v, start, v.len())
}

} // verus!

verus! {

/// Whether `c` is white space in the Unicode sense (`char::is_whitespace`):
/// tab, line feed, vertical tab, form feed, carriage return, space, next
/// line, no-break space, ogham space mark, the spaces U+2000 to U+200A,
/// line and paragraph separators, narrow no-break space, medium
/// mathematical space and ideographic space.
pub open spec fn is_white(c: char) -> bool {
    let u = c as u32;
    (0x09 <= u && u <= 0x0D) || u == 0x20 || u == 0x85 || u == 0xA0 || u == 0x1680 || (0x2000 <= u && u
        <= 0x200A) || u == 0x2028 || u == 0x2029 || u == 0x202F || u == 0x205F || u == 0x3000
}

/// Whether `c` is white space.
pub fn is_white_char(c: char) -> (r: bool)
    ensures
        r == is_white(c),
{
    let u = c as u32;
    (0x09 <= u && u <= 0x0D) || u == 0x20 || u == 0x85 || u == 0xA0 || u == 0x1680 || (0x2000 <= u && u
        <= 0x200A) || u == 0x2028 || u == 0x2029 || u == 0x202F || u == 0x205F || u == 0x3000
}

/// Length of the run of non-white characters at the start of `s`.
pub open spec fn word_len(s: Seq<char>) -> nat
    decreases s.len(),
{
    if s.len() == 0 || is_white(s[0]) {
        0
    } else {
        1 + word_len(s.subrange(1, s.len() as int))
    }
}

/// The words of `s`, as `str::split_whitespace` gives them: the maximal
/// runs of characters that are not white space, in order.
pub open spec fn words_of(s: Seq<char>) -> Seq<Seq<char>>
    decreases s.len(),
{
    if s.len() == 0 {
        Seq::empty()
    } else if is_white(s[0]) {
        words_of(s.subrange(1, s.len() as int))
    } else {
        let n = word_len(s);
        if 0 < n <= s.len() {
            seq![s.subrange(0, n as int)] + words_of(s.subrange(n as int, s.len() as int))
        } else {
            Seq::empty()
        }
    }
}

/// The run of non-white characters at the start of `s` ends at the first
/// white character (or at the end).
proof fn lemma_word_len(s: Seq<char>)
    ensures
        word_len(s) <= s.len(),
        word_len(s) < s.len() ==> is_white(s[word_len(s) as int]),
        forall|k: int| 0 <= k < word_len(s) ==> !is_white(s[k]),
    decreases s.len(),
{
    if s.len() > 0 && !is_white(s[0]) {
        let t = s.subrange(1, s.len() as int);
        lemma_word_len(t);
        assert forall|k: int| 0 <= k < word_len(s) implies !is_white(s[k]) by {
            if k > 0 {
                assert(s[k] == t[k - 1]);
            }
        }
        if word_len(s) < s.len() {
            assert(s[word_len(s) as int] == t[word_len(t) as int]);
        }
    }
}

/// The words of `s`, as `str::split_whitespace` gives them.
pub fn split_whitespace(s: &str) -> (v: Vec<String>)
    ensures
        v@.len() == words_of(s@).len(),
        forall|i: int| 0 <= i < v@.len() ==> (#[trigger] v@[i])@ == words_of(s@)[i],
{
    let c = chars_of(s);
    let ghost all = c@;
    let mut out: Vec<String> = Vec::new();
    let mut pos: usize = 0;
    proof {
        assert(all.subrange(0, all.len() as int) =~= all);
    }
    while pos < c.len()
        invariant
            pos <= c@.len(),
            c@ == all,
            all == s@,
            out@.len() + words_of(all.subrange(pos as int, all.len() as int)).len() == words_of(all).len(),
            forall|i: int| 0 <= i < out@.len() ==> words_of(all)[i] == (#[trigger] out@[i])@,
            forall|i: int|
                0 <= i < words_of(all.subrange(pos as int, all.len() as int)).len() ==> words_of(all)[out@.len()
                    + i] == #[trigger] words_of(all.subrange(pos as int, all.len() as int))[i],
        decreases c@.len() - pos,
    {
        let ghost rest = all.subrange(pos as int, all.len() as int);
        if is_white_char(c[pos]) {
            proof {
                assert(rest[0] == c@[pos as int]);
                assert(rest.subrange(1, rest.len() as int) =~= all.subrange(pos + 1, all.len() as int));
            }
            pos += 1;
        } else {
            proof {
                lemma_word_len(rest);
                assert(rest[0] == c@[pos as int]);
            }
            let mut end = pos;
            while end < c.len() && !is_white_char(c[end])
                invariant
                    pos <= end <= c@.len(),
                    c@ == all,
                    rest == all.subrange(pos as int, all.len() as int),
                    end - pos <= word_len(rest),
                    forall|k: int| 0 <= k < word_len(rest) ==> !is_white(rest[k]),
                    word_len(rest) < rest.len() ==> is_white(rest[word_len(rest) as int]),
                    word_len(rest) <= rest.len(),
                decreases c@.len() - end,
            {
                proof {
                    assert(rest[end - pos] == c@[end as int]);
                }
                end += 1;
            }
            proof {
                if end < c@.len() {
                    assert(rest[end - pos] == c@[end as int]);
                }
                assert(end - pos == word_len(rest));
            }
            let word = string_between(&c, pos, end);
            proof {
                let n = word_len(rest);
                assert(n > 0);
                assert(rest.subrange(0, n as int) =~= all.subrange(pos as int, end as int));
                assert(rest.subrange(n as int, rest.len() as int) =~= all.subrange(end as int, all.len() as int));
                assert(words_of(rest) == seq![rest.subrange(0, n as int)] + words_of(
                    all.subrange(end as int, all.len() as int),
                ));
                let next = all.subrange(end as int, all.len() as int);
                assert forall|i: int| 0 <= i < words_of(next).len() implies words_of(all)[out@.len() + 1 + i]
                    == #[trigger] words_of(next)[i] by {
                    assert(words_of(rest)[i + 1] == words_of(next)[i]);
                }
            }
            let ghost before = out@;
            out.push(word);
            proof {
                assert forall|i: int| 0 <= i < out@.len() implies words_of(all)[i] == (#[trigger] out@[i])@ by {
                    if i < before.len() {
                        assert(out@[i] == before[i]);
                    } else {
                        assert(words_of(rest)[0] == word@);
                    }
                }
            }
            pos = end;
        }
    }
    proof {
        assert(all.subrange(pos as int, all.len() as int) =~= Seq::<char>::empty());
    }
    out
}

/// The value of a run of ASCII decimal digits.
pub open spec fn digits_value(d: Seq<char>) -> nat
    decreases d.len(),
{
    if d.len() == 0 {
        0
    } else {
        digits_value(d.drop_last()) * 10 + ((d.last() as u32) - 48) as nat
    }
}

/// Whether every character is an ASCII decimal digit.
pub open spec fn all_digits(d: Seq<char>) -> bool {
    forall|i: int| 0 <= i < d.len() ==> '0' <= #[trigger] d[i] <= '9'
}

/// The unsigned integer `s` denotes in decimal, as `str::parse` reads it:
/// an optional '+', then one or more ASCII digits; `None` for anything
/// else or a value above `max`.
pub open spec fn parsed_unsigned(s: Seq<char>, max: nat) -> Option<nat> {
    let d = if s.len() > 0 && s[0] == '+' { s.subrange(1, s.len() as int) } else { s };
    if d.len() == 0 || !all_digits(d) || digits_value(d) > max {
        None
    } else {
        Some(digits_value(d))
    }
}

/// The `u64` `s` denotes in decimal, as `str::parse::<u64>` reads it.
pub fn parse_u64(s: &str) -> (r: Option<u64>)
    ensures
        match r {
            Some(v) => parsed_unsigned(s@, u64::MAX as nat) == Some(v as nat),
            None => parsed_unsigned(s@, u64::MAX as nat) is None,
        },
{
    let c = chars_of(s);
    let start: usize = if c.len() > 0 && c[0] == '+' { 1 } else { 0 };
    let ghost d = if s@.len() > 0 && s@[0] == '+' { s@.subrange(1, s@.len() as int) } else { s@ };
    if start >= c.len() {
        return None;
    }
    let mut value: u64 = 0;
    let mut i = start;
    while i < c.len()
        invariant
            start <= i <= c@.len(),
            c@ == s@,
            d == c@.subrange(start as int, c@.len() as int),
            d == (if s@.len() > 0 && s@[0] == '+' { s@.subrange(1, s@.len() as int) } else { s@ }),
            all_digits(c@.subrange(start as int, i as int)),
            value as nat == digits_value(c@.subrange(start as int, i as int)),
        decreases c@.len() - i,
    {
        let ch = c[i];
        proof {
            assert(c@.subrange(start as int, i + 1).drop_last() =~= c@.subrange(start as int, i as int));
        }
        if ch < '0' || ch > '9' {
            proof {
                assert(d[i - start] == ch);
                assert(!('0' <= d[i - start] <= '9'));
                assert(!all_digits(d));
            }
            return None;
        }
        let digit = (ch as u32 - 48) as u64;
        if value > (u64::MAX - digit) / 10 {
            proof {
                let t = c@.subrange(start as int, i + 1);
                assert(digits_value(t) == value * 10 + digit);
                assert(value * 10 + digit > u64::MAX) by (nonlinear_arith)
                    requires value > (u64::MAX - digit) / 10, digit <= 9;
                assert(d.subrange(0, i + 1 - start) =~= t);
                if all_digits(d) {
                    lemma_digits_value_grows(d, (i + 1 - start) as int);
                }
            }
            return None;
        }
        proof {
            assert(value * 10 + digit <= u64::MAX) by (nonlinear_arith)
                requires value <= (u64::MAX - digit) / 10, digit <= 9;
        }
        value = value * 10 + digit;
        proof {
            let t = c@.subrange(start as int, i + 1);
            assert forall|k: int| 0 <= k < t.len() implies '0' <= #[trigger] t[k] <= '9' by {
                if k < t.len() - 1 {
                    assert(t[k] == c@.subrange(start as int, i as int)[k]);
                }
            }
        }
        i += 1;
    }
    proof {
        assert(c@.subrange(start as int, c@.len() as int) == d);
    }
    Some(value)
}

/// A prefix of a run of digits never has a larger value than the run.
proof fn lemma_digits_value_grows(d: Seq<char>, k: int)
    requires
        0 <= k <= d.len(),
        all_digits(d),
    ensures
        digits_value(d.subrange(0, k)) <= digits_value(d),
    decreases d.len() - k,
{
    if k < d.len() {
        lemma_digits_value_grows(d, k + 1);
        let a = d.subrange(0, k);
        let b = d.subrange(0, k + 1);
        assert(b.drop_last() =~= a);
        assert('0' <= b.last() <= '9');
        assert(digits_value(b) >= digits_value(a)) by (nonlinear_arith)
            requires digits_value(b) == digits_value(a) * 10 + ((b.last() as u32) - 48) as nat;
    } else {
        assert(d.subrange(0, k) =~= d);
    }
}

/// The `u32` `s` denotes in decimal, as `str::parse::<u32>` reads it.
pub fn parse_u32(s: &str) -> (r: Option<u32>)
    ensures
        match r {
            Some(v) => parsed_unsigned(s@, u32::MAX as nat) == Some(v as nat),
            None => parsed_unsigned(s@, u32::MAX as nat) is None,
        },
{
    match parse_u64(s) {
        Some(v) => {
            if v <= u32::MAX as u64 {
                Some(v as u32)
            } else {
                None
            }
        },
        None => {
            proof {
                let d = if s@.len() > 0 && s@[0] == '+' { s@.subrange(1, s@.len() as int) } else { s@ };
                if d.len() > 0 && all_digits(d) {
                    assert(digits_value(d) > u64::MAX);
                }
            }
            None
        },
    }
}

} // verus!
