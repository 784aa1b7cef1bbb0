//! Text helpers: integer rendering, clipping and the few `str` operations
//! the analysis needs.

use vstd::prelude::*;

verus! {

/// The lowercase digit of `d` in base 16 (also used for base 10).
pub open spec fn digit_char(d: nat) -> char {
    if d == 0 { '0' }
    else if d == 1 { '1' }
    else if d == 2 { '2' }
    else if d == 3 { '3' }
    else if d == 4 { '4' }
    else if d == 5 { '5' }
    else if d == 6 { '6' }
    else if d == 7 { '7' }
    else if d == 8 { '8' }
    else if d == 9 { '9' }
    else if d == 10 { 'a' }
    else if d == 11 { 'b' }
    else if d == 12 { 'c' }
    else if d == 13 { 'd' }
    else if d == 14 { 'e' }
    else { 'f' }
}

/// Digits of `n` in base `b` (2 <= b <= 16), most significant first, no
/// leading zeros ("0" for zero).
pub open spec fn digits(n: nat, b: nat) -> Seq<char>
    decreases n,
{
    if b < 2 || n < b {
        seq![digit_char(n)]
    } else {
        proof {
            assert(n / b < n) by (nonlinear_arith)
                requires
                    b >= 2,
                    n >= b,
            ;
        }
        digits(n / b, b).push(digit_char(n % b))
    }
}

/// Decimal rendering of an integer, with a leading `-` when negative.
pub open spec fn dec(i: int) -> Seq<char> {
    if i < 0 { seq!['-'] + digits((-i) as nat, 10) } else { digits(i as nat, 10) }
}

/// Lowercase hexadecimal rendering of a natural number, without prefix.
pub open spec fn hex(n: nat) -> Seq<char> {
    digits(n, 16)
}

fn digit(d: u64) -> (c: char)
    requires
        d < 16,
    ensures
        c == digit_char(d as nat),
{
    match d {
        0 => '0',
        1 => '1',
        2 => '2',
        3 => '3',
        4 => '4',
        5 => '5',
        6 => '6',
        7 => '7',
        8 => '8',
        9 => '9',
        10 => 'a',
        11 => 'b',
        12 => 'c',
        13 => 'd',
        14 => 'e',
        _ => 'f',
    }
}

/// `String::push` appends one character.
pub assume_specification[ String::push ](s: &mut String, ch: char)
    ensures
        final(s)@ == old(s)@.push(ch),
;

/// Appends the digits of `n` in base `b`.
pub fn push_digits(out: &mut String, n: u64, b: u64)
    requires
        2 <= b <= 16,
    ensures
        final(out)@ == old(out)@ + digits(n as nat, b as nat),
    decreases n,
{
    if n >= b {
        assert(n / b < n) by (nonlinear_arith)
            requires
                b >= 2,
                n >= b,
        ;
        push_digits(out, n / b, b);
    }
    proof {
        assert(n < b ==> n % b == n) by (nonlinear_arith)
            requires
                b >= 2,
        ;
        assert(n % b < b) by (nonlinear_arith)
            requires
                b >= 2,
        ;
    }
    out.push(digit(n % b));
}

/// Appends the decimal rendering of `v`.
pub fn push_dec(out: &mut String, v: i64)
    ensures
        final(out)@ == old(out)@ + dec(v as int),
{
    if v < 0 {
        out.push('-');
        let m: u64 = (-(v + 1)) as u64 + 1;
        push_digits(out, m, 10);
        assert(old(out)@.push('-') + digits(m as nat, 10) == old(out)@ + (seq!['-'] + digits(m as nat, 10)));
    } else {
        push_digits(out, v as u64, 10);
    }
}

/// Appends the decimal rendering of an unsigned `n`.
pub fn push_udec(out: &mut String, n: u64)
    ensures
        final(out)@ == old(out)@ + dec(n as int),
{
    push_digits(out, n, 10);
}

/// Appends the lowercase hexadecimal rendering of `n`, without prefix.
pub fn push_hex(out: &mut String, n: u64)
    ensures
        final(out)@ == old(out)@ + hex(n as nat),
{
    push_digits(out, n, 16);
}

/// Appends the characters of `s`.
pub fn push_str(out: &mut String, s: &str)
    ensures
        final(out)@ == old(out)@ + s@,
{
    out.append(s);
}

/// A `String` holding the characters of `s`.
pub fn owned(s: &str) -> (res: String)
    ensures
        res@ == s@,
{
    s.to_owned()
}

/// The decimal rendering of `v` as a new `String`.
pub fn dec_string(v: i64) -> (res: String)
    ensures
        res@ == dec(v as int),
{
    let mut out = String::new();
    push_dec(&mut out, v);
    assert(out@ == Seq::<char>::empty() + dec(v as int));
    out
}

/// The ellipsis that marks a clipped text.
pub open spec fn ellipsis() -> char {
    '\u{2026}'
}

/// `s` cut to its first `max` characters, with an ellipsis appended when
/// something was cut.
pub open spec fn clipped(s: Seq<char>, max: nat) -> Seq<char> {
    if s.len() <= max {
        s
    } else {
        s.take(max as int).push(ellipsis())
    }
}

/// Cut long strings in hints and lists; full values stay available
/// elsewhere. Characters are counted, not bytes.
pub fn clip(s: &str, max: usize) -> (res: String)
    ensures
        res@ == clipped(s@, max as nat),
{
    if s.unicode_len() <= max {
        s.to_owned()
    } else {
        let mut cut = s.substring_char(0, max).to_owned();
        cut.push('\u{2026}');
        cut
    }
}

/// The characters of `s`.
pub fn chars_of(s: &str) -> (res: Vec<char>)
    ensures
        res@ == s@,
{
    broadcast use vstd::string::group_string_axioms;
    let mut v: Vec<char> = Vec::new();
    for c in it: s.chars()
        invariant
            it.seq() == s@,
            v@ == s@.take(it.index() as int),
    {
        v.push(c);
        assert(v@ =~= s@.take(it.index() as int + 1));
    }
    assert(v@ =~= s@);
    v
}

/// `needle` occurs as a contiguous run inside `hay`.
pub open spec fn occurs_in(needle: Seq<char>, hay: Seq<char>) -> bool {
    exists|i: int|
        0 <= i && i + needle.len() <= hay.len() && #[trigger] hay.subrange(i, i + needle.len())
            == needle
}

/// Whether `n` occurs in `h` starting at position `i`.
fn matches_at(h: &Vec<char>, i: usize, n: &Vec<char>) -> (res: bool)
    requires
        i + n.len() <= h.len(),
    ensures
        res == (h@.subrange(i as int, i + n.len()) == n@),
{
    let mut j: usize = 0;
    while j < n.len()
        invariant
            i + n.len() <= h.len(),
            j <= n.len(),
            forall|k: int| 0 <= k < j ==> h@[i + k] == n@[k],
        decreases n.len() - j,
    {
        if h[i + j] != n[j] {
            assert(h@.subrange(i as int, i + n.len())[j as int] != n@[j as int]);
            return false;
        }
        j += 1;
    }
    assert(h@.subrange(i as int, i + n.len()) =~= n@);
    true
}

/// Whether `needle` occurs as a contiguous run of characters of `hay` (the
/// empty needle occurs in every string).
pub fn str_contains(hay: &str, needle: &str) -> (res: bool)
    ensures
        res == occurs_in(needle@, hay@),
{
    let h = chars_of(hay);
    let n = chars_of(needle);
    if n.len() > h.len() {
        return false;
    }
    let last = h.len() - n.len();
    let mut i: usize = 0;
    while i <= last
        invariant
            h@ == hay@,
            n@ == needle@,
            last == h.len() - n.len(),
            i <= last + 1,
            forall|k: int| 0 <= k < i ==> #[trigger] h@.subrange(k, k + n.len()) != n@,
        decreases last + 1 - i,
    {
        if matches_at(&h, i, &n) {
            return true;
        }
        if i == last {
            return false;
        }
        i += 1;
    }
    false
}

/// Whether `a` and `b` hold the same characters.
pub fn str_eq(a: &str, b: &str) -> (res: bool)
    ensures
        res == (a@ == b@),
{
    let va = chars_of(a);
    let vb = chars_of(b);
    if va.len() != vb.len() {
        return false;
    }
    let mut i: usize = 0;
    while i < va.len()
        invariant
            va@ == a@,
            vb@ == b@,
            va.len() == vb.len(),
            i <= va.len(),
            forall|k: int| 0 <= k < i ==> va@[k] == vb@[k],
        decreases va.len() - i,
    {
        if va[i] != vb[i] {
            return false;
        }
        i += 1;
    }
    assert(va@ =~= vb@);
    true
}

/// Every character of `s` is ASCII.
pub open spec fn is_ascii_text(s: Seq<char>) -> bool {
    forall|i: int| 0 <= i < s.len() ==> (#[trigger] s[i] as u32) < 128
}

/// `c` with `A`..`Z` folded to `a`..`z`.
pub open spec fn ascii_lower_char(c: char) -> char {
    if 65 <= (c as u32) <= 90 { ((c as u32) + 32) as char } else { c }
}

/// `c` with `a`..`z` folded to `A`..`Z`.
pub open spec fn ascii_upper_char(c: char) -> char {
    if 97 <= (c as u32) <= 122 { ((c as u32) - 32) as char } else { c }
}

/// `s` with ASCII capitals folded to small letters.
pub open spec fn ascii_lower(s: Seq<char>) -> Seq<char> {
    s.map_values(|c: char| ascii_lower_char(c))
}

/// `s` with ASCII small letters folded to capitals.
pub open spec fn ascii_upper(s: Seq<char>) -> Seq<char> {
    s.map_values(|c: char| ascii_upper_char(c))
}

/// What `str::to_lowercase` returns for a string (full Unicode lowercase
/// mapping, character by character with context for final sigma).
pub uninterp spec fn lowercase(s: Seq<char>) -> Seq<char>;

/// Calls `str::to_lowercase`; the result is named by `lowercase`. Every
/// character maps to at least one character, so the result is empty
/// exactly when `s` is; an ASCII string has `A`..`Z` mapped to `a`..`z`
/// and its other characters kept.
#[verifier::external_body]
pub(crate) fn to_lowercase(s: &str) -> (res: String)
    ensures
        res@ == lowercase(s@),
        res@.len() == 0 <==> s@.len() == 0,
        is_ascii_text(s@) ==> res@ == ascii_lower(s@),
{
    s.to_lowercase()
}

/// What `format!("{:?}", s)` renders for a string: the characters in double
/// quotes, with `char::escape_debug` escapes.
pub uninterp spec fn debug_quoted(s: Seq<char>) -> Seq<char>;

/// Printable ASCII other than `"` and `\`: characters that `Debug`
/// leaves unescaped.
pub open spec fn is_plain_text(s: Seq<char>) -> bool {
    forall|i: int|
        0 <= i < s.len() ==> 0x20 <= (#[trigger] s[i] as u32) <= 0x7e && s[i] != '"' && s[i] != '\\'
}

/// Renders `s` with the `Debug` formatting of `str`; the result is named by
/// `debug_quoted`. Printable ASCII other than `"` and `\` is not escaped,
/// so such a string comes back in double quotes as it is.
#[verifier::external_body]
pub(crate) fn debug_quote(s: &str) -> (res: String)
    ensures
        res@ == debug_quoted(s@),
        is_plain_text(s@) ==> res@ == seq!['"'] + s@ + seq!['"'],
{
    format!("{:?}", s)
}

} // verus!
