//! Small text helpers shared by the modules: decimal rendering, ASCII case
//! folding, and the few `std` text functions the library calls, each with the
//! contract that its documentation gives.

use vstd::prelude::*;

verus! {

broadcast use {vstd::seq_lib::group_seq_properties, vstd::seq::group_seq_axioms};

/// What `str::to_lowercase` returns for `s` (Unicode lowercase mapping).
pub uninterp spec fn unicode_lowercase(s: Seq<char>) -> Seq<char>;

/// A UTF-16 lead (high) surrogate.
pub open spec fn is_lead_surrogate(u: u16) -> bool {
    0xD800 <= u && u <= 0xDBFF
}

/// A UTF-16 trail (low) surrogate.
pub open spec fn is_trail_surrogate(u: u16) -> bool {
    0xDC00 <= u && u <= 0xDFFF
}

/// Lossy UTF-16 decoding: a lead surrogate followed by a trail surrogate
/// makes one char, every other surrogate (unpaired) becomes U+FFFD, and every
/// other unit is the char of that value.
pub open spec fn utf16_lossy_decode(units: Seq<u16>) -> Seq<char>
    decreases units.len(),
{
    if units.len() == 0 {
        Seq::empty()
    } else if units.len() >= 2 && is_lead_surrogate(units[0]) && is_trail_surrogate(units[1]) {
        seq![(0x10000 + (units[0] - 0xD800) * 0x400 + (units[1] - 0xDC00)) as char]
            + utf16_lossy_decode(units.skip(2))
    } else if is_lead_surrogate(units[0]) || is_trail_surrogate(units[0]) {
        seq!['\u{FFFD}'] + utf16_lossy_decode(units.skip(1))
    } else {
        seq![units[0] as char] + utf16_lossy_decode(units.skip(1))
    }
}

/// The Unicode `White_Space` property: U+0009 to U+000D, U+0020, U+0085,
/// U+00A0, U+1680, U+2000 to U+200A, U+2028, U+2029, U+202F, U+205F and
/// U+3000.
pub open spec fn unicode_whitespace(c: char) -> bool {
    let v = c as u32;
    ||| 0x09 <= v && v <= 0x0d
    ||| v == 0x20 || v == 0x85 || v == 0xa0 || v == 0x1680
    ||| 0x2000 <= v && v <= 0x200a
    ||| v == 0x2028 || v == 0x2029 || v == 0x202f || v == 0x205f || v == 0x3000
}

pub open spec fn is_ascii_char(c: char) -> bool {
    (c as u32) < 0x80
}

pub open spec fn ascii_lower_char(c: char) -> char {
    if 'A' <= c && c <= 'Z' {
        ((c as u32) + 32) as char
    } else {
        c
    }
}

/// `s` with ASCII letters lowercased and every other char kept.
pub open spec fn ascii_lower(s: Seq<char>) -> Seq<char> {
    s.map_values(|c: char| ascii_lower_char(c))
}

/// `str::to_lowercase`: the Unicode lowercase of `s`. For a string of ASCII
/// chars the documented mapping is the ASCII one ('A'..='Z' to 'a'..='z'),
/// so the result is ASCII and lowercase, and lowercasing it again leaves it
/// as it is.
#[verifier::external_body]
pub(crate) fn to_lowercase(s: &str) -> (r: String)
    ensures
        r@ == unicode_lowercase(s@),
        (forall|i: int| 0 <= i < s@.len() ==> is_ascii_char(#[trigger] s@[i])) ==> r@
            == ascii_lower(s@),
        (forall|i: int| 0 <= i < s@.len() ==> is_ascii_char(#[trigger] s@[i])) ==> unicode_lowercase(
            r@,
        ) == r@,
{
    s.to_lowercase()
}

/// `char::is_whitespace`: whether `c` has the Unicode `White_Space` property
/// (see [`unicode_whitespace`]).
#[verifier::external_body]
pub(crate) fn is_whitespace(c: char) -> (r: bool)
    ensures
        r == unicode_whitespace(c),
{
    c.is_whitespace()
}

/// `String::from_utf16_lossy`: decodes UTF-16, replacing each unpaired
/// surrogate with U+FFFD (see [`utf16_lossy_decode`]).
#[verifier::external_body]
pub(crate) fn from_utf16_lossy(units: &[u16]) -> (r: String)
    ensures
        r@ == utf16_lossy_decode(units@),
{
    String::from_utf16_lossy(units)
}

/// `s` holds only whitespace (it trims to nothing).
pub open spec fn is_blank(s: Seq<char>) -> bool {
    forall|i: int| 0 <= i < s.len() ==> unicode_whitespace(#[trigger] s[i])
}

/// Whether `s` holds only whitespace, as `s.trim().is_empty()` tells.
pub fn blank(s: &str) -> (r: bool)
    ensures
        r == is_blank(s@),
{
    let n = s.unicode_len();
    let mut i: usize = 0;
    while i < n
        invariant
            i <= n,
            n == s@.len(),
            forall|k: int| 0 <= k < i ==> unicode_whitespace(#[trigger] s@[k]),
        decreases n - i,
    {
        if !is_whitespace(s.get_char(i)) {
            return false;
        }
        i = i + 1;
    }
    true
}

/// `String::push`: appends `c`.
#[verifier::external_body]
pub(crate) fn push_char(s: &mut String, c: char)
    ensures
        final(s)@ == old(s)@.push(c),
{
    s.push(c)
}

/// The char of a decimal digit.
pub open spec fn digit_char(d: nat) -> char {
    ((d % 10) + 0x30) as char
}

/// Decimal spelling of `n`, without sign or leading zeros ("0" for zero).
pub open spec fn decimal_chars(n: nat) -> Seq<char>
    decreases n,
{
    if n < 10 {
        seq![digit_char(n)]
    } else {
        decimal_chars(n / 10).push(digit_char(n % 10))
    }
}

fn char_of_digit(d: u32) -> (c: char)
    requires
        d < 10,
    ensures
        c == digit_char(d as nat),
{
    match d {
        0 => '0',
        1 => '1',
        2 => '2',
        3 => '3',
        4 => '4',
        5 => '5',
        6 => '6',
        7 => '7',
        8 => '8',
        _ => '9',
    }
}

/// Renders `v` in decimal, as `u32::to_string` does.
pub fn decimal(v: u32) -> (r: String)
    ensures
        r@ == decimal_chars(v as nat),
{
    // Collect the digits, least significant first.
    let mut digits: Vec<char> = Vec::new();
    let mut n: u32 = v;
    while n >= 10
        invariant
            decimal_chars(v as nat) == decimal_chars(n as nat) + digits@.reverse(),
        decreases n,
    {
        let c = char_of_digit(n % 10);
        let ghost before = digits@;
        digits.push(c);
        proof {
            assert(digits@.reverse() =~= seq![c] + before.reverse());
            assert(decimal_chars(n as nat / 10).push(c) + before.reverse() =~= decimal_chars(
                n as nat / 10,
            ) + digits@.reverse());
        }
        n = n / 10;
    }
    let c = char_of_digit(n);
    let ghost before = digits@;
    digits.push(c);
    assert(digits@.reverse() =~= seq![c] + before.reverse());
    let mut r = String::new();
    let mut i: usize = digits.len();
    while i > 0
        invariant
            i <= digits@.len(),
            r@ == digits@.skip(i as int).reverse(),
        decreases i,
    {
        i = i - 1;
        let ghost before = r@;
        push_char(&mut r, digits[i]);
        assert(digits@.skip(i as int).reverse() =~= before.push(digits@[i as int]));
    }
    assert(digits@.skip(0) =~= digits@);
    r
}

/// The contents of each string of a list.
pub open spec fn string_views(v: Seq<String>) -> Seq<Seq<char>> {
    v.map_values(|s: String| s@)
}

/// An owned copy of each string of `items`, in order.
pub fn owned_strings(items: &[&str]) -> (r: Vec<String>)
    ensures
        string_views(r@) == items@.map_values(|s: &str| s@),
{
    let mut r: Vec<String> = Vec::new();
    let mut i: usize = 0;
    while i < items.len()
        invariant
            i <= items@.len(),
            string_views(r@) == items@.take(i as int).map_values(|s: &str| s@),
        decreases items@.len() - i,
    {
        let ghost before = string_views(r@);
        r.push(items[i].to_owned());
        assert(string_views(r@) =~= before.push(items@[i as int]@));
        assert(items@.take(i + 1).map_values(|s: &str| s@) =~= items@.take(i as int).map_values(
            |s: &str| s@,
        ).push(items@[i as int]@));
        i = i + 1;
    }
    assert(items@.take(i as int) =~= items@);
    r
}

} // verus!
