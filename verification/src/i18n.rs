//! Interface language: the ten supported locales and the mapping of the
//! operating system's language (a BCP-47 locale name, or else a Windows
//! LANGID) onto them. Simplified Chinese is the fallback.

use vstd::prelude::*;
use vstd::string::StringSliceAdditionalSpecFns;

use crate::text::{blank, from_utf16_lossy, is_blank, utf16_lossy_decode};

verus! {

broadcast use {
    vstd::seq_lib::group_seq_properties,
    vstd::seq::group_seq_axioms,
    vstd::string::group_string_axioms,
};

/// The supported locales, in the order the front end lists them.
pub open spec fn supported_locales() -> Seq<Seq<char>> {
    seq![
        "zh-CN"@,
        "zh-TW"@,
        "en"@,
        "ja"@,
        "ko"@,
        "es"@,
        "ar"@,
        "fr"@,
        "de"@,
        "ru"@,
    ]
}

/// The supported locales, in the order the front end lists them.
pub fn supported() -> (r: Vec<&'static str>)
    ensures
        r@.map_values(|s: &str| s@) == supported_locales(),
{
    let r = vec!["zh-CN", "zh-TW", "en", "ja", "ko", "es", "ar", "fr", "de", "ru"];
    assert(r@.map_values(|s: &str| s@) =~= supported_locales());
    r
}

/// Whether `code` names one of the supported locales (the check applied
/// before a language choice is stored).
pub fn is_supported(code: &str) -> (r: bool)
    ensures
        r == supported_locales().contains(code@),
{
    let locales = supported();
    let c = code.to_owned();
    let mut i: usize = 0;
    while i < locales.len()
        invariant
            i <= locales@.len(),
            c@ == code@,
            locales@.map_values(|s: &str| s@) == supported_locales(),
            forall|j: int| 0 <= j < i ==> supported_locales()[j] != code@,
        decreases locales@.len() - i,
    {
        assert(supported_locales()[i as int] == locales@[i as int]@);
        if locales[i].to_owned() == c {
            assert(supported_locales()[i as int] == code@);
            return true;
        }
        i = i + 1;
    }
    false
}

// ---------------------------------------------------------------------------
// Windows LANGID.
// ---------------------------------------------------------------------------

/// The locale of a Windows LANGID: primary language in the low 10 bits,
/// sub-language in the bits above. For Chinese the sub-language picks the
/// script: PRC (2) and Singapore (4) are Simplified, Taiwan (1), Hong Kong (3)
/// and Macau (5) Traditional; neutral Chinese and unknown languages give none.
pub open spec fn langid_locale(langid: u16) -> Option<Seq<char>> {
    let primary = langid & 0x3ff;
    let sublang = (langid >> 10u16) & 0x1f;
    if primary == 0x04 {
        if sublang == 0x02 || sublang == 0x04 {
            Some("zh-CN"@)
        } else if sublang == 0x01 || sublang == 0x03 || sublang == 0x05 {
            Some("zh-TW"@)
        } else {
            None
        }
    } else if primary == 0x09 {
        Some("en"@)
    } else if primary == 0x11 {
        Some("ja"@)
    } else if primary == 0x12 {
        Some("ko"@)
    } else if primary == 0x0a {
        Some("es"@)
    } else if primary == 0x01 {
        Some("ar"@)
    } else if primary == 0x0c {
        Some("fr"@)
    } else if primary == 0x07 {
        Some("de"@)
    } else if primary == 0x19 {
        Some("ru"@)
    } else {
        None
    }
}

fn some_str(s: &str) -> (r: Option<String>)
    ensures
        r is Some,
        r->0@ == s@,
{
    Some(s.to_owned())
}

/// Maps a Windows LANGID onto a supported locale.
pub fn map_langid(langid: u16) -> (r: Option<String>)
    ensures
        match r {
            Some(s) => langid_locale(langid) == Some(s@),
            None => langid_locale(langid) is None,
        },
{
    let primary = langid & 0x3ff;
    let sublang = (langid >> 10u16) & 0x1f;
    if primary == 0x04 {
        if sublang == 0x02 || sublang == 0x04 {
            some_str("zh-CN")
        } else if sublang == 0x01 || sublang == 0x03 || sublang == 0x05 {
            some_str("zh-TW")
        } else {
            None
        }
    } else if primary == 0x09 {
        some_str("en")
    } else if primary == 0x11 {
        some_str("ja")
    } else if primary == 0x12 {
        some_str("ko")
    } else if primary == 0x0a {
        some_str("es")
    } else if primary == 0x01 {
        some_str("ar")
    } else if primary == 0x0c {
        some_str("fr")
    } else if primary == 0x07 {
        some_str("de")
    } else if primary == 0x19 {
        some_str("ru")
    } else {
        None
    }
}

// ---------------------------------------------------------------------------
// BCP-47 locale names.
// ---------------------------------------------------------------------------

/// The bytes of an ASCII text.
pub open spec fn ascii_bytes(s: Seq<char>) -> Seq<u8> {
    s.map_values(|c: char| c as u8)
}

pub open spec fn lower_byte(b: u8) -> u8 {
    if 0x41 <= b <= 0x5a {
        (b + 32) as u8
    } else {
        b
    }
}

pub open spec fn upper_byte(b: u8) -> u8 {
    if 0x61 <= b <= 0x7a {
        (b - 32) as u8
    } else {
        b
    }
}

/// ASCII lowercase of a byte string (other bytes kept).
pub open spec fn lower_bytes(s: Seq<u8>) -> Seq<u8> {
    s.map_values(|b: u8| lower_byte(b))
}

/// ASCII uppercase of a byte string (other bytes kept).
pub open spec fn upper_bytes(s: Seq<u8>) -> Seq<u8> {
    s.map_values(|b: u8| upper_byte(b))
}

/// '-' or '_', the separators of a locale name's subtags.
pub open spec fn is_subtag_separator(b: u8) -> bool {
    b == 0x2d || b == 0x5f
}

/// Index of the first separator of `s`, or its length.
pub open spec fn separator_index(s: Seq<u8>) -> nat
    decreases s.len(),
{
    if s.len() == 0 {
        0
    } else if is_subtag_separator(s[0]) {
        0
    } else {
        1 + separator_index(s.drop_first())
    }
}

/// The subtags of a locale name: the pieces between separators, empty ones
/// included (at least one piece).
pub open spec fn subtags(s: Seq<u8>) -> Seq<Seq<u8>>
    decreases s.len(),
{
    let n = separator_index(s);
    if n >= s.len() {
        seq![s]
    } else {
        seq![s.take(n as int)] + subtags(s.skip(n + 1 as int))
    }
}

/// The first subtag of `parts` that is `len` bytes long.
pub open spec fn first_of_len(parts: Seq<Seq<u8>>, len: nat) -> Option<Seq<u8>>
    decreases parts.len(),
{
    if parts.len() == 0 {
        None
    } else if parts[0].len() == len {
        Some(parts[0])
    } else {
        first_of_len(parts.drop_first(), len)
    }
}

/// The subtags after the language mark Traditional Chinese: the first
/// four-byte subtag (the script) is "Hant" in any case, or the first two-byte
/// subtag (the region) is TW, HK or MO in any case.
pub open spec fn traditional_subtags(rest: Seq<Seq<u8>>) -> bool {
    ||| match first_of_len(rest, 4) {
        Some(script) => lower_bytes(script) == ascii_bytes("hant"@),
        None => false,
    }
    ||| match first_of_len(rest, 2) {
        Some(region) => {
            let u = upper_bytes(region);
            u == ascii_bytes("TW"@) || u == ascii_bytes("HK"@) || u == ascii_bytes("MO"@)
        },
        None => false,
    }
}

/// The supported locale of a BCP-47 locale name (bytes), by its language
/// subtag in any case; Chinese is Traditional or Simplified by script and
/// region; anything else falls back to Simplified Chinese.
pub open spec fn bcp47_locale(tag: Seq<u8>) -> Seq<char> {
    let parts = subtags(tag);
    let lang = lower_bytes(parts[0]);
    if lang == ascii_bytes("zh"@) {
        if traditional_subtags(parts.drop_first()) {
            "zh-TW"@
        } else {
            "zh-CN"@
        }
    } else if lang == ascii_bytes("en"@) {
        "en"@
    } else if lang == ascii_bytes("ja"@) {
        "ja"@
    } else if lang == ascii_bytes("ko"@) {
        "ko"@
    } else if lang == ascii_bytes("es"@) {
        "es"@
    } else if lang == ascii_bytes("ar"@) {
        "ar"@
    } else if lang == ascii_bytes("fr"@) {
        "fr"@
    } else if lang == ascii_bytes("de"@) {
        "de"@
    } else if lang == ascii_bytes("ru"@) {
        "ru"@
    } else {
        "zh-CN"@
    }
}

proof fn lemma_separator_index(s: Seq<u8>)
    ensures
        separator_index(s) <= s.len(),
        separator_index(s) < s.len() ==> is_subtag_separator(s[separator_index(s) as int]),
        forall|k: int| 0 <= k < separator_index(s) ==> !is_subtag_separator(#[trigger] s[k]),
    decreases s.len(),
{
    if s.len() > 0 && !is_subtag_separator(s[0]) {
        lemma_separator_index(s.drop_first());
        assert forall|k: int| 0 <= k < separator_index(s) implies !is_subtag_separator(
            #[trigger] s[k],
        ) by {
            if k > 0 {
                assert(s[k] == s.drop_first()[k - 1]);
            }
        }
    }
}

proof fn lemma_separator_index_unique(s: Seq<u8>, n: int)
    requires
        0 <= n <= s.len(),
        n < s.len() ==> is_subtag_separator(s[n]),
        forall|k: int| 0 <= k < n ==> !is_subtag_separator(#[trigger] s[k]),
    ensures
        separator_index(s) == n,
{
    lemma_separator_index(s);
    if separator_index(s) < n {
        assert(is_subtag_separator(s[separator_index(s) as int]));
    }
    if separator_index(s) > n {
        assert(!is_subtag_separator(s[n]));
    }
}

/// End of the subtag that starts at `start`.
fn subtag_end(b: &[u8], start: usize) -> (end: usize)
    requires
        start <= b@.len(),
    ensures
        start <= end <= b@.len(),
        end - start == separator_index(b@.skip(start as int)),
{
    let mut end: usize = start;
    while end < b.len() && b[end] != 0x2d && b[end] != 0x5f
        invariant
            start <= end <= b@.len(),
            forall|q: int| start <= q < end ==> !is_subtag_separator(#[trigger] b@[q]),
        decreases b@.len() - end,
    {
        end = end + 1;
    }
    proof {
        let t = b@.skip(start as int);
        assert forall|k: int| 0 <= k < end - start implies !is_subtag_separator(#[trigger] t[k]) by {
            assert(t[k] == b@[start + k]);
        }
        if end < b.len() {
            assert(t[end - start] == b@[end as int]);
        }
        lemma_separator_index_unique(t, end - start);
    }
    end
}

/// `rg` is a range of `b` that holds `part`.
pub open spec fn range_holds(b: Seq<u8>, rg: (usize, usize), part: Seq<u8>) -> bool {
    rg.0 <= rg.1 <= b.len() && b.subrange(rg.0 as int, rg.1 as int) == part
}

/// The byte ranges of the subtags of `b`.
fn subtag_ranges(b: &[u8]) -> (r: Vec<(usize, usize)>)
    ensures
        r@.len() == subtags(b@).len(),
        forall|i: int|
            0 <= i < r@.len() ==> range_holds(b@, #[trigger] r@[i], subtags(b@)[i]),
{
    let mut r: Vec<(usize, usize)> = Vec::new();
    let mut pos: usize = 0;
    assert(b@.skip(0) =~= b@);
    loop
        invariant_except_break
            pos <= b@.len(),
            forall|i: int|
                0 <= i < r@.len() ==> range_holds(b@, #[trigger] r@[i], subtags(b@)[i]),
            subtags(b@).len() == r@.len() + subtags(b@.skip(pos as int)).len(),
            forall|i: int|
                0 <= i < subtags(b@.skip(pos as int)).len() ==> #[trigger] subtags(
                    b@.skip(pos as int),
                )[i] == subtags(b@)[r@.len() + i],
        ensures
            r@.len() == subtags(b@).len(),
            forall|i: int|
                0 <= i < r@.len() ==> range_holds(b@, #[trigger] r@[i], subtags(b@)[i]),
        decreases b@.len() - pos,
    {
        let end = subtag_end(b, pos);
        let ghost t = b@.skip(pos as int);
        let ghost k = r@.len() as int;
        assert(t.take(end - pos) =~= b@.subrange(pos as int, end as int));
        assert(subtags(t)[0] == b@.subrange(pos as int, end as int));
        assert(subtags(t)[0] == subtags(b@)[k]);
        let ghost before = r@;
        r.push((pos, end));
        assert forall|i: int| 0 <= i < r@.len() implies range_holds(
            b@,
            #[trigger] r@[i],
            subtags(b@)[i],
        ) by {
            if i < k {
                assert(r@[i] == before[i]);
            } else {
                assert(r@[i] == (pos, end));
            }
        }
        if end == b.len() {
            assert(subtags(t).len() == 1);
            break;
        }
        proof {
            assert(t.skip(end - pos + 1) =~= b@.skip(end + 1));
            let u = subtags(b@.skip(end + 1));
            assert(subtags(t) == seq![t.take(end - pos)] + u);
            assert forall|i: int| 0 <= i < u.len() implies #[trigger] u[i] == subtags(b@)[r@.len()
                + i] by {
                assert(subtags(t)[i + 1] == u[i]);
            }
        }
        pos = end + 1;
    }
    r
}

/// Whether `b[s..e]`, ASCII-lowercased, is the ASCII text `lit`.
fn lower_eq(b: &[u8], s: usize, e: usize, lit: &str) -> (r: bool)
    requires
        s <= e <= b@.len(),
        vstd::string::is_ascii(lit),
    ensures
        r == (lower_bytes(b@.subrange(s as int, e as int)) == ascii_bytes(lit@)),
{
    let l = lit.as_bytes();
    proof {
        vstd::string::is_ascii_spec_bytes(lit);
    }
    assert(l@ =~= ascii_bytes(lit@));
    let ghost part = b@.subrange(s as int, e as int);
    if e - s != l.len() {
        assert(lower_bytes(part).len() != ascii_bytes(lit@).len());
        return false;
    }
    let mut i: usize = 0;
    while i < l.len()
        invariant
            i <= l@.len(),
            e - s == l@.len(),
            s <= e <= b@.len(),
            part == b@.subrange(s as int, e as int),
            l@ == ascii_bytes(lit@),
            forall|k: int| 0 <= k < i ==> lower_byte(#[trigger] part[k]) == l@[k],
        decreases l@.len() - i,
    {
        let c = b[s + i];
        let lc = if 0x41 <= c && c <= 0x5a {
            c + 32
        } else {
            c
        };
        assert(part[i as int] == c);
        assert(lc == lower_byte(c));
        assert(l@[i as int] == ascii_bytes(lit@)[i as int]);
        assert(lower_bytes(part)[i as int] == lower_byte(part[i as int]));
        if lc != l[i] {
            assert(lower_bytes(part)[i as int] != ascii_bytes(lit@)[i as int]);
            return false;
        }
        i = i + 1;
    }
    assert(lower_bytes(part) =~= ascii_bytes(lit@));
    true
}

/// Whether `b[s..e]`, ASCII-uppercased, is the ASCII text `lit`.
fn upper_eq(b: &[u8], s: usize, e: usize, lit: &str) -> (r: bool)
    requires
        s <= e <= b@.len(),
        vstd::string::is_ascii(lit),
    ensures
        r == (upper_bytes(b@.subrange(s as int, e as int)) == ascii_bytes(lit@)),
{
    let l = lit.as_bytes();
    proof {
        vstd::string::is_ascii_spec_bytes(lit);
    }
    assert(l@ =~= ascii_bytes(lit@));
    let ghost part = b@.subrange(s as int, e as int);
    if e - s != l.len() {
        assert(upper_bytes(part).len() != ascii_bytes(lit@).len());
        return false;
    }
    let mut i: usize = 0;
    while i < l.len()
        invariant
            i <= l@.len(),
            e - s == l@.len(),
            s <= e <= b@.len(),
            part == b@.subrange(s as int, e as int),
            l@ == ascii_bytes(lit@),
            forall|k: int| 0 <= k < i ==> upper_byte(#[trigger] part[k]) == l@[k],
        decreases l@.len() - i,
    {
        let c = b[s + i];
        let uc = if 0x61 <= c && c <= 0x7a {
            c - 32
        } else {
            c
        };
        assert(part[i as int] == c);
        assert(uc == upper_byte(c));
        assert(l@[i as int] == ascii_bytes(lit@)[i as int]);
        assert(upper_bytes(part)[i as int] == upper_byte(part[i as int]));
        if uc != l[i] {
            assert(upper_bytes(part)[i as int] != ascii_bytes(lit@)[i as int]);
            return false;
        }
        i = i + 1;
    }
    assert(upper_bytes(part) =~= ascii_bytes(lit@));
    true
}

/// Index (into `ranges`, from 1 on) of the first subtag after the language
/// that is `len` bytes long.
fn first_range_of_len(b: &[u8], ranges: &Vec<(usize, usize)>, len: usize) -> (r: Option<usize>)
    requires
        ranges@.len() == subtags(b@).len(),
        forall|i: int|
            0 <= i < ranges@.len() ==> range_holds(b@, #[trigger] ranges@[i], subtags(b@)[i]),
    ensures
        match r {
            Some(i) => 1 <= i < ranges@.len() && first_of_len(subtags(b@).drop_first(), len as nat)
                == Some(subtags(b@)[i as int]),
            None => first_of_len(subtags(b@).drop_first(), len as nat) is None,
        },
{
    let ghost ps = subtags(b@);
    let mut i: usize = 1;
    assert(ps.skip(1) =~= ps.drop_first());
    while i < ranges.len()
        invariant
            1 <= i <= ranges@.len(),
            ranges@.len() == ps.len(),
            ps == subtags(b@),
            forall|k: int| 0 <= k < ranges@.len() ==> range_holds(b@, #[trigger] ranges@[k], ps[k]),
            first_of_len(ps.drop_first(), len as nat) == first_of_len(ps.skip(i as int), len as nat),
        decreases ranges@.len() - i,
    {
        let (lo, hi) = ranges[i];
        assert(range_holds(b@, ranges@[i as int], ps[i as int]));
        assert(ps.skip(i as int)[0] == ps[i as int]);
        assert((hi - lo) as nat == ps[i as int].len());
        if hi - lo == len {
            return Some(i);
        }
        assert(ps.skip(i as int).drop_first() =~= ps.skip(i + 1));
        i = i + 1;
    }
    assert(ps.skip(i as int).len() == 0);
    None
}

/// Maps a BCP-47 locale name (such as `zh-Hans-CN`, `en-US`, `ja-JP`) onto a
/// supported locale.
pub fn map_bcp47(tag: &str) -> (r: String)
    ensures
        r@ == bcp47_locale(tag.spec_bytes()),
{
    proof {
        reveal_strlit("zh");
        reveal_strlit("en");
        reveal_strlit("ja");
        reveal_strlit("ko");
        reveal_strlit("es");
        reveal_strlit("ar");
        reveal_strlit("fr");
        reveal_strlit("de");
        reveal_strlit("ru");
        reveal_strlit("hant");
        reveal_strlit("TW");
        reveal_strlit("HK");
        reveal_strlit("MO");
    }
    let b = tag.as_bytes();
    let ranges = subtag_ranges(b);
    let ghost parts = subtags(b@);
    let (s0, e0) = ranges[0];
    assert(range_holds(b@, ranges@[0], parts[0]));
    if lower_eq(b, s0, e0, "zh") {
        let script = first_range_of_len(b, &ranges, 4);
        let by_script = match script {
            Some(i) => lower_eq(b, ranges[i].0, ranges[i].1, "hant"),
            None => false,
        };
        let region = first_range_of_len(b, &ranges, 2);
        let by_region = match region {
            Some(i) => upper_eq(b, ranges[i].0, ranges[i].1, "TW") || upper_eq(
                b,
                ranges[i].0,
                ranges[i].1,
                "HK",
            ) || upper_eq(b, ranges[i].0, ranges[i].1, "MO"),
            None => false,
        };
        if by_script || by_region {
            "zh-TW".to_owned()
        } else {
            "zh-CN".to_owned()
        }
    } else if lower_eq(b, s0, e0, "en") {
        "en".to_owned()
    } else if lower_eq(b, s0, e0, "ja") {
        "ja".to_owned()
    } else if lower_eq(b, s0, e0, "ko") {
        "ko".to_owned()
    } else if lower_eq(b, s0, e0, "es") {
        "es".to_owned()
    } else if lower_eq(b, s0, e0, "ar") {
        "ar".to_owned()
    } else if lower_eq(b, s0, e0, "fr") {
        "fr".to_owned()
    } else if lower_eq(b, s0, e0, "de") {
        "de".to_owned()
    } else if lower_eq(b, s0, e0, "ru") {
        "ru".to_owned()
    } else {
        "zh-CN".to_owned()
    }
}

// ---------------------------------------------------------------------------
// The operating system's language.
// ---------------------------------------------------------------------------

/// The locale name that `GetUserDefaultLocaleName` reported: `len` counts the
/// UTF-16 units written into `buf` including the terminating NUL; a name that
/// is empty or only whitespace counts as none.
pub open spec fn reported_locale_name(buf: Seq<u16>, len: i32) -> Option<Seq<char>> {
    if len > 1 && !is_blank(utf16_lossy_decode(buf.take(len - 1))) {
        Some(utf16_lossy_decode(buf.take(len - 1)))
    } else {
        None
    }
}

/// Decodes the locale name that `GetUserDefaultLocaleName` wrote into `buf`.
pub fn locale_name_from_buffer(buf: &[u16], len: i32) -> (r: Option<String>)
    requires
        len > 1 ==> len - 1 <= buf@.len(),
    ensures
        match r {
            Some(s) => reported_locale_name(buf@, len) == Some(s@),
            None => reported_locale_name(buf@, len) is None,
        },
{
    if len > 1 {
        let n = (len - 1) as usize;
        let units = vstd::slice::slice_subrange(buf, 0, n);
        assert(units@ =~= buf@.take(len - 1));
        let tag = from_utf16_lossy(units);
        if !blank(tag.as_str()) {
            return Some(tag);
        }
    }
    None
}

/// The interface language to use on first start: the locale name when one was
/// reported, else the UI language's LANGID, else Simplified Chinese.
pub open spec fn os_language(locale_name: Option<Seq<u8>>, ui_langid: u16) -> Seq<char> {
    match locale_name {
        Some(tag) => bcp47_locale(tag),
        None => match langid_locale(ui_langid) {
            Some(code) => code,
            None => "zh-CN"@,
        },
    }
}

/// Picks the supported locale for the operating system's language, given the
/// locale name it reports (see [`locale_name_from_buffer`]) and its UI
/// language LANGID.
pub fn detect_os_language(locale_name: Option<&str>, ui_langid: u16) -> (r: String)
    ensures
        r@ == os_language(
            match locale_name {
                Some(t) => Some(t.spec_bytes()),
                None => None,
            },
            ui_langid,
        ),
{
    match locale_name {
        Some(tag) => map_bcp47(tag),
        None => match map_langid(ui_langid) {
            Some(code) => code,
            None => "zh-CN".to_owned(),
        },
    }
}

/// Language detection always ends in a supported locale: whatever locale
/// name or LANGID the system reports, the language chosen is one the front
/// end offers.
pub proof fn lemma_detected_language_supported(locale_name: Option<Seq<u8>>, ui_langid: u16)
    ensures
        supported_locales().contains(os_language(locale_name, ui_langid)),
        match locale_name {
            Some(tag) => supported_locales().contains(bcp47_locale(tag)),
            None => true,
        },
        match langid_locale(ui_langid) {
            Some(code) => supported_locales().contains(code),
            None => true,
        },
{
    let l = supported_locales();
    assert(l[0] == "zh-CN"@);
    assert(l[1] == "zh-TW"@);
    assert(l[2] == "en"@);
    assert(l[3] == "ja"@);
    assert(l[4] == "ko"@);
    assert(l[5] == "es"@);
    assert(l[6] == "ar"@);
    assert(l[7] == "fr"@);
    assert(l[8] == "de"@);
    assert(l[9] == "ru"@);
}

} // verus!
