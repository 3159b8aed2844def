//! Power-button action (PBUTTONACTION): reading it back from the text that
//! `powercfg /q` prints, remembering the value found before the launcher first
//! changes it, and the values to write when setting "sleep" and when restoring.

use vstd::prelude::*;
use vstd::string::StringSliceAdditionalSpecFns;

use crate::text::{decimal, decimal_chars, owned_strings, string_views};

verus! {

broadcast use {vstd::seq_lib::group_seq_properties, vstd::seq::group_seq_axioms};

/// Power-button action "sleep".
pub const ACTION_SLEEP: u32 = 1;

// ---------------------------------------------------------------------------
// Reading the action from `powercfg /q` output.
// ---------------------------------------------------------------------------

pub open spec fn is_hex_digit(b: u8) -> bool {
    (0x30 <= b <= 0x39) || (0x61 <= b <= 0x66) || (0x41 <= b <= 0x46)
}

pub open spec fn hex_digit_value(b: u8) -> int {
    if 0x30 <= b <= 0x39 {
        b - 0x30
    } else if 0x61 <= b <= 0x66 {
        b - 0x61 + 10
    } else {
        b - 0x41 + 10
    }
}

/// Number of leading hex digits of `s`.
pub open spec fn hex_run_len(s: Seq<u8>) -> nat
    decreases s.len(),
{
    if s.len() > 0 && is_hex_digit(s[0]) {
        1 + hex_run_len(s.drop_first())
    } else {
        0
    }
}

/// The number that the hex digits `d` spell, most significant first.
pub open spec fn hex_number(d: Seq<u8>) -> int
    decreases d.len(),
{
    if d.len() == 0 {
        0
    } else {
        hex_number(d.drop_last()) * 16 + hex_digit_value(d.last())
    }
}

/// Index of the first "0x" in `s`.
pub open spec fn find_0x(s: Seq<u8>) -> Option<int>
    decreases s.len(),
{
    if s.len() < 2 {
        None
    } else if s[0] == 0x30 && s[1] == 0x78 {
        Some(0)
    } else {
        match find_0x(s.drop_first()) {
            Some(i) => Some(i + 1),
            None => None,
        }
    }
}

/// The value a line carries: the hex digits right after its first "0x", read
/// as a `u32`; none when there is no "0x", no digit after it, or the number
/// does not fit.
pub open spec fn line_value(line: Seq<u8>) -> Option<u32> {
    match find_0x(line) {
        Some(i) => {
            let rest = line.skip(i + 2);
            let d = rest.take(hex_run_len(rest) as int);
            if d.len() > 0 && hex_number(d) <= u32::MAX {
                Some(hex_number(d) as u32)
            } else {
                None
            }
        },
        None => None,
    }
}

/// Index of the first line break in `s`, or its length.
pub open spec fn newline_index(s: Seq<u8>) -> nat
    decreases s.len(),
{
    if s.len() == 0 {
        0
    } else if s[0] == 0x0a {
        0
    } else {
        1 + newline_index(s.drop_first())
    }
}

/// The values of the lines of `text`, in order.
pub open spec fn power_values(text: Seq<u8>) -> Seq<u32>
    decreases text.len(),
{
    if text.len() == 0 {
        Seq::empty()
    } else {
        let n = newline_index(text);
        let head = match line_value(text.take(n as int)) {
            Some(v) => seq![v],
            None => Seq::empty(),
        };
        if n < text.len() {
            head + power_values(text.skip(n + 1 as int))
        } else {
            head
        }
    }
}

/// The (AC, DC) action pair that `powercfg /q ... PBUTTONACTION` prints: the
/// first two line values.
pub open spec fn power_button_pair(text: Seq<u8>) -> Option<(u32, u32)> {
    let v = power_values(text);
    if v.len() >= 2 {
        Some((v[0], v[1]))
    } else {
        None
    }
}

proof fn lemma_newline_index(s: Seq<u8>)
    ensures
        newline_index(s) <= s.len(),
        newline_index(s) < s.len() ==> s[newline_index(s) as int] == 0x0a,
        forall|k: int| 0 <= k < newline_index(s) ==> s[k] != 0x0a,
    decreases s.len(),
{
    if s.len() > 0 && s[0] != 0x0a {
        lemma_newline_index(s.drop_first());
        assert forall|k: int| 0 <= k < newline_index(s) implies s[k] != 0x0a by {
            if k > 0 {
                assert(s[k] == s.drop_first()[k - 1]);
            }
        }
    }
}

proof fn lemma_newline_index_unique(s: Seq<u8>, n: int)
    requires
        0 <= n <= s.len(),
        n < s.len() ==> s[n] == 0x0a,
        forall|k: int| 0 <= k < n ==> s[k] != 0x0a,
    ensures
        newline_index(s) == n,
{
    lemma_newline_index(s);
    if newline_index(s) < n {
        assert(s[newline_index(s) as int] == 0x0a);
    }
    if newline_index(s) > n {
        assert(s[n] != 0x0a);
    }
}

proof fn lemma_find_0x(s: Seq<u8>)
    ensures
        find_0x(s) is Some ==> {
            let i = find_0x(s)->0;
            &&& 0 <= i && i + 1 < s.len()
            &&& s[i] == 0x30 && s[i + 1] == 0x78
            &&& forall|k: int| 0 <= k < i ==> !(s[k] == 0x30 && #[trigger] s[k + 1] == 0x78)
        },
        find_0x(s) is None ==> forall|k: int|
            0 <= k && k + 1 < s.len() ==> !(s[k] == 0x30 && #[trigger] s[k + 1] == 0x78),
    decreases s.len(),
{
    if s.len() >= 2 {
        lemma_find_0x(s.drop_first());
        let t = s.drop_first();
        assert forall|k: int| 0 < k && k + 1 < s.len() implies #[trigger] s[k + 1] == t[k] && s[k] == t[k - 1] by {}
    }
}

proof fn lemma_hex_run_len(s: Seq<u8>)
    ensures
        hex_run_len(s) <= s.len(),
        forall|k: int| 0 <= k < hex_run_len(s) ==> is_hex_digit(#[trigger] s[k]),
        hex_run_len(s) < s.len() ==> !is_hex_digit(s[hex_run_len(s) as int]),
    decreases s.len(),
{
    if s.len() > 0 && is_hex_digit(s[0]) {
        lemma_hex_run_len(s.drop_first());
        assert forall|k: int| 0 <= k < hex_run_len(s) implies is_hex_digit(#[trigger] s[k]) by {
            if k > 0 {
                assert(s[k] == s.drop_first()[k - 1]);
            }
        }
    }
}

proof fn lemma_hex_run_len_unique(s: Seq<u8>, n: int)
    requires
        0 <= n <= s.len(),
        n < s.len() ==> !is_hex_digit(s[n]),
        forall|k: int| 0 <= k < n ==> is_hex_digit(#[trigger] s[k]),
    ensures
        hex_run_len(s) == n,
{
    lemma_hex_run_len(s);
    if hex_run_len(s) < n {
        assert(is_hex_digit(s[hex_run_len(s) as int]));
    }
    if hex_run_len(s) > n {
        assert(is_hex_digit(s[n]));
    }
}

proof fn lemma_hex_number_grows(d: Seq<u8>, x: u8)
    ensures
        hex_number(d.push(x)) == hex_number(d) * 16 + hex_digit_value(x),
        is_hex_digit(x) ==> hex_number(d.push(x)) >= hex_number(d) * 16,
{
    assert(d.push(x).drop_last() =~= d);
}

proof fn lemma_hex_number_nonneg(d: Seq<u8>)
    requires
        forall|k: int| 0 <= k < d.len() ==> is_hex_digit(#[trigger] d[k]),
    ensures
        hex_number(d) >= 0,
    decreases d.len(),
{
    if d.len() > 0 {
        lemma_hex_number_nonneg(d.drop_last());
        assert(is_hex_digit(d[d.len() - 1]));
    }
}

fn is_hex_byte(b: u8) -> (r: bool)
    ensures
        r == is_hex_digit(b),
{
    (0x30 <= b && b <= 0x39) || (0x61 <= b && b <= 0x66) || (0x41 <= b && b <= 0x46)
}

fn hex_value_of(b: u8) -> (r: u32)
    requires
        is_hex_digit(b),
    ensures
        r == hex_digit_value(b),
{
    if 0x30 <= b && b <= 0x39 {
        (b - 0x30) as u32
    } else if 0x61 <= b && b <= 0x66 {
        (b - 0x61 + 10) as u32
    } else {
        (b - 0x41 + 10) as u32
    }
}

/// `b[j..end]` starts with "0x".
fn starts_0x(b: &[u8], j: usize, end: usize) -> (r: bool)
    requires
        j < end <= b@.len(),
    ensures
        r == (j + 1 < end && b@[j as int] == 0x30 && b@[j + 1] == 0x78),
{
    j + 1 < end && b[j] == 0x30 && b[j + 1] == 0x78
}

/// The number spelled by the hex digits at the head of `s`, when there is at
/// least one and it fits in a `u32`.
pub open spec fn leading_hex_u32(s: Seq<u8>) -> Option<u32> {
    let d = s.take(hex_run_len(s) as int);
    if d.len() > 0 && hex_number(d) <= u32::MAX {
        Some(hex_number(d) as u32)
    } else {
        None
    }
}

/// Index of the first "0x" in `b[start..end]`.
#[verifier::rlimit(30)]
fn find_0x_in(b: &[u8], start: usize, end: usize) -> (r: Option<usize>)
    requires
        start <= end <= b@.len(),
    ensures
        match r {
            Some(j) => start <= j < end && find_0x(b@.subrange(start as int, end as int)) == Some(
                j - start,
            ),
            None => find_0x(b@.subrange(start as int, end as int)) is None,
        },
{
    let ghost line = b@.subrange(start as int, end as int);
    proof {
        lemma_find_0x(line);
    }
    let mut j: usize = start;
    while j < end && !starts_0x(b, j, end)
        invariant
            start <= j <= end,
            end <= b@.len(),
            line == b@.subrange(start as int, end as int),
            forall|k: int|
                0 <= k < j - start && k + 1 < line.len() ==> !(line[k] == 0x30
                    && #[trigger] line[k + 1] == 0x78),
        decreases end - j,
    {
        assert(line[j - start] == b@[j as int]);
        if j + 1 < end {
            assert(line[j - start + 1] == b@[j + 1]);
        }
        j = j + 1;
    }
    if j == end {
        proof {
            if find_0x(line) is Some {
                let i = find_0x(line)->0;
                assert(line[i + 1] == 0x78);
            }
        }
        return None;
    }
    let ghost i = j - start;
    assert(line[i] == 0x30 && line[i + 1] == 0x78);
    proof {
        match find_0x(line) {
            Some(f) => {
                assert(line[f + 1] == 0x78);
                if f > i {
                    assert(line[i + 1] == 0x78);
                }
            },
            None => {
                assert(line[i + 1] == 0x78);
            },
        }
    }
    Some(j)
}

/// The number spelled by the hex digits at the head of `b[from..end]`.
fn read_hex_u32(b: &[u8], from: usize, end: usize) -> (r: Option<u32>)
    requires
        from <= end <= b@.len(),
    ensures
        r == leading_hex_u32(b@.subrange(from as int, end as int)),
{
    let ghost rest = b@.subrange(from as int, end as int);
    let mut k: usize = from;
    let mut acc: u64 = 0;
    let mut overflow = false;
    assert(rest.take(0) =~= Seq::<u8>::empty());
    while k < end && is_hex_byte(b[k])
        invariant
            from <= k <= end,
            end <= b@.len(),
            rest == b@.subrange(from as int, end as int),
            forall|q: int| 0 <= q < k - from ==> is_hex_digit(#[trigger] rest[q]),
            !overflow ==> acc == hex_number(rest.take(k - from)) && acc <= u32::MAX,
            overflow ==> hex_number(rest.take(k - from)) > u32::MAX,
        decreases end - k,
    {
        let d = hex_value_of(b[k]);
        let ghost n = k - from;
        assert(rest[n] == b@[k as int]);
        assert(rest.take(n + 1) =~= rest.take(n).push(rest[n]));
        proof {
            lemma_hex_number_grows(rest.take(n), rest[n]);
        }
        if !overflow {
            acc = acc * 16 + d as u64;
            if acc > 0xffff_ffff {
                overflow = true;
            }
        }
        k = k + 1;
    }
    let ghost n = k - from;
    proof {
        if k < end {
            assert(rest[n] == b@[k as int]);
        }
        lemma_hex_run_len_unique(rest, n);
        assert(rest.take(n).len() == n);
    }
    if k == from || overflow {
        None
    } else {
        Some(acc as u32)
    }
}

/// The value carried by the line `b[start..end]`.
fn line_value_of(b: &[u8], start: usize, end: usize) -> (r: Option<u32>)
    requires
        start <= end <= b@.len(),
    ensures
        r == line_value(b@.subrange(start as int, end as int)),
{
    match find_0x_in(b, start, end) {
        None => None,
        Some(j) => {
            if end - j < 2 {
                proof {
                    lemma_find_0x(b@.subrange(start as int, end as int));
                }
                return None;
            }
            let r = read_hex_u32(b, j + 2, end);
            assert(b@.subrange(start as int, end as int).skip(j - start + 2) =~= b@.subrange(
                j + 2,
                end as int,
            ));
            r
        },
    }
}

/// End of the line that starts at `pos`.
fn line_end(b: &[u8], pos: usize) -> (end: usize)
    requires
        pos < b@.len(),
    ensures
        pos <= end <= b@.len(),
        end - pos == newline_index(b@.skip(pos as int)),
{
    let mut end: usize = pos;
    while end < b.len() && b[end] != 0x0a
        invariant
            pos <= end <= b@.len(),
            forall|q: int| pos <= q < end ==> b@[q] != 0x0a,
        decreases b@.len() - end,
    {
        end = end + 1;
    }
    proof {
        lemma_newline_index_unique(b@.skip(pos as int), end - pos);
    }
    end
}

/// One step of [`power_values`]: the line at `pos` and the text after it.
proof fn lemma_power_values_step(b: Seq<u8>, pos: int, end: int)
    requires
        0 <= pos <= end <= b.len(),
        pos < b.len(),
        end - pos == newline_index(b.skip(pos)),
    ensures
        ({
            let head = match line_value(b.subrange(pos, end)) {
                Some(x) => seq![x],
                None => Seq::<u32>::empty(),
            };
            let next = if end < b.len() {
                end + 1
            } else {
                end
            };
            power_values(b.skip(pos)) == head + power_values(b.skip(next))
        }),
{
    let rest = b.skip(pos);
    assert(rest.take(end - pos) =~= b.subrange(pos, end));
    if end < b.len() {
        assert(rest.skip(end - pos + 1) =~= b.skip(end + 1));
    } else {
        assert(b.skip(end) =~= Seq::<u8>::empty());
        let head = match line_value(b.subrange(pos, end)) {
            Some(x) => seq![x],
            None => Seq::<u32>::empty(),
        };
        assert(head + Seq::<u32>::empty() =~= head);
    }
}

/// Reads the (AC, DC) power-button action pair from the text that
/// `powercfg /q SCHEME_CURRENT SUB_BUTTONS PBUTTONACTION` prints: in each line
/// the hex number right after its first "0x", the AC value first.
pub fn parse_power_button_action(text: &str) -> (r: Option<(u32, u32)>)
    ensures
        r == power_button_pair(text.spec_bytes()),
{
    let b = text.as_bytes();
    let mut vals: Vec<u32> = Vec::new();
    let mut pos: usize = 0;
    assert(b@.skip(0) =~= b@);
    while pos < b.len()
        invariant
            pos <= b@.len(),
            b@ == text.spec_bytes(),
            vals@ + power_values(b@.skip(pos as int)) == power_values(b@),
        decreases b@.len() - pos,
    {
        let end = line_end(b, pos);
        let v = line_value_of(b, pos, end);
        proof {
            lemma_power_values_step(b@, pos as int, end as int);
        }
        let ghost old_vals = vals@;
        match v {
            Some(x) => vals.push(x),
            None => {},
        }
        assert(vals@ =~= old_vals + match v {
            Some(x) => seq![x],
            None => Seq::<u32>::empty(),
        });
        if end < b.len() {
            pos = end + 1;
        } else {
            pos = end;
        }
    }
    assert(b@.skip(pos as int) =~= Seq::<u8>::empty());
    assert(vals@ + Seq::<u32>::empty() =~= vals@);
    if vals.len() >= 2 {
        Some((vals[0], vals[1]))
    } else {
        None
    }
}

// ---------------------------------------------------------------------------
// Remembering and restoring the action.
// ---------------------------------------------------------------------------

/// The action pair remembered after a reading: the first reading that
/// succeeded is kept for good.
pub open spec fn remember_first(saved: Option<(u32, u32)>, reading: Option<(u32, u32)>) -> Option<
    (u32, u32),
> {
    match saved {
        Some(v) => Some(v),
        None => reading,
    }
}

/// The power-button action found before the launcher first set "sleep".
pub struct PowerButtonMemory {
    found_first: Option<(u32, u32)>,
}

impl PowerButtonMemory {
    /// The remembered (AC, DC) pair, if any.
    pub closed spec fn saved(&self) -> Option<(u32, u32)> {
        self.found_first
    }

    /// Nothing remembered yet.
    pub fn new() -> (m: Self)
        ensures
            m.saved() is None,
    {
        PowerButtonMemory { found_first: None }
    }

    /// Setting the power button to "sleep", given what `powercfg` reported as the
    /// current (AC, DC) pair (`None` when it could not be read, for example on a
    /// machine without a power button). Remembers the first pair read and
    /// returns the pair to write: "sleep" for both, or nothing when the reading
    /// failed (the step is then skipped).
    pub fn set_power_button_sleep(&mut self, current: Option<(u32, u32)>) -> (write: Option<
        (u32, u32),
    >)
        ensures
            write == match current {
                Some(_) => Some((ACTION_SLEEP, ACTION_SLEEP)),
                None => None,
            },
            final(self).saved() == remember_first(old(self).saved(), current),
    {
        match current {
            Some(v) => {
                if self.found_first.is_none() {
                    self.found_first = Some(v);
                }
                Some((ACTION_SLEEP, ACTION_SLEEP))
            },
            None => None,
        }
    }

    /// The pair to write back on exit: the remembered one, if any.
    pub fn restore_power_button(&self) -> (write: Option<(u32, u32)>)
        ensures
            write == self.saved(),
    {
        self.found_first
    }
}

/// Once a reading has been remembered, later readings never replace it: the
/// pair restored on exit is the one found before the first change.
pub proof fn lemma_first_reading_is_restored(v: (u32, u32), later: Seq<Option<(u32, u32)>>)
    ensures
        later.fold_left(remember_first(None, Some(v)), |m: Option<(u32, u32)>, r: Option<(u32, u32)>| remember_first(m, r)) == Some(v),
    decreases later.len(),
{
    if later.len() > 0 {
        lemma_first_reading_is_restored(v, later.drop_last());
    }
}

/// Arguments of `powercfg` that print the current power-button action.
pub fn power_button_query_args() -> (r: Vec<String>)
    ensures
        string_views(r@) == seq!["/q"@, "SCHEME_CURRENT"@, "SUB_BUTTONS"@, "PBUTTONACTION"@],
{
    let r = owned_strings(&["/q", "SCHEME_CURRENT", "SUB_BUTTONS", "PBUTTONACTION"]);
    r
}

/// The three `powercfg` invocations that set the power-button action to `ac`
/// (mains) and `dc` (battery) and activate the scheme.
pub fn power_button_write_commands(ac: u32, dc: u32) -> (r: Vec<Vec<String>>)
    ensures
        r@.len() == 3,
        string_views(r@[0]@) == seq![
            "/setacvalueindex"@,
            "SCHEME_CURRENT"@,
            "SUB_BUTTONS"@,
            "PBUTTONACTION"@,
            decimal_chars(ac as nat),
        ],
        string_views(r@[1]@) == seq![
            "/setdcvalueindex"@,
            "SCHEME_CURRENT"@,
            "SUB_BUTTONS"@,
            "PBUTTONACTION"@,
            decimal_chars(dc as nat),
        ],
        string_views(r@[2]@) == seq!["/setactive"@, "SCHEME_CURRENT"@],
{
    let mut ac_cmd = owned_strings(&["/setacvalueindex", "SCHEME_CURRENT", "SUB_BUTTONS", "PBUTTONACTION"]);
    let ghost a = string_views(ac_cmd@);
    ac_cmd.push(decimal(ac));
    assert(string_views(ac_cmd@) =~= a.push(decimal_chars(ac as nat)));
    let mut dc_cmd = owned_strings(&["/setdcvalueindex", "SCHEME_CURRENT", "SUB_BUTTONS", "PBUTTONACTION"]);
    let ghost d = string_views(dc_cmd@);
    dc_cmd.push(decimal(dc));
    assert(string_views(dc_cmd@) =~= d.push(decimal_chars(dc as nat)));
    let activate = owned_strings(&["/setactive", "SCHEME_CURRENT"]);
    let mut r: Vec<Vec<String>> = Vec::new();
    r.push(ac_cmd);
    r.push(dc_cmd);
    r.push(activate);
    r
}

} // verus!
