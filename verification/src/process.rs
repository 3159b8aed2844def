//! Launching external programs: Windows path handling (file names, `.lnk` /
//! `.exe` detection, the `\\?\` prefix), the choice between activating an
//! already running instance and starting a new one, finding a started
//! program's main window, and the activation polling after a launch.

use vstd::prelude::*;

use crate::text::{ascii_lower, ascii_lower_char, is_ascii_char, to_lowercase, unicode_lowercase};

verus! {

broadcast use {vstd::seq_lib::group_seq_properties, vstd::seq::group_seq_axioms};

// ---------------------------------------------------------------------------
// Windows paths.
// ---------------------------------------------------------------------------

/// '\\' or '/'.
pub open spec fn is_path_separator(c: char) -> bool {
    c == '\\' || c == '/'
}

/// A separator between components: '\\' or '/', but only '\\' in a verbatim
/// (`\\?\`) path.
pub open spec fn is_sep_in(c: char, verbatim: bool) -> bool {
    c == '\\' || (!verbatim && c == '/')
}

/// An ASCII letter.
pub open spec fn is_ascii_letter(c: char) -> bool {
    ('a' <= c && c <= 'z') || ('A' <= c && c <= 'Z')
}

/// Index of the first separator of `s` at or after `i`, or the length of `s`.
pub open spec fn next_sep(s: Seq<char>, i: int, verbatim: bool) -> int
    decreases s.len() - i,
{
    if i < 0 || i >= s.len() {
        s.len() as int
    } else if is_sep_in(s[i], verbatim) {
        i
    } else {
        next_sep(s, i + 1, verbatim)
    }
}

proof fn lemma_next_sep(s: Seq<char>, i: int, verbatim: bool)
    requires
        0 <= i <= s.len(),
    ensures
        i <= next_sep(s, i, verbatim) <= s.len(),
        next_sep(s, i, verbatim) < s.len() ==> is_sep_in(s[next_sep(s, i, verbatim)], verbatim),
        forall|k: int| i <= k < next_sep(s, i, verbatim) ==> !is_sep_in(#[trigger] s[k], verbatim),
    decreases s.len() - i,
{
    if i < s.len() && !is_sep_in(s[i], verbatim) {
        lemma_next_sep(s, i + 1, verbatim);
    }
}

/// The prefix of a Windows path, as its length and whether it makes the path
/// verbatim:
/// `\\?\UNC\server\share`, `\\?\C:` and `\\?\name` (verbatim, backslashes
/// only), `\\.\device`, `\\server\share` (both parts non-empty) and `C:`;
/// none (length 0) otherwise. Outside verbatim prefixes '/' counts as '\\'.
pub open spec fn path_prefix(s: Seq<char>) -> (int, bool) {
    if s.len() >= 2 && is_path_separator(s[0]) && is_path_separator(s[1]) {
        if s.len() >= 4 && s[0] == '\\' && s[1] == '\\' && s[2] == '?' && s[3] == '\\' {
            if s.len() >= 8 && s[4] == 'U' && s[5] == 'N' && s[6] == 'C' && s[7] == '\\' {
                let server_end = next_sep(s, 8, true);
                if server_end < s.len() && next_sep(s, server_end + 1, true) > server_end + 1 {
                    (next_sep(s, server_end + 1, true), true)
                } else {
                    (server_end, true)
                }
            } else if s.len() >= 6 && is_ascii_letter(s[4]) && s[5] == ':' && (s.len() == 6 || s[6]
                == '\\') {
                (6, true)
            } else {
                (next_sep(s, 4, true), true)
            }
        } else if s.len() >= 4 && s[2] == '.' && is_path_separator(s[3]) {
            (next_sep(s, 4, false), false)
        } else {
            let server_end = next_sep(s, 2, false);
            if server_end > 2 && server_end < s.len() && next_sep(s, server_end + 1, false)
                > server_end + 1 {
                (next_sep(s, server_end + 1, false), false)
            } else {
                (0, false)
            }
        }
    } else if s.len() >= 2 && is_ascii_letter(s[0]) && s[1] == ':' {
        (2, false)
    } else {
        (0, false)
    }
}

proof fn lemma_path_prefix(s: Seq<char>)
    ensures
        0 <= path_prefix(s).0 <= s.len(),
{
    if s.len() >= 4 {
        lemma_next_sep(s, 4, true);
        lemma_next_sep(s, 4, false);
    }
    if s.len() >= 8 {
        lemma_next_sep(s, 8, true);
        let e = next_sep(s, 8, true);
        if e < s.len() {
            lemma_next_sep(s, e + 1, true);
        }
    }
    if s.len() >= 2 {
        lemma_next_sep(s, 2, false);
        let e = next_sep(s, 2, false);
        if e < s.len() {
            lemma_next_sep(s, e + 1, false);
        }
    }
}

/// Start of the piece of `s` that ends at `end`: just after the last separator
/// in `[lo, end)`, or `lo`.
pub open spec fn piece_start(s: Seq<char>, lo: int, end: int, verbatim: bool) -> int
    decreases end - lo,
{
    if end <= lo {
        lo
    } else if is_sep_in(s[end - 1], verbatim) {
        end
    } else {
        piece_start(s, lo, end - 1, verbatim)
    }
}

proof fn lemma_piece_start(s: Seq<char>, lo: int, end: int, verbatim: bool)
    requires
        0 <= lo <= end <= s.len(),
    ensures
        lo <= piece_start(s, lo, end, verbatim) <= end,
        end > lo && !is_sep_in(s[end - 1], verbatim) ==> piece_start(s, lo, end, verbatim) < end,
    decreases end - lo,
{
    if end > lo && !is_sep_in(s[end - 1], verbatim) {
        lemma_piece_start(s, lo, end - 1, verbatim);
    }
}

/// The range of the last component of `s[lo..end]`: empty components are
/// skipped, and so are "." components outside verbatim paths.
pub open spec fn last_piece(s: Seq<char>, lo: int, end: int, verbatim: bool) -> (int, int)
    decreases end - lo,
{
    if end <= lo || end > s.len() {
        (lo, lo)
    } else if is_sep_in(s[end - 1], verbatim) {
        last_piece(s, lo, end - 1, verbatim)
    } else {
        let st = piece_start(s, lo, end, verbatim);
        if !verbatim && lo <= st < end && s.subrange(st, end) == "."@ {
            last_piece(s, lo, st, verbatim)
        } else {
            (st, end)
        }
    }
}

/// The file name of a Windows path: the last component after its prefix (see
/// [`path_prefix`]), skipping trailing separators and, outside verbatim paths,
/// "." components; none when that component is "." or "..", or there is none
/// (a bare prefix such as `C:`, `\\server\share` or `\\?\C:`).
pub open spec fn path_file_name(s: Seq<char>) -> Option<Seq<char>> {
    let (plen, verbatim) = path_prefix(s);
    let (st, en) = last_piece(s, plen, s.len() as int, verbatim);
    let p = s.subrange(st, en);
    if p.len() == 0 || p == ".."@ || p == "."@ {
        None
    } else {
        Some(p)
    }
}

fn is_sep_char(c: char, verbatim: bool) -> (r: bool)
    ensures
        r == is_sep_in(c, verbatim),
{
    c == '\\' || (!verbatim && c == '/')
}

fn is_letter(c: char) -> (r: bool)
    ensures
        r == is_ascii_letter(c),
{
    ('a' <= c && c <= 'z') || ('A' <= c && c <= 'Z')
}

/// Index of the first separator at or after `i`.
fn next_sep_of(s: &str, i: usize, verbatim: bool) -> (r: usize)
    requires
        i <= s@.len(),
    ensures
        r == next_sep(s@, i as int, verbatim),
{
    let n = s.unicode_len();
    let mut k = i;
    while k < n && !is_sep_char(s.get_char(k), verbatim)
        invariant
            i <= k <= n,
            n == s@.len(),
            next_sep(s@, i as int, verbatim) == next_sep(s@, k as int, verbatim),
        decreases n - k,
    {
        k = k + 1;
    }
    k
}

/// The prefix of a path (see [`path_prefix`]).
fn path_prefix_of(s: &str) -> (r: (usize, bool))
    ensures
        r.0 as int == path_prefix(s@).0,
        r.1 == path_prefix(s@).1,
{
    proof {
        lemma_path_prefix(s@);
    }
    let n = s.unicode_len();
    if n >= 2 && is_sep_char(s.get_char(0), false) && is_sep_char(s.get_char(1), false) {
        if n >= 4 && s.get_char(0) == '\\' && s.get_char(1) == '\\' && s.get_char(2) == '?'
            && s.get_char(3) == '\\' {
            if n >= 8 && s.get_char(4) == 'U' && s.get_char(5) == 'N' && s.get_char(6) == 'C'
                && s.get_char(7) == '\\' {
                proof {
                    lemma_next_sep(s@, 8, true);
                }
                let server_end = next_sep_of(s, 8, true);
                if server_end < n {
                    let share_end = next_sep_of(s, server_end + 1, true);
                    if share_end > server_end + 1 {
                        return (share_end, true);
                    }
                }
                (server_end, true)
            } else if n >= 6 && is_letter(s.get_char(4)) && s.get_char(5) == ':' && (n == 6
                || s.get_char(6) == '\\') {
                (6, true)
            } else {
                (next_sep_of(s, 4, true), true)
            }
        } else if n >= 4 && s.get_char(2) == '.' && is_sep_char(s.get_char(3), false) {
            (next_sep_of(s, 4, false), false)
        } else {
            proof {
                lemma_next_sep(s@, 2, false);
            }
            let server_end = next_sep_of(s, 2, false);
            if server_end > 2 && server_end < n {
                let share_end = next_sep_of(s, server_end + 1, false);
                if share_end > server_end + 1 {
                    return (share_end, false);
                }
            }
            (0, false)
        }
    } else if n >= 2 && is_letter(s.get_char(0)) && s.get_char(1) == ':' {
        (2, false)
    } else {
        (0, false)
    }
}

/// Start of the piece of `s[lo..end]` that ends at `end`.
fn piece_start_of(s: &str, lo: usize, end: usize, verbatim: bool) -> (st: usize)
    requires
        lo <= end <= s@.len(),
    ensures
        st == piece_start(s@, lo as int, end as int, verbatim),
{
    let mut st = end;
    while st > lo && !is_sep_char(s.get_char(st - 1), verbatim)
        invariant
            lo <= st <= end <= s@.len(),
            piece_start(s@, lo as int, st as int, verbatim) == piece_start(
                s@,
                lo as int,
                end as int,
                verbatim,
            ),
        decreases st,
    {
        st = st - 1;
    }
    st
}

/// Range of the last component of `s[lo..end]`.
fn last_piece_of(s: &str, lo: usize, end: usize, verbatim: bool) -> (r: (usize, usize))
    requires
        lo <= end <= s@.len(),
    ensures
        r.0 as int == last_piece(s@, lo as int, end as int, verbatim).0,
        r.1 as int == last_piece(s@, lo as int, end as int, verbatim).1,
        lo <= r.0 <= r.1 <= s@.len(),
    decreases end,
{
    if end == lo {
        return (lo, lo);
    }
    if is_sep_char(s.get_char(end - 1), verbatim) {
        return last_piece_of(s, lo, end - 1, verbatim);
    }
    let st = piece_start_of(s, lo, end, verbatim);
    proof {
        lemma_piece_start(s@, lo as int, end as int, verbatim);
    }
    if !verbatim && st + 1 == end && s.get_char(st) == '.' {
        proof {
            reveal_strlit(".");
            assert(s@.subrange(st as int, end as int) =~= "."@);
        }
        return last_piece_of(s, lo, st, verbatim);
    }
    proof {
        reveal_strlit(".");
        if s@.subrange(st as int, end as int) == "."@ {
            assert(s@.subrange(st as int, end as int).len() == 1);
            assert(s@.subrange(st as int, end as int)[0] == s@[st as int]);
        }
        assert(!is_sep_in(s@[end - 1], verbatim));
        assert(last_piece(s@, lo as int, end as int, verbatim) == (st as int, end as int));
    }
    (st, end)
}

/// The file name of a Windows path (see [`path_file_name`]).
pub fn file_name(path: &str) -> (r: Option<String>)
    ensures
        match r {
            Some(n) => path_file_name(path@) == Some(n@),
            None => path_file_name(path@) is None,
        },
{
    proof {
        reveal_strlit("..");
        reveal_strlit(".");
        lemma_path_prefix(path@);
    }
    let n = path.unicode_len();
    let (plen, verbatim) = path_prefix_of(path);
    let (st, en) = last_piece_of(path, plen, n, verbatim);
    let ghost p = path@.subrange(st as int, en as int);
    if st == en {
        return None;
    }
    if en - st == 2 {
        let a = path.get_char(st);
        let b = path.get_char(st + 1);
        assert(p[0] == a && p[1] == b);
        if a == '.' && b == '.' {
            assert(p =~= ".."@);
            return None;
        }
        assert(p != ".."@);
    } else {
        assert(p.len() != ".."@.len());
    }
    if en - st == 1 {
        let a = path.get_char(st);
        assert(p[0] == a);
        if a == '.' {
            assert(p =~= "."@);
            return None;
        }
        assert(p != "."@);
    } else {
        assert(p.len() != "."@.len());
    }
    let name = path.substring_char(st, en);
    Some(name.to_owned())
}

/// Lowercased file name of a path, empty when the path has none (the key by
/// which windows and processes are matched to a program).
pub fn exe_file_name(path: &str) -> (r: String)
    ensures
        r@ == match path_file_name(path@) {
            Some(n) => unicode_lowercase(n),
            None => unicode_lowercase(Seq::empty()),
        },
{
    match file_name(path) {
        Some(n) => to_lowercase(n.as_str()),
        None => {
            let empty = String::new();
            to_lowercase(empty.as_str())
        },
    }
}

/// `s` ends with `suffix`.
pub open spec fn ends_with(s: Seq<char>, suffix: Seq<char>) -> bool {
    s.len() >= suffix.len() && s.skip(s.len() - suffix.len()) == suffix
}

/// Whether `s` ends with `suffix`.
fn str_ends_with(s: &str, suffix: &str) -> (r: bool)
    ensures
        r == ends_with(s@, suffix@),
{
    let n = s.unicode_len();
    let m = suffix.unicode_len();
    if n < m {
        return false;
    }
    let mut i: usize = 0;
    while i < m
        invariant
            i <= m,
            m == suffix@.len(),
            n == s@.len(),
            n >= m,
            forall|k: int| 0 <= k < i ==> s@[n - m + k] == #[trigger] suffix@[k],
        decreases m - i,
    {
        if s.get_char(n - m + i) != suffix.get_char(i) {
            assert(s@.skip(n - m)[i as int] != suffix@[i as int]);
            return false;
        }
        i = i + 1;
    }
    assert(s@.skip(n - m) =~= suffix@);
    true
}

/// A Windows shortcut: the lowercased path ends with ".lnk".
pub open spec fn is_lnk_path(path: Seq<char>) -> bool {
    ends_with(unicode_lowercase(path), ".lnk"@)
}

/// An executable: the lowercased path ends with ".exe".
pub open spec fn is_exe_path(path: Seq<char>) -> bool {
    ends_with(unicode_lowercase(path), ".exe"@)
}

/// Whether the last four chars of `l` are '.', `a`, `b`, `c`.
pub open spec fn last_four_are(l: Seq<char>, a: char, b: char, c: char) -> bool {
    &&& l.len() >= 4
    &&& l[l.len() - 4] == '.'
    &&& l[l.len() - 3] == a
    &&& l[l.len() - 2] == b
    &&& l[l.len() - 1] == c
}

/// A path names an executable exactly when its lowercase ends in '.', 'e',
/// 'x', 'e', and a shortcut exactly when it ends in '.', 'l', 'n', 'k',
/// whatever other chars (spaces, dots, any letters) the path holds.
pub proof fn lemma_suffix_kinds(path: Seq<char>)
    ensures
        is_exe_path(path) <==> last_four_are(unicode_lowercase(path), 'e', 'x', 'e'),
        is_lnk_path(path) <==> last_four_are(unicode_lowercase(path), 'l', 'n', 'k'),
{
    reveal_strlit(".exe");
    reveal_strlit(".lnk");
    let l = unicode_lowercase(path);
    if l.len() >= 4 {
        let t = l.skip(l.len() - 4);
        assert(t[0] == l[l.len() - 4] && t[1] == l[l.len() - 3] && t[2] == l[l.len() - 2] && t[3]
            == l[l.len() - 1]);
        if last_four_are(l, 'e', 'x', 'e') {
            assert(t =~= ".exe"@);
        }
        if last_four_are(l, 'l', 'n', 'k') {
            assert(t =~= ".lnk"@);
        }
    }
}

/// Whether `path` names a shortcut (`.lnk`, any case).
pub fn is_lnk(path: &str) -> (r: bool)
    ensures
        r == is_lnk_path(path@),
{
    let lower = to_lowercase(path);
    str_ends_with(lower.as_str(), ".lnk")
}

/// Whether `path` names an executable (`.exe`, any case).
pub fn is_exe(path: &str) -> (r: bool)
    ensures
        r == is_exe_path(path@),
{
    let lower = to_lowercase(path);
    str_ends_with(lower.as_str(), ".exe")
}

/// The program a path stands for: the target of a shortcut when it could be
/// resolved (`resolved`), otherwise the path itself.
pub open spec fn target_of(path: Seq<char>, resolved: Option<Seq<char>>) -> Seq<char> {
    if is_lnk_path(path) {
        match resolved {
            Some(t) => t,
            None => path,
        }
    } else {
        path
    }
}

/// Resolves `path` to the program it stands for, given the shortcut's target
/// as the shell reported it (`None` when unresolvable or not asked).
pub fn resolve_target(path: &str, resolved: Option<&str>) -> (r: String)
    ensures
        r@ == target_of(
            path@,
            match resolved {
                Some(t) => Some(t@),
                None => None,
            },
        ),
{
    if is_lnk(path) {
        match resolved {
            Some(t) => t.to_owned(),
            None => path.to_owned(),
        }
    } else {
        path.to_owned()
    }
}

/// `s` without every leading `\\?\` (verbatim-path prefix).
pub open spec fn strip_verbatim(s: Seq<char>) -> Seq<char>
    decreases s.len(),
{
    if s.len() >= 4 && s.take(4) == "\\\\?\\"@ {
        strip_verbatim(s.skip(4))
    } else {
        s
    }
}

/// A path put in the form in which two paths are compared: leading `\\?\`
/// prefixes removed, lowercased.
pub open spec fn normalized_path(p: Seq<char>) -> Seq<char> {
    unicode_lowercase(strip_verbatim(p))
}

/// Normalizes a path for comparison. A path of ASCII chars is normalized
/// once and for all: normalizing the result again changes nothing.
pub fn normalize_path(p: &str) -> (r: String)
    ensures
        r@ == normalized_path(p@),
        (forall|i: int| 0 <= i < p@.len() ==> is_ascii_char(#[trigger] p@[i])) ==> normalized_path(
            r@,
        ) == r@,
{
    proof {
        reveal_strlit("\\\\?\\");
    }
    let n = p.unicode_len();
    let mut i: usize = 0;
    while n - i >= 4 && p.get_char(i) == '\\' && p.get_char(i + 1) == '\\' && p.get_char(i + 2)
        == '?' && p.get_char(i + 3) == '\\'
        invariant
            i <= n,
            n == p@.len(),
            strip_verbatim(p@) == strip_verbatim(p@.skip(i as int)),
        decreases n - i,
    {
        proof {
            reveal_strlit("\\\\?\\");
        }
        assert(p@.skip(i as int).take(4) =~= "\\\\?\\"@);
        assert(p@.skip(i as int).skip(4) =~= p@.skip(i + 4));
        i = i + 4;
    }
    proof {
        let t = p@.skip(i as int);
        if t.len() >= 4 && t.take(4) == "\\\\?\\"@ {
            assert(t.take(4)[0] == t[0] && t.take(4)[1] == t[1] && t.take(4)[2] == t[2] && t.take(
                4,
            )[3] == t[3]);
        }
    }
    let rest = p.substring_char(i, n);
    assert(rest@ =~= p@.skip(i as int));
    let ghost t = rest@;
    assert(!(t.len() >= 4 && t.take(4) == "\\\\?\\"@)) by {
        if t.len() >= 4 && t.take(4) == "\\\\?\\"@ {
            assert(t.take(4)[0] == t[0] && t.take(4)[1] == t[1] && t.take(4)[2] == t[2] && t.take(
                4,
            )[3] == t[3]);
        }
    }
    assert(strip_verbatim(p@) == t);
    let r = to_lowercase(rest);
    proof {
        if forall|i: int| 0 <= i < p@.len() ==> is_ascii_char(#[trigger] p@[i]) {
            assert forall|i: int| 0 <= i < t.len() implies is_ascii_char(#[trigger] t[i]) by {
                assert(t[i] == p@[i + (p@.len() - t.len())]);
            }
            assert(r@ == ascii_lower(t));
            lemma_lowered_keeps_no_verbatim(t);
            assert(strip_verbatim(r@) == r@);
        }
    }
    r
}

/// Lowercasing ASCII letters cannot make a leading `\\?\`.
proof fn lemma_lowered_keeps_no_verbatim(t: Seq<char>)
    requires
        !(t.len() >= 4 && t.take(4) == "\\\\?\\"@),
    ensures
        !(ascii_lower(t).len() >= 4 && ascii_lower(t).take(4) == "\\\\?\\"@),
{
    reveal_strlit("\\\\?\\");
    let l = ascii_lower(t);
    if l.len() >= 4 && l.take(4) == "\\\\?\\"@ {
        assert forall|k: int| 0 <= k < 4 implies t[k] == l[k] by {
            assert(l[k] == l.take(4)[k]);
            assert(l[k] == ascii_lower_char(t[k]));
            if 'A' <= t[k] && t[k] <= 'Z' {
                assert(('A' as u32) <= (t[k] as u32) <= ('Z' as u32));
            }
        }
        assert(t.take(4) =~= l.take(4));
    }
}

// ---------------------------------------------------------------------------
// Starting or activating.
// ---------------------------------------------------------------------------

/// What launching a path does.
pub enum LaunchPlan {
    /// The program already runs: bring that process's window to the front
    /// instead of starting a second instance.
    ActivateRunning { pid: u32, exe_name: String },
    /// Start the executable in a job object (exit of its whole process tree is
    /// tracked).
    StartExe { exe: String },
    /// Open the shortcut through the shell (its target is no executable).
    ShellOpen { path: String },
}

/// Decides how to launch `path`, given the program it stands for (`target`,
/// see [`resolve_target`]) and, when that is an executable, the process id of
/// an instance of it already running.
pub fn launch_plan(path: &str, target: &str, running_pid: Option<u32>) -> (r: LaunchPlan)
    ensures
        is_exe_path(target@) && running_pid is Some ==> (match r {
            LaunchPlan::ActivateRunning { pid, exe_name } => pid == running_pid->0 && exe_name@
                == match path_file_name(target@) {
                Some(n) => unicode_lowercase(n),
                None => unicode_lowercase(Seq::empty()),
            },
            _ => false,
        }),
        !(is_exe_path(target@) && running_pid is Some) ==> (match r {
            LaunchPlan::StartExe { exe } => if is_lnk_path(path@) {
                is_exe_path(target@) && exe@ == target@
            } else {
                exe@ == path@
            },
            LaunchPlan::ShellOpen { path: p } => is_lnk_path(path@) && !is_exe_path(target@) && p@
                == path@,
            LaunchPlan::ActivateRunning { .. } => false,
        }),
{
    let target_is_exe = is_exe(target);
    if target_is_exe {
        if let Some(pid) = running_pid {
            return LaunchPlan::ActivateRunning { pid, exe_name: exe_file_name(target) };
        }
    }
    if is_lnk(path) {
        if target_is_exe {
            LaunchPlan::StartExe { exe: target.to_owned() }
        } else {
            LaunchPlan::ShellOpen { path: path.to_owned() }
        }
    } else {
        LaunchPlan::StartExe { exe: path.to_owned() }
    }
}

/// After the shell opened a shortcut without handing back a process (it passed
/// the request to a running instance): the running instance to bring to the
/// front, when the shortcut's target is an executable that runs.
pub fn shell_handoff_pid(target: &str, running_pid: Option<u32>) -> (r: Option<u32>)
    ensures
        r == (if is_exe_path(target@) {
            running_pid
        } else {
            None
        }),
{
    if is_exe(target) {
        running_pid
    } else {
        None
    }
}

// ---------------------------------------------------------------------------
// Finding a running instance.
// ---------------------------------------------------------------------------

/// A process from the system's process list.
pub struct RunningProcess {
    pub pid: u32,
    /// The executable's file name as the process list reports it.
    pub name: String,
    /// Full image path, when it could be queried (protected processes refuse).
    pub image_path: Option<String>,
}

/// `p` is an instance of the program whose lowercased file name is `exe_name`
/// and whose normalized full path is `target_norm`: same file name in any case,
/// and the same full path when the path is known (without it, the name
/// decides).
pub open spec fn is_instance(exe_name: Seq<char>, target_norm: Seq<char>, p: RunningProcess) -> bool {
    unicode_lowercase(p.name@) == exe_name && match p.image_path {
        Some(full) => normalized_path(full@) == target_norm,
        None => true,
    }
}

/// The first instance in the list.
pub open spec fn first_instance(
    exe_name: Seq<char>,
    target_norm: Seq<char>,
    procs: Seq<RunningProcess>,
) -> Option<u32>
    decreases procs.len(),
{
    if procs.len() == 0 {
        None
    } else if is_instance(exe_name, target_norm, procs[0]) {
        Some(procs[0].pid)
    } else {
        first_instance(exe_name, target_norm, procs.drop_first())
    }
}

/// Whether the process named `name` (as the process list reports it) may be an
/// instance of the program with lowercased file name `exe_name` (its full path
/// is then worth querying).
pub fn name_matches(exe_name: &str, name: &str) -> (r: bool)
    ensures
        r == (unicode_lowercase(name@) == exe_name@),
{
    let lower = to_lowercase(name);
    lower == exe_name.to_owned()
}

/// The process id of the first running instance of the executable at
/// `exe_path` (normalized full path `target_norm`) in `procs`; none when the
/// path has no file name or nothing matches.
pub fn find_running_process(exe_path: &str, target_norm: &str, procs: &Vec<RunningProcess>) -> (r:
    Option<u32>)
    ensures
        r == match path_file_name(exe_path@) {
            Some(n) => first_instance(unicode_lowercase(n), target_norm@, procs@),
            None => None,
        },
{
    let exe_name = match file_name(exe_path) {
        Some(n) => to_lowercase(n.as_str()),
        None => {
            return None;
        },
    };
    let target = target_norm.to_owned();
    let mut i: usize = 0;
    assert(procs@.skip(0) =~= procs@);
    while i < procs.len()
        invariant
            i <= procs@.len(),
            target@ == target_norm@,
            path_file_name(exe_path@) is Some,
            unicode_lowercase(path_file_name(exe_path@)->0) == exe_name@,
            first_instance(exe_name@, target_norm@, procs@) == first_instance(
                exe_name@,
                target_norm@,
                procs@.skip(i as int),
            ),
        decreases procs@.len() - i,
    {
        let p = &procs[i];
        let hit = if name_matches(exe_name.as_str(), p.name.as_str()) {
            match &p.image_path {
                Some(full) => normalize_path(full.as_str()) == target,
                None => true,
            }
        } else {
            false
        };
        assert(procs@.skip(i as int)[0] == procs@[i as int]);
        assert(hit == is_instance(exe_name@, target_norm@, procs@[i as int]));
        if hit {
            assert(first_instance(exe_name@, target_norm@, procs@.skip(i as int)) == Some(
                procs@[i as int].pid,
            ));
            return Some(p.pid);
        }
        assert(procs@.skip(i as int).drop_first() =~= procs@.skip(i + 1));
        i = i + 1;
    }
    None
}

// ---------------------------------------------------------------------------
// The main window of a started program.
// ---------------------------------------------------------------------------

/// Bonus that a window with a title gets over an untitled one (splash screens
/// are usually small and untitled).
pub const TITLE_BONUS: u64 = 10_000_000;

/// How much a window looks like a program's main window: its area, plus
/// [`TITLE_BONUS`] when it has a title; 0 when its rectangle is unknown or
/// empty.
pub open spec fn score_of(rect: Option<(i32, i32, i32, i32)>, has_title: bool) -> int {
    match rect {
        None => 0,
        Some((left, top, right, bottom)) => {
            let w = if right - left > 0 {
                right - left
            } else {
                0
            };
            let h = if bottom - top > 0 {
                bottom - top
            } else {
                0
            };
            if w == 0 || h == 0 {
                0
            } else if has_title {
                w * h + TITLE_BONUS
            } else {
                w * h
            }
        },
    }
}

/// Scores a window from its rectangle (left, top, right, bottom) and whether
/// it has a title.
pub fn window_score(rect: Option<(i32, i32, i32, i32)>, has_title: bool) -> (r: u64)
    requires
        match rect {
            Some((left, top, right, bottom)) => i32::MIN <= right - left <= i32::MAX && i32::MIN
                <= bottom - top <= i32::MAX,
            None => true,
        },
    ensures
        r == score_of(rect, has_title),
{
    match rect {
        None => 0,
        Some((left, top, right, bottom)) => {
            let dw = right - left;
            let dh = bottom - top;
            let w: u64 = if dw > 0 {
                dw as u64
            } else {
                0
            };
            let h: u64 = if dh > 0 {
                dh as u64
            } else {
                0
            };
            if w == 0 || h == 0 {
                return 0;
            }
            assert(w * h <= 0x8000_0000u64 * 0x8000_0000u64) by (nonlinear_arith)
                requires
                    w <= 0x8000_0000u64,
                    h <= 0x8000_0000u64,
            ;
            let area = w * h;
            if has_title {
                area + TITLE_BONUS
            } else {
                area
            }
        },
    }
}

/// The contents of a [`MainWindowSearch`].
pub struct MainWindowSearchView {
    pub pid: u32,
    pub exe_name: Seq<char>,
    pub best: int,
    pub best_score: int,
}

/// Search over the visible top-level windows for a started program's main
/// window: windows of the started process, or of any process with the same
/// executable file name (launchers whose UI lives in a child process), and
/// among them the highest score, the first one on ties.
pub struct MainWindowSearch {
    pid: u32,
    exe_name: String,
    best: isize,
    best_score: u64,
}

impl View for MainWindowSearch {
    type V = MainWindowSearchView;

    closed spec fn view(&self) -> MainWindowSearchView {
        MainWindowSearchView {
            pid: self.pid,
            exe_name: self.exe_name@,
            best: self.best as int,
            best_score: self.best_score as int,
        }
    }
}

/// A window of process `window_pid` (full image path `image`) belongs to the
/// searched program.
pub open spec fn window_belongs(
    s: MainWindowSearchView,
    window_pid: u32,
    image: Option<Seq<char>>,
) -> bool {
    ||| window_pid == s.pid
    ||| (s.exe_name.len() > 0 && match image {
        Some(p) => match path_file_name(p) {
            Some(n) => unicode_lowercase(n) == s.exe_name,
            None => false,
        },
        None => false,
    })
}

/// A window belongs to the search when its process is the started one, or
/// when the search has an executable name and the window's process image has
/// a file name whose lowercase is that name, whatever the case of the file
/// name; a window of another process whose image is unknown, or whose file
/// name lowercases to something else, does not.
pub proof fn lemma_window_membership(
    s: MainWindowSearchView,
    window_pid: u32,
    image: Option<Seq<char>>,
)
    ensures
        window_pid == s.pid ==> window_belongs(s, window_pid, image),
        (s.exe_name.len() > 0 && image is Some && path_file_name(image->0) is Some
            && unicode_lowercase(path_file_name(image->0)->0) == s.exe_name) ==> window_belongs(
            s,
            window_pid,
            image,
        ),
        (window_pid != s.pid && window_belongs(s, window_pid, image)) ==> (s.exe_name.len() > 0
            && image is Some && path_file_name(image->0) is Some && unicode_lowercase(
            path_file_name(image->0)->0,
        ) == s.exe_name),
{
}

/// A search started for an executable name takes in the windows of every
/// process whose image's file name has the same lowercase as that name: a
/// child process of the same program is found whatever the case of its file
/// name.
pub proof fn lemma_same_program_windows_belong(
    pid: u32,
    exe_name: Seq<char>,
    window_pid: u32,
    image: Seq<char>,
    n: Seq<char>,
)
    requires
        unicode_lowercase(exe_name).len() > 0,
        path_file_name(image) == Some(n),
        unicode_lowercase(n) == unicode_lowercase(exe_name),
    ensures
        window_belongs(
            MainWindowSearchView {
                pid,
                exe_name: unicode_lowercase(exe_name),
                best: 0,
                best_score: 0,
            },
            window_pid,
            Some(image),
        ),
{
}

impl MainWindowSearch {
    /// Starts a search for the windows of process `pid`; `exe_name` (matched in
    /// any case) also admits other processes of the same executable, and empty
    /// means the process id alone decides.
    pub fn new(pid: u32, exe_name: &str) -> (s: Self)
        ensures
            s@ == (MainWindowSearchView {
                pid,
                exe_name: unicode_lowercase(exe_name@),
                best: 0,
                best_score: 0,
            }),
    {
        MainWindowSearch { pid, exe_name: to_lowercase(exe_name), best: 0, best_score: 0 }
    }

    /// Whether deciding about a window of process `window_pid` needs that
    /// process's image path.
    pub fn needs_image_path(&self, window_pid: u32) -> (r: bool)
        ensures
            r == (window_pid != self@.pid && self@.exe_name.len() > 0),
    {
        window_pid != self.pid && !self.exe_name.as_str().is_empty()
    }

    /// Whether a window of process `window_pid` (image path `image`, when
    /// queried) belongs to the searched program.
    pub fn belongs(&self, window_pid: u32, image: Option<&str>) -> (r: bool)
        ensures
            r == window_belongs(
                self@,
                window_pid,
                match image {
                    Some(p) => Some(p@),
                    None => None,
                },
            ),
    {
        if window_pid == self.pid {
            return true;
        }
        if self.exe_name.as_str().is_empty() {
            return false;
        }
        match image {
            Some(p) => match file_name(p) {
                Some(n) => to_lowercase(n.as_str()) == self.exe_name,
                None => false,
            },
            None => false,
        }
    }

    /// Takes a belonging window `hwnd` with score `score` into account: it
    /// becomes the best when it scores strictly higher than the best so far.
    pub fn consider(&mut self, hwnd: isize, score: u64)
        ensures
            final(self)@ == (if score > old(self)@.best_score {
                MainWindowSearchView { best: hwnd as int, best_score: score as int, ..old(self)@ }
            } else {
                old(self)@
            }),
    {
        if score > self.best_score {
            self.best_score = score;
            self.best = hwnd;
        }
    }

    /// The main window found, if any.
    pub fn result(&self) -> (r: Option<isize>)
        ensures
            r == (if self@.best == 0 {
                None::<isize>
            } else {
                Some(self@.best as isize)
            }),
    {
        if self.best == 0 {
            None
        } else {
            Some(self.best)
        }
    }
}

// ---------------------------------------------------------------------------
// Activation polling after a launch.
// ---------------------------------------------------------------------------

/// Rounds of the activation polling (30 s at [`POLL_INTERVAL_MS`]).
pub const POLL_ROUNDS: u32 = 300;

/// Pause between two polling rounds, in milliseconds.
pub const POLL_INTERVAL_MS: u64 = 100;

/// Minimum number of rounds between two activations.
pub const MIN_ROUNDS_BETWEEN_ACTIVATIONS: u32 = 3;

/// What a polling round logs.
#[derive(Debug, Clone, Copy, PartialEq, Eq)]
pub enum PollLog {
    /// The main window's state (every 20th round while it is found).
    Status,
    /// A full diagnostic of the program's processes and windows (every 50th
    /// round while no window is found).
    Diagnose,
    /// That no window is found yet (every other 20th round).
    Waiting,
    /// Nothing.
    Quiet,
}

/// One polling round's outcome.
pub struct PollStep {
    /// Window to activate (restore, pin, bring to the foreground).
    pub activate: Option<isize>,
    pub log: PollLog,
}

/// The contents of an [`ActivationPoll`].
pub struct ActivationPollView {
    /// Last main window seen (0: none yet).
    pub last: int,
    /// Round of the last activation.
    pub last_act: int,
}

/// State of the activation polling that follows a launch: the program's main
/// window is re-activated when it changes (splash screen, then main window)
/// or loses the foreground, at most every third round.
pub struct ActivationPoll {
    last: isize,
    last_act: u32,
}

impl View for ActivationPoll {
    type V = ActivationPollView;

    closed spec fn view(&self) -> ActivationPollView {
        ActivationPollView { last: self.last as int, last_act: self.last_act as int }
    }
}

/// The activation due in round `i` when `found` is the main window and `fg`
/// the foreground window.
pub open spec fn poll_activation(s: ActivationPollView, i: int, found: Option<isize>, fg: isize) -> Option<
    isize,
> {
    match found {
        Some(h) => if (h as int != s.last || fg != h) && i - s.last_act >= 3 {
            Some(h)
        } else {
            None
        },
        None => None,
    }
}

/// The log line due in round `i`.
pub open spec fn poll_log(i: int, found: bool) -> PollLog {
    if found {
        if i % 20 == 0 {
            PollLog::Status
        } else {
            PollLog::Quiet
        }
    } else if i % 50 == 0 {
        PollLog::Diagnose
    } else if i % 20 == 0 {
        PollLog::Waiting
    } else {
        PollLog::Quiet
    }
}

impl ActivationPoll {
    /// No window seen, no activation yet.
    pub fn new() -> (p: Self)
        ensures
            p@ == (ActivationPollView { last: 0, last_act: 0 }),
    {
        ActivationPoll { last: 0, last_act: 0 }
    }

    /// Round `i` of the polling, with the main window found this round (if any)
    /// and the current foreground window.
    pub fn step(&mut self, i: u32, found: Option<isize>, foreground: isize) -> (r: PollStep)
        ensures
            r.activate == poll_activation(old(self)@, i as int, found, foreground),
            r.log == poll_log(i as int, (found is Some)),
            final(self)@ == (ActivationPollView {
                last: match found {
                    Some(h) => h as int,
                    None => old(self)@.last,
                },
                last_act: if r.activate is Some {
                    i as int
                } else {
                    old(self)@.last_act
                },
            }),
    {
        match found {
            Some(h) => {
                let mut activate = None;
                if h != self.last || foreground != h {
                    if i >= self.last_act && i - self.last_act >= MIN_ROUNDS_BETWEEN_ACTIVATIONS {
                        activate = Some(h);
                        self.last_act = i;
                    }
                    self.last = h;
                }
                let log = if i % 20 == 0 {
                    PollLog::Status
                } else {
                    PollLog::Quiet
                };
                PollStep { activate, log }
            },
            None => {
                let log = if i % 50 == 0 {
                    PollLog::Diagnose
                } else if i % 20 == 0 {
                    PollLog::Waiting
                } else {
                    PollLog::Quiet
                };
                PollStep { activate: None, log }
            },
        }
    }

    /// The window to unpin and raise when the polling ends, if one was seen.
    pub fn finish(&self) -> (r: Option<isize>)
        ensures
            r == (if self@.last == 0 {
                None::<isize>
            } else {
                Some(self@.last as isize)
            }),
    {
        if self.last == 0 {
            None
        } else {
            Some(self.last)
        }
    }
}

/// Two activations are always at least three rounds apart.
pub proof fn lemma_activations_spaced(
    s: ActivationPollView,
    i: int,
    found: Option<isize>,
    fg: isize,
)
    ensures
        poll_activation(s, i, found, fg) is Some ==> i >= s.last_act + 3,
{
}

// ---------------------------------------------------------------------------
// Taking the foreground.
// ---------------------------------------------------------------------------

/// How many times activation asks for the foreground.
pub const FOREGROUND_TRIES: u32 = 3;

/// What follows a request for the foreground.
#[derive(Debug, Clone, Copy, PartialEq, Eq)]
pub enum ForegroundStep {
    /// The window has the foreground: done.
    Taken,
    /// It has not: press and release Alt (so that the system counts the
    /// launcher as having had input), pause, and ask again.
    NudgeAndRetry,
    /// It has not, and this was the last try: press and release Alt, pause,
    /// and give up.
    NudgeAndGiveUp,
}

/// The step after try `attempt` (from 0) of asking the foreground for a
/// window, given whether the window now has it.
pub open spec fn foreground_step_of(attempt: int, has_foreground: bool) -> ForegroundStep {
    if has_foreground {
        ForegroundStep::Taken
    } else if attempt + 1 < FOREGROUND_TRIES {
        ForegroundStep::NudgeAndRetry
    } else {
        ForegroundStep::NudgeAndGiveUp
    }
}

/// The step after try `attempt` of asking the foreground for a window.
pub fn foreground_step(attempt: u32, has_foreground: bool) -> (r: ForegroundStep)
    requires
        attempt < FOREGROUND_TRIES,
    ensures
        r == foreground_step_of(attempt as int, has_foreground),
{
    if has_foreground {
        ForegroundStep::Taken
    } else if attempt + 1 < FOREGROUND_TRIES {
        ForegroundStep::NudgeAndRetry
    } else {
        ForegroundStep::NudgeAndGiveUp
    }
}

/// The command line that starts `exe`: its path in double quotes, so that a
/// path with spaces ("C:\Program Files\...") stays one argument.
pub fn quoted_command_line(exe: &str) -> (r: String)
    ensures
        r@ == "\""@ + exe@ + "\""@,
{
    let mut r = "\"".to_owned();
    r.append(exe);
    r.append("\"");
    r
}

// ---------------------------------------------------------------------------
// Launch diagnostics.
// ---------------------------------------------------------------------------

/// Adds to `acc`, in list order, the id of each process in `procs` whose
/// lowercased name is `exe_name` and that `acc` does not hold yet.
pub open spec fn collect_pids(acc: Seq<u32>, exe_name: Seq<char>, procs: Seq<(u32, Seq<char>)>) -> Seq<
    u32,
>
    decreases procs.len(),
{
    if procs.len() == 0 {
        acc
    } else {
        let next = if unicode_lowercase(procs[0].1) == exe_name && !acc.contains(procs[0].0) {
            acc.push(procs[0].0)
        } else {
            acc
        };
        collect_pids(next, exe_name, procs.drop_first())
    }
}

/// The processes a launch diagnostic looks at: the started one, then every
/// other process of the same executable file name (when one is known).
pub open spec fn related_pids(pid: u32, exe_name: Seq<char>, procs: Seq<(u32, Seq<char>)>) -> Seq<u32> {
    if exe_name.len() == 0 {
        seq![pid]
    } else {
        collect_pids(seq![pid], exe_name, procs)
    }
}

/// The (id, name) pairs of a process list.
pub open spec fn process_names(procs: Seq<(u32, String)>) -> Seq<(u32, Seq<char>)> {
    procs.map_values(|p: (u32, String)| (p.0, p.1@))
}

fn contains_pid(v: &Vec<u32>, x: u32) -> (r: bool)
    ensures
        r == v@.contains(x),
{
    let mut i: usize = 0;
    while i < v.len()
        invariant
            i <= v@.len(),
            forall|k: int| 0 <= k < i ==> v@[k] != x,
        decreases v@.len() - i,
    {
        if v[i] == x {
            return true;
        }
        i = i + 1;
    }
    false
}

/// The processes a launch diagnostic looks at (see [`related_pids`]), given
/// the process list as (id, executable file name) pairs.
pub fn diagnostic_pids(pid: u32, exe_name: &str, procs: &Vec<(u32, String)>) -> (r: Vec<u32>)
    ensures
        r@ == related_pids(pid, exe_name@, process_names(procs@)),
{
    let mut pids: Vec<u32> = Vec::new();
    pids.push(pid);
    if exe_name.is_empty() {
        assert(pids@ =~= seq![pid]);
        return pids;
    }
    let ghost all = process_names(procs@);
    let target = exe_name.to_owned();
    let mut i: usize = 0;
    assert(all.skip(0) =~= all);
    assert(pids@ =~= seq![pid]);
    while i < procs.len()
        invariant
            i <= procs@.len(),
            all == process_names(procs@),
            target@ == exe_name@,
            collect_pids(seq![pid], exe_name@, all) == collect_pids(
                pids@,
                exe_name@,
                all.skip(i as int),
            ),
        decreases procs@.len() - i,
    {
        let (p, name) = (procs[i].0, &procs[i].1);
        let lower = to_lowercase(name.as_str());
        assert(all.skip(i as int)[0] == (p, name@));
        assert(all.skip(i as int).drop_first() =~= all.skip(i + 1));
        if lower == target && !contains_pid(&pids, p) {
            pids.push(p);
        }
        i = i + 1;
    }
    assert(all.skip(i as int).len() == 0);
    pids
}

/// The part of an executable file name before its first '.'.
pub open spec fn stem_of(name: Seq<char>) -> Seq<char> {
    name.take(dot_index(name) as int)
}

/// Index of the first '.' of `s`, or its length.
pub open spec fn dot_index(s: Seq<char>) -> nat
    decreases s.len(),
{
    if s.len() == 0 || s[0] == '.' {
        0
    } else {
        1 + dot_index(s.drop_first())
    }
}

/// The stem of an executable file name: the part before its first '.'.
pub fn exe_stem(name: &str) -> (r: String)
    ensures
        r@ == stem_of(name@),
{
    let n = name.unicode_len();
    let mut i: usize = 0;
    while i < n && name.get_char(i) != '.'
        invariant
            i <= n,
            n == name@.len(),
            dot_index(name@) == i + dot_index(name@.skip(i as int)),
        decreases n - i,
    {
        assert(name@.skip(i as int).drop_first() =~= name@.skip(i + 1));
        i = i + 1;
    }
    assert(dot_index(name@.skip(i as int)) == 0);
    let stem = name.substring_char(0, i);
    assert(stem@ =~= stem_of(name@));
    stem.to_owned()
}

/// `sub` occurs in `s`.
pub open spec fn has_substring(s: Seq<char>, sub: Seq<char>) -> bool {
    exists|i: int| 0 <= i && i + sub.len() <= s.len() && #[trigger] s.subrange(i, i + sub.len()) == sub
}

/// Whether `sub` occurs in `s`.
pub fn contains_str(s: &str, sub: &str) -> (r: bool)
    ensures
        r == has_substring(s@, sub@),
{
    let n = s.unicode_len();
    let m = sub.unicode_len();
    if m > n {
        assert forall|i: int| 0 <= i && i + m <= n implies #[trigger] s@.subrange(i, i + m) != sub@ by {}
        return false;
    }
    let mut i: usize = 0;
    while i <= n - m
        invariant
            n == s@.len(),
            m == sub@.len(),
            m <= n,
            i <= n - m + 1,
            forall|k: int| 0 <= k < i ==> #[trigger] s@.subrange(k, k + m) != sub@,
        decreases n - i,
    {
        let mut j: usize = 0;
        while j < m && s.get_char(i + j) == sub.get_char(j)
            invariant
                j <= m,
                i + m <= n,
                n == s@.len(),
                m == sub@.len(),
                forall|q: int| 0 <= q < j ==> s@[i + q] == sub@[q],
            decreases m - j,
        {
            j = j + 1;
        }
        if j == m {
            assert(s@.subrange(i as int, i + m) =~= sub@);
            return true;
        }
        assert(s@.subrange(i as int, i + m)[j as int] != sub@[j as int]);
        i = i + 1;
    }
    false
}

/// The processes of a program's family for a diagnostic: those whose
/// lowercased name contains `stem`, as (id, lowercased name) pairs, in list
/// order.
pub open spec fn family_of(stem: Seq<char>, procs: Seq<(u32, Seq<char>)>) -> Seq<(u32, Seq<char>)>
    decreases procs.len(),
{
    if procs.len() == 0 {
        Seq::empty()
    } else {
        let rest = family_of(stem, procs.drop_last());
        let last = procs.last();
        if has_substring(unicode_lowercase(last.1), stem) {
            rest.push((last.0, unicode_lowercase(last.1)))
        } else {
            rest
        }
    }
}

/// The processes whose lowercased name contains `stem`, with that name.
pub fn family_processes(stem: &str, procs: &Vec<(u32, String)>) -> (r: Vec<(u32, String)>)
    ensures
        process_names(r@) == family_of(stem@, process_names(procs@)),
{
    let mut r: Vec<(u32, String)> = Vec::new();
    let ghost all = process_names(procs@);
    let mut i: usize = 0;
    assert(process_names(r@) =~= family_of(stem@, all.take(0)));
    while i < procs.len()
        invariant
            i <= procs@.len(),
            all == process_names(procs@),
            process_names(r@) == family_of(stem@, all.take(i as int)),
        decreases procs@.len() - i,
    {
        let lower = to_lowercase(procs[i].1.as_str());
        assert(all.take(i + 1).drop_last() =~= all.take(i as int));
        assert(all.take(i + 1).last() == (procs@[i as int].0, procs@[i as int].1@));
        if contains_str(lower.as_str(), stem) {
            let ghost before = process_names(r@);
            r.push((procs[i].0, lower));
            assert(process_names(r@) =~= before.push((r@.last().0, r@.last().1@)));
        }
        i = i + 1;
    }
    assert(all.take(i as int) =~= all);
    r
}

} // verus!
