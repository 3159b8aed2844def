//! Installed-program scanning rules: which Start Menu shortcuts become grid
//! items (uninstall, repair and help entries are left out), which Uninstall
//! registry entries name a launchable executable, and de-duplication by name.

use vstd::prelude::*;

use crate::config::{AppItem, AppView, views};
use crate::process::{has_substring, contains_str, is_exe, is_exe_path};
use crate::text::{is_whitespace, to_lowercase, unicode_lowercase, unicode_whitespace};

verus! {

broadcast use {vstd::seq_lib::group_seq_properties, vstd::seq::group_seq_axioms};

// ---------------------------------------------------------------------------
// File names.
// ---------------------------------------------------------------------------

/// Index of the last '.' of `s`, if any.
pub open spec fn last_dot(s: Seq<char>) -> Option<int>
    decreases s.len(),
{
    if s.len() == 0 {
        None
    } else if s.last() == '.' {
        Some(s.len() - 1)
    } else {
        last_dot(s.drop_last())
    }
}

/// Stem and extension of a file name: split at the last '.', except that a
/// name without a '.', with its only '.' first (".profile"), or ".." has no
/// extension and is all stem.
pub open spec fn split_extension(name: Seq<char>) -> (Seq<char>, Option<Seq<char>>) {
    if name == ".."@ {
        (name, None)
    } else {
        match last_dot(name) {
            None => (name, None),
            Some(i) => if i == 0 {
                (name, None)
            } else {
                (name.take(i), Some(name.skip(i + 1)))
            },
        }
    }
}

proof fn lemma_last_dot(s: Seq<char>)
    ensures
        match last_dot(s) {
            Some(i) => 0 <= i < s.len() && s[i] == '.' && forall|k: int|
                i < k < s.len() ==> #[trigger] s[k] != '.',
            None => forall|k: int| 0 <= k < s.len() ==> #[trigger] s[k] != '.',
        },
    decreases s.len(),
{
    if s.len() > 0 && s.last() != '.' {
        lemma_last_dot(s.drop_last());
        assert forall|k: int| 0 <= k < s.len() - 1 implies s[k] == s.drop_last()[k] by {}
    }
}

/// Index of the last '.' of `s`.
fn find_last_dot(s: &str) -> (r: Option<usize>)
    ensures
        match r {
            Some(i) => last_dot(s@) == Some(i as int),
            None => last_dot(s@) is None,
        },
{
    let n = s.unicode_len();
    let mut i: usize = n;
    while i > 0 && s.get_char(i - 1) != '.'
        invariant
            i <= n,
            n == s@.len(),
            last_dot(s@) == last_dot(s@.take(i as int)),
        decreases i,
    {
        assert(s@.take(i as int).drop_last() =~= s@.take(i - 1));
        i = i - 1;
    }
    if i == 0 {
        assert(s@.take(0).len() == 0);
        None
    } else {
        assert(s@.take(i as int).last() == s@[i - 1]);
        Some(i - 1)
    }
}

/// The name a Start Menu entry named `file_name` gives a grid item: its stem,
/// when the extension is "lnk" in any case, the stem is not empty, and its
/// lowercase holds none of 修复 (repair), 卸载 (uninstall), 帮助 (help),
/// "repair", "uninstall", "help".
pub open spec fn shortcut_item_name(file_name: Seq<char>) -> Option<Seq<char>> {
    let (stem, ext) = split_extension(file_name);
    match ext {
        Some(e) => if unicode_lowercase(e) == "lnk"@ && stem.len() > 0 && !excluded_name(
            unicode_lowercase(stem),
        ) {
            Some(stem)
        } else {
            None
        },
        None => None,
    }
}

/// Shortcut names left out of the grid (uninstallers, repair tools, help).
pub open spec fn excluded_name(lower: Seq<char>) -> bool {
    ||| has_substring(lower, "修复"@)
    ||| has_substring(lower, "卸载"@)
    ||| has_substring(lower, "帮助"@)
    ||| has_substring(lower, "repair"@)
    ||| has_substring(lower, "uninstall"@)
    ||| has_substring(lower, "help"@)
}

/// The words that leave a shortcut out of the grid: 修复 (repair), 卸载
/// (uninstall), 帮助 (help), "repair", "uninstall" and "help", and no others.
pub proof fn lemma_excluded_words(lower: Seq<char>)
    ensures
        excluded_name(lower) <==> (has_substring(lower, "修复"@) || has_substring(lower, "卸载"@)
            || has_substring(lower, "帮助"@) || has_substring(lower, "repair"@) || has_substring(
            lower,
            "uninstall"@,
        ) || has_substring(lower, "help"@)),
{
}

/// A `.lnk` file (extension in any case) with a non-empty stem becomes a grid
/// item named after its stem exactly when the stem's lowercase contains none
/// of 修复, 卸载, 帮助, "repair", "uninstall", "help"; any other name, such as
/// "Windows PowerShell", is kept.
pub proof fn lemma_shortcut_kept_unless_excluded(
    file_name: Seq<char>,
    stem: Seq<char>,
    ext: Seq<char>,
)
    requires
        split_extension(file_name) == (stem, Some(ext)),
        unicode_lowercase(ext) == "lnk"@,
        stem.len() > 0,
    ensures
        shortcut_item_name(file_name) == (if has_substring(unicode_lowercase(stem), "修复"@)
            || has_substring(unicode_lowercase(stem), "卸载"@) || has_substring(
            unicode_lowercase(stem),
            "帮助"@,
        ) || has_substring(unicode_lowercase(stem), "repair"@) || has_substring(
            unicode_lowercase(stem),
            "uninstall"@,
        ) || has_substring(unicode_lowercase(stem), "help"@) {
            None
        } else {
            Some(stem)
        }),
{
}

/// Whether a lowercased shortcut name is left out of the grid.
pub fn is_excluded_name(lower: &str) -> (r: bool)
    ensures
        r == excluded_name(lower@),
{
    contains_str(lower, "修复") || contains_str(lower, "卸载") || contains_str(lower, "帮助")
        || contains_str(lower, "repair") || contains_str(lower, "uninstall") || contains_str(
        lower,
        "help",
    )
}

/// The grid item name of a Start Menu entry, if it makes one.
pub fn shortcut_name(file_name: &str) -> (r: Option<String>)
    ensures
        match r {
            Some(n) => shortcut_item_name(file_name@) == Some(n@),
            None => shortcut_item_name(file_name@) is None,
        },
{
    proof {
        reveal_strlit("..");
    }
    let n = file_name.unicode_len();
    if n == 2 && file_name.get_char(0) == '.' && file_name.get_char(1) == '.' {
        assert(file_name@ =~= ".."@);
        return None;
    }
    assert(file_name@ != ".."@) by {
        if file_name@ == ".."@ {
            assert(file_name@[0] == '.' && file_name@[1] == '.');
        }
    }
    let dot = match find_last_dot(file_name) {
        Some(i) => i,
        None => {
            return None;
        },
    };
    proof {
        lemma_last_dot(file_name@);
    }
    if dot == 0 {
        return None;
    }
    let stem = file_name.substring_char(0, dot);
    let ext = file_name.substring_char(dot + 1, n);
    assert(stem@ =~= file_name@.take(dot as int));
    assert(ext@ =~= file_name@.skip(dot + 1));
    let ext_lower = to_lowercase(ext);
    if !(ext_lower == "lnk".to_owned()) {
        return None;
    }
    if stem.unicode_len() == 0 {
        return None;
    }
    let stem_lower = to_lowercase(stem);
    if is_excluded_name(stem_lower.as_str()) {
        return None;
    }
    Some(stem.to_owned())
}

// ---------------------------------------------------------------------------
// Uninstall registry entries.
// ---------------------------------------------------------------------------

/// `s` without leading whitespace.
pub open spec fn trim_start(s: Seq<char>) -> Seq<char>
    decreases s.len(),
{
    if s.len() > 0 && unicode_whitespace(s[0]) {
        trim_start(s.drop_first())
    } else {
        s
    }
}

/// `s` without trailing whitespace.
pub open spec fn trim_end(s: Seq<char>) -> Seq<char>
    decreases s.len(),
{
    if s.len() > 0 && unicode_whitespace(s.last()) {
        trim_end(s.drop_last())
    } else {
        s
    }
}

/// `s` without leading and trailing whitespace.
pub open spec fn trim(s: Seq<char>) -> Seq<char> {
    trim_end(trim_start(s))
}

/// Index of the first ',' of `s`, or its length.
pub open spec fn comma_index(s: Seq<char>) -> nat
    decreases s.len(),
{
    if s.len() == 0 || s[0] == ',' {
        0
    } else {
        1 + comma_index(s.drop_first())
    }
}

/// The executable a `DisplayIcon` value ("C:\...\app.exe,0") names: the part
/// before the first ',', trimmed; kept only when it ends in ".exe" in any case.
pub open spec fn display_icon_exe(icon: Seq<char>) -> Option<Seq<char>> {
    let exe = trim(icon.take(comma_index(icon) as int));
    if is_exe_path(exe) {
        Some(exe)
    } else {
        None
    }
}

/// `s[from..to]` trimmed.
fn trimmed(s: &str, from: usize, to: usize) -> (r: String)
    requires
        from <= to <= s@.len(),
    ensures
        r@ == trim(s@.subrange(from as int, to as int)),
{
    let mut a = from;
    while a < to && is_whitespace(s.get_char(a))
        invariant
            from <= a <= to <= s@.len(),
            trim_start(s@.subrange(from as int, to as int)) == trim_start(
                s@.subrange(a as int, to as int),
            ),
        decreases to - a,
    {
        assert(s@.subrange(a as int, to as int).drop_first() =~= s@.subrange(a + 1, to as int));
        a = a + 1;
    }
    assert(trim_start(s@.subrange(a as int, to as int)) == s@.subrange(a as int, to as int)) by {
        if a < to {
            assert(s@.subrange(a as int, to as int)[0] == s@[a as int]);
        }
    }
    let mut b = to;
    while b > a && is_whitespace(s.get_char(b - 1))
        invariant
            a <= b <= to <= s@.len(),
            trim_end(s@.subrange(a as int, to as int)) == trim_end(s@.subrange(a as int, b as int)),
        decreases b,
    {
        assert(s@.subrange(a as int, b as int).drop_last() =~= s@.subrange(a as int, b - 1));
        b = b - 1;
    }
    assert(trim_end(s@.subrange(a as int, b as int)) == s@.subrange(a as int, b as int)) by {
        if b > a {
            assert(s@.subrange(a as int, b as int).last() == s@[b - 1]);
        }
    }
    s.substring_char(a, b).to_owned()
}

/// The executable that an Uninstall entry's `DisplayIcon` value names, if it
/// is one.
pub fn uninstall_exe(display_icon: &str) -> (r: Option<String>)
    ensures
        match r {
            Some(e) => display_icon_exe(display_icon@) == Some(e@),
            None => display_icon_exe(display_icon@) is None,
        },
{
    let n = display_icon.unicode_len();
    let mut c: usize = 0;
    while c < n && display_icon.get_char(c) != ','
        invariant
            c <= n,
            n == display_icon@.len(),
            comma_index(display_icon@) == c + comma_index(display_icon@.skip(c as int)),
        decreases n - c,
    {
        assert(display_icon@.skip(c as int).drop_first() =~= display_icon@.skip(c + 1));
        c = c + 1;
    }
    assert(comma_index(display_icon@.skip(c as int)) == 0);
    assert(display_icon@.take(c as int) =~= display_icon@.subrange(0, c as int));
    let exe = trimmed(display_icon, 0, c);
    if is_exe(exe.as_str()) {
        Some(exe)
    } else {
        None
    }
}

// ---------------------------------------------------------------------------
// Collecting items.
// ---------------------------------------------------------------------------

/// Items found by a scan, de-duplicated by name (the first one found wins).
pub struct ScanCollector {
    apps: Vec<AppItem>,
    seen: Vec<String>,
}

/// The contents of a [`ScanCollector`].
pub struct ScanCollectorView {
    pub apps: Seq<AppView>,
    pub seen: Seq<Seq<char>>,
}

impl View for ScanCollector {
    type V = ScanCollectorView;

    closed spec fn view(&self) -> ScanCollectorView {
        ScanCollectorView {
            apps: views(self.apps@),
            seen: self.seen@.map_values(|s: String| s@),
        }
    }
}

impl ScanCollector {
    /// Nothing found yet.
    pub fn new() -> (c: Self)
        ensures
            c@.apps.len() == 0,
            c@.seen.len() == 0,
    {
        let c = ScanCollector { apps: Vec::new(), seen: Vec::new() };
        assert(c@.apps =~= Seq::<AppView>::empty());
        c
    }

    /// Claims `name` for a new item: true when no item of that name was
    /// claimed before (the item is then to be built and added), false for a
    /// duplicate.
    pub fn claim(&mut self, name: &str) -> (fresh: bool)
        ensures
            fresh == !old(self)@.seen.contains(name@),
            final(self)@.apps == old(self)@.apps,
            final(self)@.seen == (if fresh {
                old(self)@.seen.push(name@)
            } else {
                old(self)@.seen
            }),
    {
        let target = name.to_owned();
        let mut i: usize = 0;
        while i < self.seen.len()
            invariant
                i <= self.seen@.len(),
                target@ == name@,
                forall|k: int| 0 <= k < i ==> (#[trigger] self.seen@[k])@ != name@,
            decreases self.seen@.len() - i,
        {
            if self.seen[i] == target {
                assert(self@.seen[i as int] == name@);
                return false;
            }
            i = i + 1;
        }
        assert(!self@.seen.contains(name@)) by {
            if self@.seen.contains(name@) {
                let k = choose|k: int| 0 <= k < self@.seen.len() && self@.seen[k] == name@;
                assert(self.seen@[k]@ == name@);
            }
        }
        let ghost before = self@.seen;
        self.seen.push(target);
        assert(self@.seen =~= before.push(name@));
        true
    }

    /// Adds a found item.
    pub fn push(&mut self, app: AppItem)
        ensures
            final(self)@.apps == old(self)@.apps.push(app@),
            final(self)@.seen == old(self)@.seen,
    {
        let ghost before = self@.apps;
        self.apps.push(app);
        assert(self@.apps =~= before.push(app@));
    }

    /// The items found, in the order found.
    pub fn into_apps(self) -> (r: Vec<AppItem>)
        ensures
            views(r@) == self@.apps,
    {
        self.apps
    }
}

/// A grid item for a scanned program, with no launches and no pinning.
pub fn new_item(name: String, exe: String, icon: String) -> (r: AppItem)
    ensures
        r@ == (AppView {
            name: name@,
            exe: exe@,
            icon: icon@,
            launch_count: 0,
            pinned: false,
            pinned_end: false,
        }),
{
    AppItem { name, exe, icon, launch_count: 0, pinned: false, pinned_end: false }
}


// ---------------------------------------------------------------------------
// Scans.
// ---------------------------------------------------------------------------

/// A `.lnk` file met while walking the Start Menu: its file name, its full
/// path and the icon drawn for it.
pub struct FoundShortcut {
    pub file_name: String,
    pub path: String,
    pub icon: String,
}

/// An Uninstall registry entry: its `DisplayName`, its `DisplayIcon` and the
/// icon drawn for the executable that `DisplayIcon` names.
pub struct UninstallEntry {
    pub display_name: String,
    pub display_icon: String,
    pub icon: String,
}

/// The item a Start Menu shortcut gives, if any.
pub open spec fn shortcut_item(s: FoundShortcut) -> Option<AppView> {
    match shortcut_item_name(s.file_name@) {
        Some(name) => Some(
            AppView {
                name,
                exe: s.path@,
                icon: s.icon@,
                launch_count: 0,
                pinned: false,
                pinned_end: false,
            },
        ),
        None => None,
    }
}

/// The item an Uninstall entry gives, if any: one with a display name and a
/// `DisplayIcon` that names an executable.
pub open spec fn uninstall_item(u: UninstallEntry) -> Option<AppView> {
    if u.display_name@.len() == 0 {
        None
    } else {
        match display_icon_exe(u.display_icon@) {
            Some(exe) => Some(
                AppView {
                    name: u.display_name@,
                    exe,
                    icon: u.icon@,
                    launch_count: 0,
                    pinned: false,
                    pinned_end: false,
                },
            ),
            None => None,
        }
    }
}

/// The items kept from `found`, in order, when the names in `seen` are taken:
/// each one whose name was not taken before it, by `seen` or by an earlier
/// kept item.
pub open spec fn first_by_name(seen: Seq<Seq<char>>, found: Seq<Option<AppView>>) -> Seq<AppView>
    decreases found.len(),
{
    if found.len() == 0 {
        Seq::empty()
    } else {
        let rest = found.drop_first();
        match found[0] {
            Some(a) => if seen.contains(a.name) {
                first_by_name(seen, rest)
            } else {
                seq![a] + first_by_name(seen.push(a.name), rest)
            },
            None => first_by_name(seen, rest),
        }
    }
}

/// De-duplication by name: the items kept have pairwise different names, none
/// of them taken before (in `seen`).
pub proof fn lemma_first_by_name_distinct(seen: Seq<Seq<char>>, found: Seq<Option<AppView>>)
    ensures
        forall|i: int, j: int|
            0 <= i < j < first_by_name(seen, found).len() ==> (#[trigger] first_by_name(
                seen,
                found,
            )[i]).name != (#[trigger] first_by_name(seen, found)[j]).name,
        forall|i: int|
            0 <= i < first_by_name(seen, found).len() ==> !seen.contains(
                (#[trigger] first_by_name(seen, found)[i]).name,
            ),
    decreases found.len(),
{
    if found.len() > 0 {
        let rest = found.drop_first();
        match found[0] {
            Some(a) => {
                if seen.contains(a.name) {
                    lemma_first_by_name_distinct(seen, rest);
                    assert(first_by_name(seen, found) == first_by_name(seen, rest));
                } else {
                    let seen2 = seen.push(a.name);
                    lemma_first_by_name_distinct(seen2, rest);
                    let tail = first_by_name(seen2, rest);
                    let r = first_by_name(seen, found);
                    assert(r == seq![a] + tail);
                    assert forall|i: int| 0 <= i < tail.len() implies !seen.contains(
                        #[trigger] tail[i].name,
                    ) && tail[i].name != a.name by {
                        assert(!seen2.contains(tail[i].name));
                        if seen.contains(tail[i].name) {
                            let k = choose|k: int| 0 <= k < seen.len() && seen[k] == tail[i].name;
                            assert(seen2[k] == tail[i].name);
                        }
                        if tail[i].name == a.name {
                            assert(seen2[seen.len() as int] == a.name);
                        }
                    }
                    assert forall|i: int, j: int| 0 <= i < j < r.len() implies (
                    #[trigger] r[i]).name != (#[trigger] r[j]).name by {
                        if i == 0 {
                            assert(r[j] == tail[j - 1]);
                        } else {
                            assert(r[i] == tail[i - 1]);
                            assert(r[j] == tail[j - 1]);
                        }
                    }
                    assert forall|i: int| 0 <= i < r.len() implies !seen.contains(
                        (#[trigger] r[i]).name,
                    ) by {
                        if i > 0 {
                            assert(r[i] == tail[i - 1]);
                        }
                    }
                }
            },
            None => {
                lemma_first_by_name_distinct(seen, rest);
                assert(first_by_name(seen, found) == first_by_name(seen, rest));
            },
        }
    } else {
        assert(first_by_name(seen, found).len() == 0);
    }
}

/// A scan lists each name at most once.
pub proof fn lemma_scan_names_distinct(entries: Seq<UninstallEntry>, shortcuts: Seq<FoundShortcut>)
    ensures
        forall|i: int, j: int|
            0 <= i < j < start_menu_scan(shortcuts).len() ==> (#[trigger] start_menu_scan(
                shortcuts,
            )[i]).name != (#[trigger] start_menu_scan(shortcuts)[j]).name,
        forall|i: int, j: int|
            0 <= i < j < full_scan(entries, shortcuts).len() ==> (#[trigger] full_scan(
                entries,
                shortcuts,
            )[i]).name != (#[trigger] full_scan(entries, shortcuts)[j]).name,
{
    lemma_first_by_name_distinct(
        Seq::empty(),
        shortcuts.map_values(|s: FoundShortcut| shortcut_item(s)),
    );
    lemma_first_by_name_distinct(
        Seq::empty(),
        entries.map_values(|u: UninstallEntry| uninstall_item(u)) + shortcuts.map_values(
            |s: FoundShortcut| shortcut_item(s),
        ),
    );
}

/// What a Start Menu scan lists, given the shortcuts in the order walked.
pub open spec fn start_menu_scan(shortcuts: Seq<FoundShortcut>) -> Seq<AppView> {
    first_by_name(Seq::empty(), shortcuts.map_values(|s: FoundShortcut| shortcut_item(s)))
}

/// What a full scan lists: the Uninstall entries, then the Start Menu
/// shortcuts, de-duplicated by name across both.
pub open spec fn full_scan(entries: Seq<UninstallEntry>, shortcuts: Seq<FoundShortcut>) -> Seq<
    AppView,
> {
    first_by_name(
        Seq::empty(),
        entries.map_values(|u: UninstallEntry| uninstall_item(u)) + shortcuts.map_values(
            |s: FoundShortcut| shortcut_item(s),
        ),
    )
}

/// The item a Start Menu shortcut gives, if any.
fn shortcut_app(s: &FoundShortcut) -> (r: Option<AppItem>)
    ensures
        match r {
            Some(a) => shortcut_item(*s) == Some(a@),
            None => shortcut_item(*s) is None,
        },
{
    match shortcut_name(s.file_name.as_str()) {
        Some(name) => Some(new_item(name, s.path.clone(), s.icon.clone())),
        None => None,
    }
}

/// The item an Uninstall entry gives, if any.
fn uninstall_app(u: &UninstallEntry) -> (r: Option<AppItem>)
    ensures
        match r {
            Some(a) => uninstall_item(*u) == Some(a@),
            None => uninstall_item(*u) is None,
        },
{
    if u.display_name.as_str().unicode_len() == 0 {
        return None;
    }
    match uninstall_exe(u.display_icon.as_str()) {
        Some(exe) => Some(new_item(u.display_name.clone(), exe, u.icon.clone())),
        None => None,
    }
}

/// Adds `found` to `c` unless its name was taken.
fn keep_first(c: &mut ScanCollector, found: Option<AppItem>, Ghost(item): Ghost<Option<AppView>>)
    requires
        match found {
            Some(a) => item == Some(a@),
            None => item is None,
        },
    ensures
        final(c)@.apps + first_by_name(final(c)@.seen, seq![]) == old(c)@.apps + first_by_name(
            old(c)@.seen,
            seq![item],
        ),
        forall|rest: Seq<Option<AppView>>|
            #![trigger first_by_name(old(c)@.seen, seq![item] + rest)]
            final(c)@.apps + first_by_name(final(c)@.seen, rest) == old(c)@.apps + first_by_name(
                old(c)@.seen,
                seq![item] + rest,
            ),
{
    match found {
        Some(a) => {
            if c.claim(a.name.as_str()) {
                c.push(a);
            }
        },
        None => {},
    }
    assert forall|rest: Seq<Option<AppView>>|
        #![trigger first_by_name(old(c)@.seen, seq![item] + rest)]
        c@.apps + first_by_name(c@.seen, rest) == old(c)@.apps + first_by_name(
            old(c)@.seen,
            seq![item] + rest,
        ) by {
        let all = seq![item] + rest;
        assert(all[0] == item);
        assert(all.drop_first() =~= rest);
        match item {
            Some(a) => {
                if !old(c)@.seen.contains(a.name) {
                    assert(c@.apps + first_by_name(c@.seen, rest) =~= old(c)@.apps + (seq![a]
                        + first_by_name(c@.seen, rest)));
                }
            },
            None => {},
        }
    }
    assert(seq![item] + Seq::<Option<AppView>>::empty() =~= seq![item]);
}

/// Scans the Start Menu: the shortcuts that make grid items (see
/// [`shortcut_item_name`]), in the order walked, the first of each name kept.
pub fn scan(shortcuts: &Vec<FoundShortcut>) -> (apps: Vec<AppItem>)
    ensures
        views(apps@) == start_menu_scan(shortcuts@),
{
    let ghost found = shortcuts@.map_values(|s: FoundShortcut| shortcut_item(s));
    let mut c = ScanCollector::new();
    let mut i: usize = 0;
    while i < shortcuts.len()
        invariant
            i <= shortcuts@.len(),
            found == shortcuts@.map_values(|s: FoundShortcut| shortcut_item(s)),
            c@.apps + first_by_name(c@.seen, found.skip(i as int)) == first_by_name(
                Seq::empty(),
                found,
            ),
        decreases shortcuts@.len() - i,
    {
        let item = shortcut_app(&shortcuts[i]);
        assert(found.skip(i as int) =~= seq![found[i as int]] + found.skip(i + 1));
        keep_first(&mut c, item, Ghost(found[i as int]));
        i = i + 1;
    }
    assert(found.skip(i as int) =~= Seq::<Option<AppView>>::empty());
    assert(c@.apps + Seq::<AppView>::empty() =~= c@.apps);
    assert(c@.apps =~= first_by_name(Seq::empty(), found));
    c.into_apps()
}

/// Scans the Uninstall entries and then the Start Menu, for the "add an app"
/// page: the items they give (see [`uninstall_item`] and [`shortcut_item`]),
/// in that order, the first of each name kept.
pub fn scan_full(entries: &Vec<UninstallEntry>, shortcuts: &Vec<FoundShortcut>) -> (apps: Vec<
    AppItem,
>)
    ensures
        views(apps@) == full_scan(entries@, shortcuts@),
{
    let ghost from_entries = entries@.map_values(|u: UninstallEntry| uninstall_item(u));
    let ghost from_shortcuts = shortcuts@.map_values(|s: FoundShortcut| shortcut_item(s));
    let ghost found = from_entries + from_shortcuts;
    let mut c = ScanCollector::new();
    let mut i: usize = 0;
    while i < entries.len()
        invariant
            i <= entries@.len(),
            from_entries == entries@.map_values(|u: UninstallEntry| uninstall_item(u)),
            found == from_entries + from_shortcuts,
            c@.apps + first_by_name(c@.seen, found.skip(i as int)) == first_by_name(
                Seq::empty(),
                found,
            ),
        decreases entries@.len() - i,
    {
        let item = uninstall_app(&entries[i]);
        assert(found.skip(i as int) =~= seq![found[i as int]] + found.skip(i + 1));
        assert(found[i as int] == from_entries[i as int]);
        keep_first(&mut c, item, Ghost(found[i as int]));
        i = i + 1;
    }
    assert(found.skip(i as int) =~= from_shortcuts);
    let mut j: usize = 0;
    while j < shortcuts.len()
        invariant
            j <= shortcuts@.len(),
            from_shortcuts == shortcuts@.map_values(|s: FoundShortcut| shortcut_item(s)),
            c@.apps + first_by_name(c@.seen, from_shortcuts.skip(j as int)) == first_by_name(
                Seq::empty(),
                found,
            ),
        decreases shortcuts@.len() - j,
    {
        let item = shortcut_app(&shortcuts[j]);
        assert(from_shortcuts.skip(j as int) =~= seq![from_shortcuts[j as int]]
            + from_shortcuts.skip(j + 1));
        keep_first(&mut c, item, Ghost(from_shortcuts[j as int]));
        j = j + 1;
    }
    assert(from_shortcuts.skip(j as int) =~= Seq::<Option<AppView>>::empty());
    assert(c@.apps + Seq::<AppView>::empty() =~= c@.apps);
    c.into_apps()
}

} // verus!
