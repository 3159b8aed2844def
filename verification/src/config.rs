//! The grid menu list: its items, the order in which the home screen shows
//! them, and the edits the user makes to it (launch counting, moving an item
//! to the front or to the end, renaming, removing, adding).
//!
//! Order of the grid: items moved to the front come first, in list order;
//! items moved to the end come last, in list order; every other item sits in
//! between, by launch count (highest first) and then by name (byte order),
//! keeping list order among items that tie on both.

use vstd::prelude::*;
use vstd::utf8::encode_utf8;

verus! {

broadcast use {
    vstd::seq_lib::group_seq_properties,
    vstd::seq_lib::group_filter_ensures,
    vstd::seq_lib::group_to_multiset_ensures,
    vstd::seq::group_seq_axioms,
};

/// One entry of the grid menu.
pub struct AppItem {
    pub name: String,
    pub exe: String,
    /// Emoji, image path or data URL shown as the tile icon.
    pub icon: String,
    /// Number of launches; the home screen orders by it, highest first.
    pub launch_count: u32,
    /// Set by "move to front": the item is shown before all others.
    pub pinned: bool,
    /// Set by "move to end": the item is shown after all others.
    pub pinned_end: bool,
}

/// The contents of an [`AppItem`].
pub struct AppView {
    pub name: Seq<char>,
    pub exe: Seq<char>,
    pub icon: Seq<char>,
    pub launch_count: u32,
    pub pinned: bool,
    pub pinned_end: bool,
}

impl View for AppItem {
    type V = AppView;

    open spec fn view(&self) -> AppView {
        AppView {
            name: self.name@,
            exe: self.exe@,
            icon: self.icon@,
            launch_count: self.launch_count,
            pinned: self.pinned,
            pinned_end: self.pinned_end,
        }
    }
}

/// The contents of each item of a list.
pub open spec fn views(s: Seq<AppItem>) -> Seq<AppView> {
    s.map_values(|a: AppItem| a@)
}

impl Clone for AppItem {
    fn clone(&self) -> (r: Self)
        ensures
            r == *self,
    {
        AppItem {
            name: self.name.clone(),
            exe: self.exe.clone(),
            icon: self.icon.clone(),
            launch_count: self.launch_count,
            pinned: self.pinned,
            pinned_end: self.pinned_end,
        }
    }
}

// ---------------------------------------------------------------------------
// Byte-wise lexicographic order (the order of `str` comparison).
// ---------------------------------------------------------------------------

/// `a` sorts strictly before `b` in lexicographic byte order; a proper prefix
/// sorts first.
pub open spec fn bytes_lt(a: Seq<u8>, b: Seq<u8>) -> bool
    decreases a.len(),
{
    if a.len() == 0 {
        b.len() > 0
    } else if b.len() == 0 {
        false
    } else if a[0] != b[0] {
        a[0] < b[0]
    } else {
        bytes_lt(a.drop_first(), b.drop_first())
    }
}

pub proof fn lemma_bytes_lt_irreflexive(a: Seq<u8>)
    ensures
        !bytes_lt(a, a),
    decreases a.len(),
{
    if a.len() > 0 {
        lemma_bytes_lt_irreflexive(a.drop_first());
    }
}

pub proof fn lemma_bytes_lt_asymmetric(a: Seq<u8>, b: Seq<u8>)
    ensures
        bytes_lt(a, b) ==> !bytes_lt(b, a),
    decreases a.len(),
{
    if a.len() > 0 && b.len() > 0 && a[0] == b[0] {
        lemma_bytes_lt_asymmetric(a.drop_first(), b.drop_first());
    }
}

pub proof fn lemma_bytes_lt_transitive(a: Seq<u8>, b: Seq<u8>, c: Seq<u8>)
    ensures
        bytes_lt(a, b) && bytes_lt(b, c) ==> bytes_lt(a, c),
    decreases a.len(),
{
    if a.len() > 0 && b.len() > 0 && c.len() > 0 && a[0] == b[0] && b[0] == c[0] {
        lemma_bytes_lt_transitive(a.drop_first(), b.drop_first(), c.drop_first());
    }
}

pub proof fn lemma_bytes_lt_total(a: Seq<u8>, b: Seq<u8>)
    ensures
        a != b ==> bytes_lt(a, b) || bytes_lt(b, a),
    decreases a.len(),
{
    if a.len() > 0 && b.len() > 0 && a[0] == b[0] {
        lemma_bytes_lt_total(a.drop_first(), b.drop_first());
        if a.drop_first() == b.drop_first() {
            assert(a =~= seq![a[0]] + a.drop_first());
            assert(b =~= seq![b[0]] + b.drop_first());
        }
    } else if a.len() == 0 && b.len() == 0 {
        assert(a =~= b);
    }
}

/// Lexicographic byte comparison of two slices.
fn bytes_less(a: &[u8], b: &[u8]) -> (r: bool)
    ensures
        r == bytes_lt(a@, b@),
{
    let mut i: usize = 0;
    while i < a.len() && i < b.len()
        invariant
            i <= a@.len(),
            i <= b@.len(),
            bytes_lt(a@, b@) == bytes_lt(a@.skip(i as int), b@.skip(i as int)),
        decreases a@.len() - i,
    {
        if a[i] != b[i] {
            return a[i] < b[i];
        }
        assert(a@.skip(i as int).drop_first() =~= a@.skip(i + 1));
        assert(b@.skip(i as int).drop_first() =~= b@.skip(i + 1));
        i = i + 1;
    }
    i == a.len() && i < b.len()
}

/// Byte order is lexicographic order: `a` sorts before `b` exactly when `a`
/// is a proper prefix of `b`, or the first byte where they differ is smaller
/// in `a`.
pub proof fn lemma_bytes_lt_lexicographic(a: Seq<u8>, b: Seq<u8>)
    ensures
        bytes_lt(a, b) <==> ((a.len() < b.len() && b.take(a.len() as int) == a) || exists|k: int|
            0 <= k < a.len() && k < b.len() && a.take(k) == b.take(k) && #[trigger] a[k] < b[k]),
    decreases a.len(),
{
    if a.len() == 0 {
        assert(b.take(0) =~= a);
    } else if b.len() == 0 {
    } else if a[0] != b[0] {
        if a[0] < b[0] {
            assert(a.take(0) =~= b.take(0));
        } else {
            assert(!(a.len() < b.len() && b.take(a.len() as int) == a)) by {
                if a.len() < b.len() && b.take(a.len() as int) == a {
                    assert(b.take(a.len() as int)[0] == b[0]);
                }
            }
            assert forall|k: int|
                0 <= k < a.len() && k < b.len() && a.take(k) == b.take(k) implies !(
                #[trigger] a[k] < b[k]) by {
                if k > 0 {
                    assert(a.take(k)[0] == b.take(k)[0]);
                }
            }
        }
    } else {
        let a1 = a.drop_first();
        let b1 = b.drop_first();
        lemma_bytes_lt_lexicographic(a1, b1);
        if a.len() < b.len() && b.take(a.len() as int) == a {
            let t1 = b1.take(a1.len() as int);
            assert(t1 =~= a1) by {
                assert forall|j: int| 0 <= j < a1.len() implies #[trigger] t1[j] == a1[j] by {
                    assert(b.take(a.len() as int)[j + 1] == a[j + 1]);
                }
            }
        }
        if a1.len() < b1.len() && b1.take(a1.len() as int) == a1 {
            let t0 = b.take(a.len() as int);
            assert(t0 =~= a) by {
                assert forall|j: int| 0 <= j < a.len() implies #[trigger] t0[j] == a[j] by {
                    if j > 0 {
                        assert(b1.take(a1.len() as int)[j - 1] == a1[j - 1]);
                    }
                }
            }
        }
        if exists|k: int|
            0 <= k < a.len() && k < b.len() && a.take(k) == b.take(k) && #[trigger] a[k] < b[k] {
            let k = choose|k: int|
                0 <= k < a.len() && k < b.len() && a.take(k) == b.take(k) && #[trigger] a[k] < b[k];
            assert(k > 0);
            let km = k - 1;
            let ta = a1.take(km);
            let tb = b1.take(km);
            assert(ta =~= tb) by {
                assert forall|j: int| 0 <= j < km implies #[trigger] ta[j] == tb[j] by {
                    assert(a.take(k)[j + 1] == b.take(k)[j + 1]);
                }
            }
            assert(a1[km] < b1[km]);
        }
        if exists|k: int|
            0 <= k < a1.len() && k < b1.len() && a1.take(k) == b1.take(k) && #[trigger] a1[k] < b1[k] {
            let k = choose|k: int|
                0 <= k < a1.len() && k < b1.len() && a1.take(k) == b1.take(k) && #[trigger] a1[k]
                    < b1[k];
            let kp = k + 1;
            let ta = a.take(kp);
            let tb = b.take(kp);
            assert(ta =~= tb) by {
                assert forall|j: int| 0 <= j < kp implies #[trigger] ta[j] == tb[j] by {
                    if j > 0 {
                        assert(a1.take(k)[j - 1] == b1.take(k)[j - 1]);
                    }
                }
            }
            assert(a[kp] < b[kp]);
        }
    }
}

/// A proper prefix sorts first: `a` sorts before `a + c` whenever `c` is not
/// empty, and never after it.
pub proof fn lemma_bytes_lt_prefix_first(a: Seq<u8>, c: Seq<u8>)
    requires
        c.len() > 0,
    ensures
        bytes_lt(a, a + c),
        !bytes_lt(a + c, a),
{
    lemma_bytes_lt_lexicographic(a, a + c);
    assert((a + c).take(a.len() as int) =~= a);
    lemma_bytes_lt_asymmetric(a, a + c);
}

// ---------------------------------------------------------------------------
// Rank of an item in the middle group.
// ---------------------------------------------------------------------------

/// The UTF-8 bytes of an item's name, the key that `str` comparison uses.
pub open spec fn name_key(a: AppView) -> Seq<u8> {
    encode_utf8(a.name)
}

/// `a` is shown before `b`: more launches, or as many launches and a name that
/// sorts first.
pub open spec fn ranks_before(a: AppView, b: AppView) -> bool {
    ||| a.launch_count > b.launch_count
    ||| (a.launch_count == b.launch_count && bytes_lt(name_key(a), name_key(b)))
}

/// `a` and `b` tie: as many launches and the same name.
pub open spec fn same_rank(a: AppView, b: AppView) -> bool {
    a.launch_count == b.launch_count && name_key(a) == name_key(b)
}

/// The items that tie with `k`.
pub open spec fn rank_class(k: AppView) -> spec_fn(AppView) -> bool {
    |a: AppView| same_rank(a, k)
}

pub proof fn lemma_rank_order(a: AppView, b: AppView, c: AppView)
    ensures
        !ranks_before(a, a),
        ranks_before(a, b) ==> !ranks_before(b, a),
        ranks_before(a, b) && ranks_before(b, c) ==> ranks_before(a, c),
        !ranks_before(a, b) && !ranks_before(b, c) ==> !ranks_before(a, c),
        !ranks_before(a, b) && !ranks_before(b, a) <==> same_rank(a, b),
{
    lemma_bytes_lt_irreflexive(name_key(a));
    lemma_bytes_lt_asymmetric(name_key(a), name_key(b));
    lemma_bytes_lt_transitive(name_key(a), name_key(b), name_key(c));
    lemma_bytes_lt_transitive(name_key(c), name_key(a), name_key(b));
    lemma_bytes_lt_transitive(name_key(b), name_key(c), name_key(a));
    lemma_bytes_lt_transitive(name_key(b), name_key(a), name_key(c));
    lemma_bytes_lt_total(name_key(a), name_key(b));
    lemma_bytes_lt_total(name_key(a), name_key(c));
    lemma_bytes_lt_total(name_key(b), name_key(c));
    lemma_bytes_lt_irreflexive(name_key(b));
}

/// Whether `a` is shown before `b` in the middle group.
fn ranks_before_exec(a: &AppItem, b: &AppItem) -> (r: bool)
    ensures
        r == ranks_before(a@, b@),
{
    if a.launch_count != b.launch_count {
        a.launch_count > b.launch_count
    } else {
        bytes_less(a.name.as_str().as_bytes(), b.name.as_str().as_bytes())
    }
}

// ---------------------------------------------------------------------------
// Stable ordering of the middle group.
// ---------------------------------------------------------------------------

/// Where `x` goes when added to the ordered sequence `r`: after every item
/// that is not shown after it.
pub open spec fn insert_position(r: Seq<AppView>, x: AppView) -> nat
    decreases r.len(),
{
    if r.len() == 0 {
        0
    } else if ranks_before(x, r.last()) {
        insert_position(r.drop_last(), x)
    } else {
        r.len()
    }
}

/// The stable ordering of `s` by rank: each item, in list order, is placed
/// after every earlier item that it does not rank before.
pub open spec fn rank_sort(s: Seq<AppView>) -> Seq<AppView>
    decreases s.len(),
{
    if s.len() == 0 {
        s
    } else {
        let r = rank_sort(s.drop_last());
        r.insert(insert_position(r, s.last()) as int, s.last())
    }
}

/// No item of `r` ranks before an item that precedes it.
pub open spec fn rank_ordered(r: Seq<AppView>) -> bool {
    forall|i: int, j: int| 0 <= i < j < r.len() ==> !ranks_before(#[trigger] r[j], #[trigger] r[i])
}

proof fn lemma_insert_position(r: Seq<AppView>, x: AppView)
    ensures
        insert_position(r, x) <= r.len(),
        forall|k: int| insert_position(r, x) <= k < r.len() ==> ranks_before(x, #[trigger] r[k]),
        rank_ordered(r) ==> forall|k: int|
            0 <= k < insert_position(r, x) ==> !ranks_before(x, #[trigger] r[k]),
    decreases r.len(),
{
    if r.len() > 0 {
        let d = r.drop_last();
        let p = insert_position(r, x) as int;
        lemma_insert_position(d, x);
        if ranks_before(x, r.last()) {
            assert forall|k: int| p <= k < r.len() implies ranks_before(x, #[trigger] r[k]) by {
                if k < r.len() - 1 {
                    assert(r[k] == d[k]);
                }
            }
            if rank_ordered(r) {
                assert forall|i: int, j: int| 0 <= i < j < d.len() implies !ranks_before(
                    #[trigger] d[j],
                    #[trigger] d[i],
                ) by {
                    assert(d[i] == r[i] && d[j] == r[j]);
                }
                assert forall|k: int| 0 <= k < p implies !ranks_before(x, #[trigger] r[k]) by {
                    assert(r[k] == d[k]);
                }
            }
        } else if rank_ordered(r) {
            assert forall|k: int| 0 <= k < p implies !ranks_before(x, #[trigger] r[k]) by {
                if k < r.len() - 1 {
                    assert(!ranks_before(r[r.len() - 1], r[k]));
                    lemma_rank_order(x, r.last(), r[k]);
                }
            }
        }
    }
}

proof fn lemma_insert_keeps_order(r: Seq<AppView>, x: AppView)
    requires
        rank_ordered(r),
    ensures
        rank_ordered(r.insert(insert_position(r, x) as int, x)),
{
    lemma_insert_position(r, x);
    let p = insert_position(r, x) as int;
    let t = r.insert(p, x);
    assert forall|i: int, j: int| 0 <= i < j < t.len() implies !ranks_before(
        #[trigger] t[j],
        #[trigger] t[i],
    ) by {
        if i < p && j == p {
        } else if i == p && j > p {
            lemma_rank_order(x, r[j - 1], x);
        } else if i < p && j > p {
            assert(!ranks_before(r[j - 1], r[i]));
        } else if i > p {
            assert(!ranks_before(r[j - 1], r[i - 1]));
        }
    }
}

/// The stable ordering is ordered by rank.
pub proof fn lemma_rank_sort_ordered(s: Seq<AppView>)
    ensures
        rank_ordered(rank_sort(s)),
    decreases s.len(),
{
    if s.len() > 0 {
        lemma_rank_sort_ordered(s.drop_last());
        lemma_insert_keeps_order(rank_sort(s.drop_last()), s.last());
    }
}

/// The stable ordering holds the same items as its input.
pub proof fn lemma_rank_sort_permutes(s: Seq<AppView>)
    ensures
        rank_sort(s).to_multiset() == s.to_multiset(),
        rank_sort(s).len() == s.len(),
    decreases s.len(),
{
    if s.len() > 0 {
        lemma_rank_sort_permutes(s.drop_last());
        let r = rank_sort(s.drop_last());
        lemma_insert_position(r, s.last());
        assert(s.drop_last().push(s.last()) =~= s);
    }
}

/// The stable ordering keeps the list order of items that tie.
pub proof fn lemma_rank_sort_stable(s: Seq<AppView>, k: AppView)
    ensures
        rank_sort(s).filter(rank_class(k)) == s.filter(rank_class(k)),
    decreases s.len(),
{
    broadcast use vstd::seq_lib::group_seq_lib_default;

    if s.len() > 0 {
        let x = s.last();
        let r = rank_sort(s.drop_last());
        let p = insert_position(r, x) as int;
        let c = rank_class(k);
        lemma_rank_sort_stable(s.drop_last(), k);
        lemma_rank_sort_ordered(s.drop_last());
        lemma_insert_position(r, x);
        assert(s.drop_last().push(x) =~= s);
        assert(r.insert(p, x) =~= r.take(p) + seq![x] + r.skip(p));
        assert(r =~= r.take(p) + r.skip(p));
        assert(seq![x] =~= Seq::<AppView>::empty().push(x));
        let t = r.take(p);
        let u = r.skip(p);
        assert((t + seq![x]).filter(c) == t.filter(c) + seq![x].filter(c));
        assert((t + seq![x] + u).filter(c) == (t + seq![x]).filter(c) + u.filter(c));
        assert((t + u).filter(c) == t.filter(c) + u.filter(c));
        Seq::<AppView>::empty().lemma_filter_push(x, c);
        assert(Seq::<AppView>::empty().filter(c) =~= Seq::<AppView>::empty()) by {
            reveal(Seq::filter);
        }
        s.drop_last().lemma_filter_push(x, c);
        if c(x) {
            assert forall|i: int| 0 <= i < u.len() implies !c(#[trigger] u[i]) by {
                lemma_rank_order(x, r[p + i], k);
                lemma_rank_order(r[p + i], x, k);
                lemma_rank_order(k, x, r[p + i]);
                lemma_rank_order(x, k, r[p + i]);
            }
            u.lemma_all_neg_filter_empty(c);
            assert(r.insert(p, x).filter(c) =~= r.filter(c).push(x));
        } else {
            assert(r.insert(p, x).filter(c) =~= r.filter(c));
        }
    }
}

/// An ordered sequence is its own stable ordering.
pub proof fn lemma_rank_sort_of_ordered(s: Seq<AppView>)
    requires
        rank_ordered(s),
    ensures
        rank_sort(s) == s,
    decreases s.len(),
{
    if s.len() > 0 {
        let d = s.drop_last();
        assert(rank_ordered(d));
        lemma_rank_sort_of_ordered(d);
        if d.len() > 0 {
            assert(!ranks_before(s.last(), d.last()));
        }
        assert(d.insert(d.len() as int, s.last()) =~= s);
    }
}

/// Orders `v` stably by rank (insertion sort).
fn rank_sort_vec(v: &Vec<AppItem>) -> (r: Vec<AppItem>)
    ensures
        views(r@) == rank_sort(views(v@)),
{
    let mut r: Vec<AppItem> = Vec::new();
    let mut i: usize = 0;
    assert(views(r@) =~= Seq::<AppView>::empty());
    while i < v.len()
        invariant
            i <= v@.len(),
            views(r@) == rank_sort(views(v@).take(i as int)),
        decreases v@.len() - i,
    {
        let x = v[i].clone();
        let ghost rv = views(r@);
        let mut p: usize = r.len();
        assert(rv.take(p as int) =~= rv);
        while p > 0 && ranks_before_exec(&x, &r[p - 1])
            invariant
                p <= r@.len(),
                rv == views(r@),
                insert_position(rv.take(p as int), x@) == insert_position(rv, x@),
            decreases p,
        {
            assert(rv.take(p as int).drop_last() =~= rv.take(p - 1));
            assert(rv.take(p as int).last() == r@[p - 1]@);
            p = p - 1;
        }
        proof {
            if p > 0 {
                assert(rv.take(p as int).last() == r@[p - 1]@);
            }
        }
        r.insert(p, x);
        assert(views(r@) =~= rv.insert(p as int, x@));
        assert(views(v@).take(i + 1).drop_last() =~= views(v@).take(i as int));
        assert(views(v@).take(i + 1).last() == v@[i as int]@);
        i = i + 1;
    }
    assert(views(v@).take(v@.len() as int) =~= views(v@));
    r
}

// ---------------------------------------------------------------------------
// The grid order.
// ---------------------------------------------------------------------------

/// Items moved to the front (and not since moved to the end).
pub open spec fn front_group() -> spec_fn(AppView) -> bool {
    |a: AppView| a.pinned && !a.pinned_end
}

/// Items neither moved to the front nor to the end.
pub open spec fn middle_group() -> spec_fn(AppView) -> bool {
    |a: AppView| !a.pinned && !a.pinned_end
}

/// Items moved to the end.
pub open spec fn end_group() -> spec_fn(AppView) -> bool {
    |a: AppView| a.pinned_end
}

/// The order in which the grid shows the items of `s`: front group in list
/// order, middle group by rank (stable), end group in list order.
pub open spec fn arranged(s: Seq<AppView>) -> Seq<AppView> {
    s.filter(front_group()) + rank_sort(s.filter(middle_group())) + s.filter(end_group())
}

/// Puts the list into grid order.
pub fn sort_apps(apps: &mut Vec<AppItem>)
    ensures
        views(final(apps)@) == arranged(views(old(apps)@)),
{
    let ghost s = views(apps@);
    let mut front: Vec<AppItem> = Vec::new();
    let mut middle: Vec<AppItem> = Vec::new();
    let mut end: Vec<AppItem> = Vec::new();
    let mut i: usize = 0;
    assert(views(front@) =~= s.take(0).filter(front_group())) by {
        reveal(Seq::filter);
    }
    assert(views(middle@) =~= s.take(0).filter(middle_group())) by {
        reveal(Seq::filter);
    }
    assert(views(end@) =~= s.take(0).filter(end_group())) by {
        reveal(Seq::filter);
    }
    while i < apps.len()
        invariant
            i <= apps@.len(),
            s == views(apps@),
            views(front@) == s.take(i as int).filter(front_group()),
            views(middle@) == s.take(i as int).filter(middle_group()),
            views(end@) == s.take(i as int).filter(end_group()),
        decreases apps@.len() - i,
    {
        let a = apps[i].clone();
        let ghost av = a@;
        assert(s.take(i + 1) =~= s.take(i as int).push(av));
        proof {
            s.take(i as int).lemma_filter_push(av, front_group());
            s.take(i as int).lemma_filter_push(av, middle_group());
            s.take(i as int).lemma_filter_push(av, end_group());
        }
        if a.pinned_end {
            let ghost before = views(end@);
            end.push(a);
            assert(views(end@) =~= before.push(av));
        } else if a.pinned {
            let ghost before = views(front@);
            front.push(a);
            assert(views(front@) =~= before.push(av));
        } else {
            let ghost before = views(middle@);
            middle.push(a);
            assert(views(middle@) =~= before.push(av));
        }
        i = i + 1;
    }
    assert(s.take(i as int) =~= s);
    let mut sorted = rank_sort_vec(&middle);
    let ghost f = views(front@);
    let ghost m = views(sorted@);
    let ghost e = views(end@);
    front.append(&mut sorted);
    front.append(&mut end);
    assert(views(front@) =~= f + m + e);
    *apps = front;
}

// ---------------------------------------------------------------------------
// Laws of the grid order.
// ---------------------------------------------------------------------------

proof fn lemma_filter_idempotent(s: Seq<AppView>, p: spec_fn(AppView) -> bool)
    ensures
        s.filter(p).filter(p) == s.filter(p),
    decreases s.len(),
{
    if s.len() > 0 {
        lemma_filter_idempotent(s.drop_last(), p);
        assert(s.drop_last().push(s.last()) =~= s);
        s.drop_last().lemma_filter_push(s.last(), p);
        s.drop_last().filter(p).lemma_filter_push(s.last(), p);
    }
}

proof fn lemma_filter_none(s: Seq<AppView>, p: spec_fn(AppView) -> bool)
    requires
        forall|i: int| 0 <= i < s.len() ==> !p(#[trigger] s[i]),
    ensures
        s.filter(p) == Seq::<AppView>::empty(),
{
    s.lemma_all_neg_filter_empty(p);
    assert(s.filter(p) =~= Seq::<AppView>::empty());
}

/// Splitting a list into the three groups loses and adds no item.
proof fn lemma_groups_partition(s: Seq<AppView>)
    ensures
        s.to_multiset() == s.filter(front_group()).to_multiset().add(
            s.filter(middle_group()).to_multiset(),
        ).add(s.filter(end_group()).to_multiset()),
    decreases s.len(),
{
    broadcast use vstd::multiset::group_multiset_axioms;

    if s.len() == 0 {
        reveal(Seq::filter);
        assert(s.to_multiset() =~= s.filter(front_group()).to_multiset().add(
            s.filter(middle_group()).to_multiset(),
        ).add(s.filter(end_group()).to_multiset()));
    } else {
        let d = s.drop_last();
        let x = s.last();
        lemma_groups_partition(d);
        assert(d.push(x) =~= s);
        d.lemma_filter_push(x, front_group());
        d.lemma_filter_push(x, middle_group());
        d.lemma_filter_push(x, end_group());
        assert(s.to_multiset() =~= s.filter(front_group()).to_multiset().add(
            s.filter(middle_group()).to_multiset(),
        ).add(s.filter(end_group()).to_multiset()));
    }
}

/// Every item of the stable ordering comes from its input.
proof fn lemma_rank_sort_members(s: Seq<AppView>, p: spec_fn(AppView) -> bool)
    requires
        forall|i: int| 0 <= i < s.len() ==> p(#[trigger] s[i]),
    ensures
        forall|i: int| 0 <= i < rank_sort(s).len() ==> p(#[trigger] rank_sort(s)[i]),
{
    lemma_rank_sort_permutes(s);
    assert forall|i: int| 0 <= i < rank_sort(s).len() implies p(#[trigger] rank_sort(s)[i]) by {
        let x = rank_sort(s)[i];
        assert(rank_sort(s).contains(x));
        assert(rank_sort(s).to_multiset().count(x) > 0);
        assert(s.contains(x));
    }
}

/// Grid order regroups the items: the front group and the end group keep
/// list order, the middle group is the stable ordering by rank.
pub proof fn lemma_arranged_groups(s: Seq<AppView>)
    ensures
        arranged(s).filter(front_group()) == s.filter(front_group()),
        arranged(s).filter(middle_group()) == rank_sort(s.filter(middle_group())),
        arranged(s).filter(end_group()) == s.filter(end_group()),
{
    broadcast use vstd::seq_lib::group_seq_lib_default;

    let f = s.filter(front_group());
    let m = rank_sort(s.filter(middle_group()));
    let e = s.filter(end_group());
    lemma_rank_sort_members(s.filter(middle_group()), middle_group());
    lemma_filter_idempotent(s, front_group());
    lemma_filter_idempotent(s, end_group());
    lemma_filter_none(f, middle_group());
    lemma_filter_none(f, end_group());
    lemma_filter_none(m, front_group());
    lemma_filter_none(m, end_group());
    lemma_filter_none(e, front_group());
    lemma_filter_none(e, middle_group());
    assert forall|i: int| 0 <= i < m.len() implies (middle_group())(#[trigger] m[i]) by {}
    lemma_filter_all(m, middle_group());
    assert((f + m + e).filter(front_group()) == (f + m).filter(front_group()) + e.filter(
        front_group(),
    ));
    assert((f + m).filter(front_group()) == f.filter(front_group()) + m.filter(front_group()));
    assert((f + m + e).filter(middle_group()) == (f + m).filter(middle_group()) + e.filter(
        middle_group(),
    ));
    assert((f + m).filter(middle_group()) == f.filter(middle_group()) + m.filter(
        middle_group(),
    ));
    assert((f + m + e).filter(end_group()) == (f + m).filter(end_group()) + e.filter(
        end_group(),
    ));
    assert((f + m).filter(end_group()) == f.filter(end_group()) + m.filter(end_group()));
    assert(arranged(s).filter(front_group()) =~= f);
    assert(arranged(s).filter(middle_group()) =~= m);
    assert(arranged(s).filter(end_group()) =~= e);
}

proof fn lemma_filter_all(s: Seq<AppView>, p: spec_fn(AppView) -> bool)
    requires
        forall|i: int| 0 <= i < s.len() ==> p(#[trigger] s[i]),
    ensures
        s.filter(p) == s,
    decreases s.len(),
{
    reveal(Seq::filter);
    if s.len() > 0 {
        lemma_filter_all(s.drop_last(), p);
        assert(s.drop_last().push(s.last()) =~= s);
    }
}

/// Grid order neither loses nor adds an item.
pub proof fn lemma_arranged_permutes(s: Seq<AppView>)
    ensures
        arranged(s).to_multiset() == s.to_multiset(),
        arranged(s).len() == s.len(),
{
    broadcast use vstd::multiset::group_multiset_axioms;

    let m = s.filter(middle_group());
    lemma_groups_partition(s);
    lemma_rank_sort_permutes(m);
    vstd::seq_lib::lemma_multiset_commutative(
        s.filter(front_group()) + rank_sort(m),
        s.filter(end_group()),
    );
    vstd::seq_lib::lemma_multiset_commutative(s.filter(front_group()), rank_sort(m));
    assert(arranged(s).to_multiset() =~= s.to_multiset());
    assert(arranged(s).to_multiset().len() == arranged(s).len());
    assert(s.to_multiset().len() == s.len());
}

/// Position of an item's group in the grid: front 0, middle 1, end 2.
pub open spec fn group_index(a: AppView) -> int {
    if a.pinned_end {
        2
    } else if a.pinned {
        0
    } else {
        1
    }
}

/// Grid order shows the front group first, then the middle group, then the end
/// group, and the middle group by launch count (highest first), then by name.
pub proof fn lemma_arranged_layout(s: Seq<AppView>)
    ensures
        forall|i: int, j: int|
            0 <= i < j < arranged(s).len() ==> group_index(#[trigger] arranged(s)[i])
                <= group_index(#[trigger] arranged(s)[j]),
        forall|i: int, j: int|
            0 <= i < j < arranged(s).len() && group_index(#[trigger] arranged(s)[i]) == 1
                && group_index(#[trigger] arranged(s)[j]) == 1 ==> !ranks_before(
                arranged(s)[j],
                arranged(s)[i],
            ),
{
    let f = s.filter(front_group());
    let m = rank_sort(s.filter(middle_group()));
    let e = s.filter(end_group());
    let r = arranged(s);
    lemma_rank_sort_members(s.filter(middle_group()), middle_group());
    lemma_rank_sort_ordered(s.filter(middle_group()));
    assert forall|i: int| 0 <= i < r.len() implies (i < f.len() ==> group_index(#[trigger] r[i])
        == 0) && (f.len() <= i < f.len() + m.len() ==> group_index(r[i]) == 1 && r[i] == m[i
        - f.len()]) && (f.len() + m.len() <= i ==> group_index(r[i]) == 2) by {
        if i < f.len() {
            assert(r[i] == f[i]);
            assert((front_group())(f[i]));
        } else if i < f.len() + m.len() {
            assert(r[i] == m[i - f.len()]);
            assert((middle_group())(m[i - f.len()]));
        } else {
            assert(r[i] == e[i - f.len() - m.len()]);
            assert((end_group())(e[i - f.len() - m.len()]));
        }
    }
    assert forall|i: int, j: int|
        0 <= i < j < r.len() && group_index(#[trigger] r[i]) == 1 && group_index(#[trigger] r[j])
            == 1 implies !ranks_before(r[j], r[i]) by {
        assert(m[j - f.len()] == r[j]);
        assert(m[i - f.len()] == r[i]);
    }
}

/// Putting an already arranged list into grid order changes nothing.
#[verifier::spinoff_prover]
#[verifier::rlimit(40)]
pub proof fn lemma_arranged_idempotent(s: Seq<AppView>)
    ensures
        arranged(arranged(s)) == arranged(s),
{
    let m = rank_sort(s.filter(middle_group()));
    lemma_arranged_groups(s);
    lemma_rank_sort_ordered(s.filter(middle_group()));
    lemma_rank_sort_of_ordered(m);
    lemma_arranged_from_groups(
        arranged(s),
        s.filter(front_group()),
        m,
        s.filter(end_group()),
    );
}

proof fn lemma_arranged_from_groups(
    a: Seq<AppView>,
    f: Seq<AppView>,
    m: Seq<AppView>,
    e: Seq<AppView>,
)
    requires
        a.filter(front_group()) == f,
        a.filter(middle_group()) == m,
        a.filter(end_group()) == e,
        rank_sort(m) == m,
    ensures
        arranged(a) == f + m + e,
{
}

// ---------------------------------------------------------------------------
// Edits of the list.
// ---------------------------------------------------------------------------

/// Index of the first item whose program path is `exe`.
pub open spec fn find_exe(s: Seq<AppView>, exe: Seq<char>) -> Option<int>
    decreases s.len(),
{
    if s.len() == 0 {
        None
    } else if s[0].exe == exe {
        Some(0)
    } else {
        match find_exe(s.drop_first(), exe) {
            Some(i) => Some(i + 1),
            None => None,
        }
    }
}

pub proof fn lemma_find_exe(s: Seq<AppView>, exe: Seq<char>)
    ensures
        find_exe(s, exe) is Some ==> {
            let i = find_exe(s, exe)->0;
            &&& 0 <= i < s.len()
            &&& s[i].exe == exe
            &&& forall|j: int| 0 <= j < i ==> (#[trigger] s[j]).exe != exe
        },
        find_exe(s, exe) is None ==> forall|j: int| 0 <= j < s.len() ==> (#[trigger] s[j]).exe != exe,
    decreases s.len(),
{
    if s.len() > 0 {
        lemma_find_exe(s.drop_first(), exe);
        assert forall|j: int| 0 < j < s.len() implies s[j] == s.drop_first()[j - 1] by {}
    }
}

/// Index of the first item whose program path is `exe`.
fn position_of(apps: &Vec<AppItem>, exe: &str) -> (r: Option<usize>)
    ensures
        match r {
            Some(i) => find_exe(views(apps@), exe@) == Some(i as int) && i < apps@.len(),
            None => find_exe(views(apps@), exe@) is None,
        },
{
    proof {
        lemma_find_exe(views(apps@), exe@);
    }
    let target = exe.to_owned();
    let mut i: usize = 0;
    while i < apps.len()
        invariant
            i <= apps@.len(),
            target@ == exe@,
            forall|j: int| 0 <= j < i ==> (#[trigger] views(apps@)[j]).exe != exe@,
        decreases apps@.len() - i,
    {
        if apps[i].exe == target {
            proof {
                let s = views(apps@);
                assert(s[i as int].exe == exe@);
                lemma_find_exe(s, exe@);
                match find_exe(s, exe@) {
                    Some(k) => {
                        assert(s[k].exe == exe@);
                        if k > i {
                            assert(s[i as int].exe != exe@);
                        }
                    },
                    None => {
                        assert(s[i as int].exe != exe@);
                    },
                }
            }
            return Some(i);
        }
        i = i + 1;
    }
    proof {
        let s = views(apps@);
        lemma_find_exe(s, exe@);
        match find_exe(s, exe@) {
            Some(k) => {
                assert(s[k].exe == exe@);
            },
            None => {},
        }
    }
    None
}

/// `a` with one more launch.
pub open spec fn counted(a: AppView) -> AppView {
    AppView { launch_count: (a.launch_count + 1) as u32, ..a }
}

/// `a` as "move to front" leaves it.
pub open spec fn pinned_front(a: AppView) -> AppView {
    AppView { pinned: true, pinned_end: false, ..a }
}

/// `a` as "move to end" leaves it.
pub open spec fn pinned_back(a: AppView) -> AppView {
    AppView { pinned: false, pinned_end: true, ..a }
}

/// Items whose program path is not `exe`.
pub open spec fn other_exe(exe: Seq<char>) -> spec_fn(AppView) -> bool {
    |a: AppView| a.exe != exe
}

/// Counts one launch of the first item whose program path is `exe` and puts
/// the list back into grid order. Returns whether such an item was found
/// (and the list is to be saved); otherwise the list is left as it was.
pub fn increment_launch_count(apps: &mut Vec<AppItem>, exe: &str) -> (saved: bool)
    requires
        match find_exe(views(old(apps)@), exe@) {
            Some(i) => old(apps)@[i].launch_count < u32::MAX,
            None => true,
        },
    ensures
        saved == find_exe(views(old(apps)@), exe@) is Some,
        match find_exe(views(old(apps)@), exe@) {
            Some(i) => views(final(apps)@) == arranged(
                views(old(apps)@).update(i, counted(views(old(apps)@)[i])),
            ),
            None => final(apps)@ == old(apps)@,
        },
{
    match position_of(apps, exe) {
        Some(i) => {
            let ghost s = views(apps@);
            let mut a = apps[i].clone();
            a.launch_count = a.launch_count + 1;
            apps.set(i, a);
            assert(views(apps@) =~= s.update(i as int, counted(s[i as int])));
            sort_apps(apps);
            true
        },
        None => false,
    }
}

/// Moves the first item whose program path is `exe` in front of all others
/// (marking it as moved to the front) and puts the list back into grid order.
/// Returns whether such an item was found; otherwise the list is unchanged.
pub fn move_to_front(apps: &mut Vec<AppItem>, exe: &str) -> (saved: bool)
    ensures
        saved == find_exe(views(old(apps)@), exe@) is Some,
        match find_exe(views(old(apps)@), exe@) {
            Some(i) => views(final(apps)@) == arranged(
                seq![pinned_front(views(old(apps)@)[i])] + views(old(apps)@).remove(i),
            ),
            None => final(apps)@ == old(apps)@,
        },
        saved ==> final(apps)@.len() > 0 && final(apps)@[0]@ == pinned_front(
            views(old(apps)@)[find_exe(views(old(apps)@), exe@)->0],
        ),
{
    match position_of(apps, exe) {
        Some(i) => {
            let ghost s = views(apps@);
            let mut a = apps.remove(i);
            a.pinned = true;
            a.pinned_end = false;
            apps.insert(0, a);
            let ghost t = views(apps@);
            assert(t =~= seq![pinned_front(s[i as int])] + s.remove(i as int));
            proof {
                lemma_first_of_arranged(s.remove(i as int), pinned_front(s[i as int]));
            }
            sort_apps(apps);
            assert(views(apps@)[0] == apps@[0]@);
            true
        },
        None => false,
    }
}

/// An item of the front group put at the head of a list is shown first.
proof fn lemma_first_of_arranged(rest: Seq<AppView>, x: AppView)
    requires
        x.pinned && !x.pinned_end,
    ensures
        arranged(seq![x] + rest).len() > 0,
        arranged(seq![x] + rest)[0] == x,
{
    let t = seq![x] + rest;
    let f = t.filter(front_group());
    let tail = rank_sort(t.filter(middle_group())) + t.filter(end_group());
    rest.lemma_filter_prepend(x, front_group());
    assert(f == seq![x] + rest.filter(front_group()));
    assert(f[0] == x);
    assert(arranged(t) == f + rank_sort(t.filter(middle_group())) + t.filter(end_group()));
    assert((f + rank_sort(t.filter(middle_group())))[0] == x);
}

/// An item of the end group put at the tail of a list is shown last.
proof fn lemma_last_of_arranged(rest: Seq<AppView>, x: AppView)
    requires
        x.pinned_end,
    ensures
        arranged(rest.push(x)).len() > 0,
        arranged(rest.push(x)).last() == x,
{
    let t = rest.push(x);
    let e = t.filter(end_group());
    let head = t.filter(front_group()) + rank_sort(t.filter(middle_group()));
    rest.lemma_filter_push(x, end_group());
    assert(e == rest.filter(end_group()).push(x));
    assert(arranged(t) == head + e);
    assert((head + e).last() == e.last());
}

/// Moves the first item whose program path is `exe` behind all others
/// (marking it as moved to the end) and puts the list back into grid order.
/// Returns whether such an item was found; otherwise the list is unchanged.
pub fn move_to_end(apps: &mut Vec<AppItem>, exe: &str) -> (saved: bool)
    ensures
        saved == find_exe(views(old(apps)@), exe@) is Some,
        match find_exe(views(old(apps)@), exe@) {
            Some(i) => views(final(apps)@) == arranged(
                views(old(apps)@).remove(i).push(pinned_back(views(old(apps)@)[i])),
            ),
            None => final(apps)@ == old(apps)@,
        },
        saved ==> final(apps)@.len() > 0 && final(apps)@.last()@ == pinned_back(
            views(old(apps)@)[find_exe(views(old(apps)@), exe@)->0],
        ),
{
    match position_of(apps, exe) {
        Some(i) => {
            let ghost s = views(apps@);
            let mut a = apps.remove(i);
            a.pinned = false;
            a.pinned_end = true;
            apps.push(a);
            assert(views(apps@) =~= s.remove(i as int).push(pinned_back(s[i as int])));
            proof {
                lemma_last_of_arranged(s.remove(i as int), pinned_back(s[i as int]));
            }
            sort_apps(apps);
            assert(views(apps@).last() == apps@.last()@);
            true
        },
        None => false,
    }
}

/// Removes every item whose program path is `exe` and puts the list back into
/// grid order.
pub fn remove_app(apps: &mut Vec<AppItem>, exe: &str)
    ensures
        views(final(apps)@) == arranged(views(old(apps)@).filter(other_exe(exe@))),
        forall|i: int| 0 <= i < final(apps)@.len() ==> (#[trigger] final(apps)@[i]).exe@ != exe@,
{
    let ghost s = views(apps@);
    let target = exe.to_owned();
    let mut kept: Vec<AppItem> = Vec::new();
    let mut i: usize = 0;
    assert(views(kept@) =~= s.take(0).filter(other_exe(exe@))) by {
        reveal(Seq::filter);
    }
    while i < apps.len()
        invariant
            i <= apps@.len(),
            s == views(apps@),
            target@ == exe@,
            views(kept@) == s.take(i as int).filter(other_exe(exe@)),
        decreases apps@.len() - i,
    {
        let ghost av = apps@[i as int]@;
        assert(s.take(i + 1) =~= s.take(i as int).push(av));
        proof {
            s.take(i as int).lemma_filter_push(av, other_exe(exe@));
        }
        if apps[i].exe != target {
            let ghost before = views(kept@);
            kept.push(apps[i].clone());
            assert(views(kept@) =~= before.push(av));
        }
        i = i + 1;
    }
    assert(s.take(i as int) =~= s);
    sort_apps(&mut kept);
    proof {
        let f = s.filter(other_exe(exe@));
        lemma_arranged_permutes(f);
        assert forall|i: int| 0 <= i < kept@.len() implies (#[trigger] kept@[i]).exe@ != exe@ by {
            let x = views(kept@)[i];
            assert(arranged(f).contains(x));
            assert(arranged(f).to_multiset().count(x) > 0);
            assert(f.contains(x));
        }
    }
    *apps = kept;
}

/// Gives the first item whose program path is `exe` the name `new_name` and
/// puts the list back into grid order. Returns whether such an item was found;
/// otherwise the list is unchanged.
pub fn rename_app(apps: &mut Vec<AppItem>, exe: &str, new_name: &str) -> (saved: bool)
    ensures
        saved == find_exe(views(old(apps)@), exe@) is Some,
        match find_exe(views(old(apps)@), exe@) {
            Some(i) => views(final(apps)@) == arranged(
                views(old(apps)@).update(i, AppView { name: new_name@, ..views(old(apps)@)[i] }),
            ),
            None => final(apps)@ == old(apps)@,
        },
{
    match position_of(apps, exe) {
        Some(i) => {
            let ghost s = views(apps@);
            let mut a = apps[i].clone();
            a.name = new_name.to_owned();
            apps.set(i, a);
            assert(views(apps@) =~= s.update(i as int, AppView { name: new_name@, ..s[i as int] }));
            sort_apps(apps);
            true
        },
        None => false,
    }
}

/// Adds `app` at the end of the list (the list handed back to the front end)
/// and returns the list to store: the same items in grid order.
pub fn add_app(apps: &mut Vec<AppItem>, app: AppItem) -> (stored: Vec<AppItem>)
    ensures
        views(final(apps)@) == views(old(apps)@).push(app@),
        views(stored@) == arranged(views(old(apps)@).push(app@)),
{
    let ghost s = views(apps@);
    let ghost a = app@;
    apps.push(app);
    assert(views(apps@) =~= s.push(a));
    let mut sorted: Vec<AppItem> = Vec::new();
    let mut i: usize = 0;
    while i < apps.len()
        invariant
            i <= apps@.len(),
            views(apps@) == s.push(a),
            views(sorted@) == views(apps@).take(i as int),
        decreases apps@.len() - i,
    {
        let ghost before = views(sorted@);
        sorted.push(apps[i].clone());
        assert(views(sorted@) =~= before.push(apps@[i as int]@));
        assert(views(apps@).take(i + 1) =~= views(apps@).take(i as int).push(apps@[i as int]@));
        i = i + 1;
    }
    assert(views(apps@).take(i as int) =~= views(apps@));
    sort_apps(&mut sorted);
    sorted
}

// ---------------------------------------------------------------------------
// Laws on names and launch counts.
// ---------------------------------------------------------------------------

proof fn lemma_encode_utf8_concat(x: Seq<char>, y: Seq<char>)
    ensures
        encode_utf8(x + y) == encode_utf8(x) + encode_utf8(y),
    decreases x.len(),
{
    if x.len() == 0 {
        assert(x + y =~= y);
        assert(encode_utf8(x) + encode_utf8(y) =~= encode_utf8(y));
    } else {
        assert((x + y).drop_first() =~= x.drop_first() + y);
        assert((x + y)[0] == x[0]);
        lemma_encode_utf8_concat(x.drop_first(), y);
        assert(encode_utf8(x + y) =~= encode_utf8(x) + encode_utf8(y));
    }
}

proof fn lemma_encode_utf8_nonempty(y: Seq<char>)
    requires
        y.len() > 0,
    ensures
        encode_utf8(y).len() > 0,
{
}

/// Among items with as many launches, a name that is a proper prefix of the
/// other's sorts first ("Kodi" is shown before "Kodi Portable"), as `str`
/// order has it.
pub proof fn lemma_prefix_name_ranks_first(a: AppView, b: AppView, c: Seq<char>)
    requires
        a.launch_count == b.launch_count,
        c.len() > 0,
        b.name == a.name + c,
    ensures
        ranks_before(a, b),
        !ranks_before(b, a),
{
    lemma_encode_utf8_concat(a.name, c);
    lemma_encode_utf8_nonempty(c);
    lemma_bytes_lt_prefix_first(encode_utf8(a.name), encode_utf8(c));
}

/// Counting a launch changes only the launch count: the item keeps its name,
/// program, icon and pinning, and so stays in its group.
pub proof fn lemma_counting_changes_only_the_count(a: AppView)
    requires
        a.launch_count < u32::MAX,
    ensures
        counted(a).launch_count == a.launch_count + 1,
        counted(a).name == a.name,
        counted(a).exe == a.exe,
        counted(a).icon == a.icon,
        counted(a).pinned == a.pinned,
        counted(a).pinned_end == a.pinned_end,
        group_index(counted(a)) == group_index(a),
{
}

/// The first item of the front group is shown first.
proof fn lemma_first_front_shown_first(t: Seq<AppView>, i: int)
    requires
        0 <= i < t.len(),
        t[i].pinned && !t[i].pinned_end,
        forall|j: int| 0 <= j < i ==> !(#[trigger] t[j].pinned && !t[j].pinned_end),
    ensures
        arranged(t).len() > 0,
        arranged(t)[0] == t[i],
{
    let head = t.take(i);
    let tail = t.skip(i + 1);
    assert(t =~= head + (seq![t[i]] + tail));
    Seq::filter_distributes_over_add(head, seq![t[i]] + tail, front_group());
    lemma_filter_none(head, front_group());
    tail.lemma_filter_prepend(t[i], front_group());
    let f = t.filter(front_group());
    assert(f == seq![t[i]] + tail.filter(front_group()));
    assert(f[0] == t[i]);
    let rest = rank_sort(t.filter(middle_group())) + t.filter(end_group());
    assert(arranged(t) =~= f + rest);
}

/// An item shown first because it was moved to the front is still shown first
/// after a launch of it is counted.
pub proof fn lemma_counted_front_item_stays_first(s: Seq<AppView>, i: int)
    requires
        0 <= i < s.len(),
        s[i].pinned && !s[i].pinned_end,
        s[i].launch_count < u32::MAX,
        forall|j: int| 0 <= j < i ==> !(#[trigger] s[j].pinned && !s[j].pinned_end),
    ensures
        arranged(s)[0] == s[i],
        arranged(s.update(i, counted(s[i])))[0] == counted(s[i]),
        arranged(s.update(i, counted(s[i])))[0].launch_count == s[i].launch_count + 1,
        arranged(s.update(i, counted(s[i])))[0].exe == s[i].exe,
{
    lemma_first_front_shown_first(s, i);
    let t = s.update(i, counted(s[i]));
    assert forall|j: int| 0 <= j < i implies !(#[trigger] t[j].pinned && !t[j].pinned_end) by {
        assert(t[j] == s[j]);
    }
    lemma_first_front_shown_first(t, i);
}

} // verus!
