//! The orders of the process list and a stable sort by them.

use vstd::prelude::*;

use crate::models::float_bits::{order_key, total_order_key};
use crate::models::process::{ProcessInfo, SortBy};

verus! {

broadcast use vstd::seq_lib::group_seq_properties;

/// Strict lexicographic order on byte strings, a proper prefix first.
pub open spec fn lex_lt(a: Seq<u8>, b: Seq<u8>) -> bool
    decreases a.len(),
{
    if a.len() == 0 {
        b.len() > 0
    } else if b.len() == 0 {
        false
    } else if a[0] != b[0] {
        a[0] < b[0]
    } else {
        lex_lt(a.drop_first(), b.drop_first())
    }
}

pub proof fn lemma_lex_irreflexive(a: Seq<u8>)
    ensures
        !lex_lt(a, a),
    decreases a.len(),
{
    if a.len() > 0 {
        lemma_lex_irreflexive(a.drop_first());
    }
}

pub proof fn lemma_lex_asymmetric(a: Seq<u8>, b: Seq<u8>)
    ensures
        lex_lt(a, b) ==> !lex_lt(b, a),
    decreases a.len(),
{
    if a.len() > 0 && b.len() > 0 && a[0] == b[0] {
        lemma_lex_asymmetric(a.drop_first(), b.drop_first());
    }
}

pub proof fn lemma_lex_total(a: Seq<u8>, b: Seq<u8>)
    ensures
        lex_lt(a, b) || lex_lt(b, a) || a == b,
    decreases a.len(),
{
    if a.len() == 0 && b.len() == 0 {
        assert(a =~= b);
    } else if a.len() > 0 && b.len() > 0 && a[0] == b[0] {
        lemma_lex_total(a.drop_first(), b.drop_first());
        if a.drop_first() == b.drop_first() {
            assert(a.drop_first().len() == b.drop_first().len());
            assert(a.len() == b.len());
            assert forall|i: int| 0 <= i < a.len() implies a[i] == b[i] by {
                if i > 0 {
                    assert(a[i] == a.drop_first()[i - 1]);
                    assert(b[i] == b.drop_first()[i - 1]);
                }
            }
            assert(a =~= b);
        }
    }
}

pub proof fn lemma_lex_transitive(a: Seq<u8>, b: Seq<u8>, c: Seq<u8>)
    requires
        lex_lt(a, b),
        lex_lt(b, c),
    ensures
        lex_lt(a, c),
    decreases a.len(),
{
    if a.len() > 0 && b.len() > 0 && c.len() > 0 && a[0] == b[0] && b[0] == c[0] {
        lemma_lex_transitive(a.drop_first(), b.drop_first(), c.drop_first());
    }
}

/// The bytes by which names compare: their UTF-8 encoding.
pub open spec fn name_bytes(p: ProcessInfo) -> Seq<u8> {
    vstd::utf8::encode_utf8(p.name@)
}

/// Whether `a` goes strictly before `b` when the list is ordered by `by`: by CPU
/// usage, highest first (in the total order of doubles); by resident memory, highest
/// first; by PID, lowest first; by name, in byte order.
pub open spec fn precedes(a: ProcessInfo, b: ProcessInfo, by: SortBy) -> bool {
    match by {
        SortBy::Cpu => order_key(a.cpu) > order_key(b.cpu),
        SortBy::Memory => a.memory > b.memory,
        SortBy::Pid => a.pid < b.pid,
        SortBy::Name => lex_lt(name_bytes(a), name_bytes(b)),
    }
}

/// Whether `a` and `b` tie when the list is ordered by `by`.
pub open spec fn same_rank(a: ProcessInfo, b: ProcessInfo, by: SortBy) -> bool {
    match by {
        SortBy::Cpu => a.cpu == b.cpu,
        SortBy::Memory => a.memory == b.memory,
        SortBy::Pid => a.pid == b.pid,
        SortBy::Name => name_bytes(a) == name_bytes(b),
    }
}

/// No later process goes strictly before an earlier one.
pub open spec fn is_sorted(s: Seq<ProcessInfo>, by: SortBy) -> bool {
    forall|i: int, j: int| 0 <= i < j < s.len() ==> !precedes(#[trigger] s[j], #[trigger] s[i], by)
}

/// The processes of `s` that tie with `x`, in their order in `s`.
pub open spec fn rank_class(s: Seq<ProcessInfo>, x: ProcessInfo, by: SortBy) -> Seq<ProcessInfo> {
    s.filter(|y: ProcessInfo| same_rank(y, x, by))
}

/// `after` is the stable sort of `before` by `by`: it is ordered, and the processes
/// that tie keep their order (so `after` holds exactly the processes of `before`).
pub open spec fn stable_sort_of(before: Seq<ProcessInfo>, after: Seq<ProcessInfo>, by: SortBy) -> bool {
    &&& after.len() == before.len()
    &&& is_sorted(after, by)
    &&& forall|x: ProcessInfo| #[trigger] rank_class(after, x, by) == rank_class(before, x, by)
}

/// `precedes` is a strict weak order whose ties are `same_rank`.
pub proof fn lemma_order_laws(a: ProcessInfo, b: ProcessInfo, c: ProcessInfo, by: SortBy)
    ensures
        precedes(a, b, by) ==> !precedes(b, a, by) && !same_rank(a, b, by),
        precedes(a, b, by) || precedes(b, a, by) || same_rank(a, b, by),
        precedes(a, b, by) && precedes(b, c, by) ==> precedes(a, c, by),
        !precedes(b, a, by) && !precedes(c, b, by) ==> !precedes(c, a, by),
        same_rank(a, a, by),
        same_rank(a, b, by) ==> same_rank(b, a, by),
        same_rank(a, b, by) && same_rank(b, c, by) ==> same_rank(a, c, by),
{
    match by {
        SortBy::Name => {
            let (x, y, z) = (name_bytes(a), name_bytes(b), name_bytes(c));
            lemma_lex_irreflexive(x);
            lemma_lex_asymmetric(x, y);
            lemma_lex_total(x, y);
            lemma_lex_total(y, z);
            lemma_lex_total(x, z);
            if lex_lt(x, y) && lex_lt(y, z) {
                lemma_lex_transitive(x, y, z);
            }
            if lex_lt(z, y) && lex_lt(y, x) {
                lemma_lex_transitive(z, y, x);
            }
            if lex_lt(z, x) && lex_lt(x, y) {
                lemma_lex_transitive(z, x, y);
            }
        },
        SortBy::Cpu => {
            crate::models::float_bits::lemma_order_key_injective(a.cpu, b.cpu);
            crate::models::float_bits::lemma_order_key_injective(b.cpu, c.cpu);
        },
        _ => {},
    }
}

/// Byte-order comparison of two strings, as `String::cmp` orders them.
pub fn name_less(a: &String, b: &String) -> (r: bool)
    ensures
        r == lex_lt(vstd::utf8::encode_utf8(a@), vstd::utf8::encode_utf8(b@)),
{
    let x = a.as_str().as_bytes();
    let y = b.as_str().as_bytes();
    let mut i: usize = 0;
    while i < x.len() && i < y.len() && x[i] == y[i]
        invariant
            x@ == vstd::utf8::encode_utf8(a@),
            y@ == vstd::utf8::encode_utf8(b@),
            i <= x@.len(),
            i <= y@.len(),
            lex_lt(x@, y@) == lex_lt(x@.skip(i as int), y@.skip(i as int)),
        decreases x.len() - i,
    {
        proof {
            assert(x@.skip(i as int).drop_first() =~= x@.skip(i as int + 1));
            assert(y@.skip(i as int).drop_first() =~= y@.skip(i as int + 1));
        }
        i = i + 1;
    }
    if i == x.len() {
        i < y.len()
    } else if i == y.len() {
        false
    } else {
        x[i] < y[i]
    }
}

/// Whether `a` goes strictly before `b` when ordered by `by`.
pub fn goes_before(a: &ProcessInfo, b: &ProcessInfo, by: SortBy) -> (r: bool)
    ensures
        r == precedes(*a, *b, by),
{
    match by {
        SortBy::Cpu => total_order_key(a.cpu) > total_order_key(b.cpu),
        SortBy::Memory => a.memory > b.memory,
        SortBy::Pid => a.pid < b.pid,
        SortBy::Name => name_less(&a.name, &b.name),
    }
}

/// Filtering a single process keeps it exactly when it passes.
proof fn lemma_filter_single(x: ProcessInfo, p: spec_fn(ProcessInfo) -> bool)
    ensures
        seq![x].filter(p) == if p(x) {
            seq![x]
        } else {
            Seq::<ProcessInfo>::empty()
        },
{
    reveal(Seq::filter);
    assert(Seq::<ProcessInfo>::empty().push(x) =~= seq![x]);
    Seq::<ProcessInfo>::empty().lemma_filter_push(x, p);
    assert(Seq::<ProcessInfo>::empty().filter(p) =~= Seq::<ProcessInfo>::empty());
}

/// Filtering a sequence none of whose items pass leaves nothing.
proof fn lemma_filter_none(s: Seq<ProcessInfo>, p: spec_fn(ProcessInfo) -> bool)
    requires
        forall|i: int| 0 <= i < s.len() ==> !p(#[trigger] s[i]),
    ensures
        s.filter(p) == Seq::<ProcessInfo>::empty(),
    decreases s.len(),
{
    reveal(Seq::filter);
    if s.len() > 0 {
        assert forall|i: int| 0 <= i < s.drop_last().len() implies !p(#[trigger] s.drop_last()[i]) by {
            assert(s.drop_last()[i] == s[i]);
        }
        lemma_filter_none(s.drop_last(), p);
        assert(!p(s[s.len() - 1]));
    } else {
        assert(s =~= Seq::<ProcessInfo>::empty());
    }
}

/// Filtering by a predicate that `x` passes keeps every copy of `x`.
proof fn lemma_filter_keeps_count(s: Seq<ProcessInfo>, p: spec_fn(ProcessInfo) -> bool, x: ProcessInfo)
    requires
        p(x),
    ensures
        s.filter(p).to_multiset().count(x) == s.to_multiset().count(x),
    decreases s.len(),
{
    broadcast use vstd::multiset::group_multiset_axioms;

    if s.len() > 0 {
        let r = s.drop_last();
        lemma_filter_keeps_count(r, p, x);
        assert(r.push(s.last()) =~= s);
        r.lemma_filter_push(s.last(), p);
        r.to_multiset_ensures();
        r.filter(p).to_multiset_ensures();
    } else {
        reveal(Seq::filter);
    }
}

/// A stable sort holds exactly the processes it was given, each as many times.
pub proof fn lemma_stable_sort_permutes(before: Seq<ProcessInfo>, after: Seq<ProcessInfo>, by: SortBy)
    requires
        stable_sort_of(before, after, by),
    ensures
        after.to_multiset() == before.to_multiset(),
{
    broadcast use vstd::multiset::group_multiset_axioms;

    assert forall|x: ProcessInfo| after.to_multiset().count(x) == before.to_multiset().count(x) by {
        lemma_order_laws(x, x, x, by);
        assert(rank_class(after, x, by) == rank_class(before, x, by));
        lemma_filter_keeps_count(after, |y: ProcessInfo| same_rank(y, x, by), x);
        lemma_filter_keeps_count(before, |y: ProcessInfo| same_rank(y, x, by), x);
    }
    assert(after.to_multiset() =~= before.to_multiset());
}

/// The processes of `m` that tie with `y`: its first one if it does, then those of
/// the rest.
proof fn lemma_class_split(m: Seq<ProcessInfo>, y: ProcessInfo, by: SortBy)
    requires
        m.len() > 0,
    ensures
        rank_class(m, y, by) == (if same_rank(m[0], y, by) {
            seq![m[0]]
        } else {
            Seq::<ProcessInfo>::empty()
        }) + rank_class(m.drop_first(), y, by),
{
    let p = |z: ProcessInfo| same_rank(z, y, by);
    assert(m =~= seq![m[0]] + m.drop_first());
    Seq::filter_distributes_over_add(seq![m[0]], m.drop_first(), p);
    lemma_filter_single(m[0], p);
    if !same_rank(m[0], y, by) {
        assert(Seq::<ProcessInfo>::empty() + m.drop_first().filter(p) =~= m.drop_first().filter(p));
    }
}

/// Two ordered lists whose tying processes come in the same order are the same list.
proof fn lemma_same_classes_equal(m1: Seq<ProcessInfo>, m2: Seq<ProcessInfo>, by: SortBy)
    requires
        m1.len() == m2.len(),
        is_sorted(m1, by),
        is_sorted(m2, by),
        forall|x: ProcessInfo| #[trigger] rank_class(m1, x, by) == rank_class(m2, x, by),
    ensures
        m1 == m2,
    decreases m1.len(),
{
    if m1.len() == 0 {
        assert(m1 =~= m2);
        return;
    }
    let (a, b) = (m1[0], m2[0]);
    let (r1, r2) = (m1.drop_first(), m2.drop_first());
    lemma_order_laws(a, b, a, by);
    lemma_order_laws(b, a, b, by);
    lemma_class_split(m1, a, by);
    lemma_class_split(m2, a, by);
    lemma_class_split(m1, b, by);
    lemma_class_split(m2, b, by);
    assert(rank_class(m1, a, by) == rank_class(m2, a, by));
    assert(rank_class(m1, b, by) == rank_class(m2, b, by));
    if !same_rank(b, a, by) {
        assert(rank_class(r2, a, by)[0] == a);
        assert(rank_class(r2, a, by).contains(a));
        r2.lemma_filter_contains_rev(|z: ProcessInfo| same_rank(z, a, by), a);
        let j = choose|j: int| 0 <= j < r2.len() && r2[j] == a;
        assert(m2[j + 1] == a);
        assert(!precedes(m2[j + 1], m2[0], by));
        assert(rank_class(r1, b, by)[0] == b);
        assert(rank_class(r1, b, by).contains(b));
        r1.lemma_filter_contains_rev(|z: ProcessInfo| same_rank(z, b, by), b);
        let k = choose|k: int| 0 <= k < r1.len() && r1[k] == b;
        assert(m1[k + 1] == b);
        assert(!precedes(m1[k + 1], m1[0], by));
    }
    assert(rank_class(m1, a, by)[0] == a);
    assert(rank_class(m2, a, by)[0] == b);
    assert forall|y: ProcessInfo| #[trigger] rank_class(r1, y, by) == rank_class(r2, y, by) by {
        lemma_class_split(m1, y, by);
        lemma_class_split(m2, y, by);
        assert(rank_class(m1, y, by) == rank_class(m2, y, by));
        let pre = if same_rank(a, y, by) {
            seq![a]
        } else {
            Seq::<ProcessInfo>::empty()
        };
        assert(rank_class(r1, y, by) =~= (pre + rank_class(r1, y, by)).skip(pre.len() as int));
        assert(rank_class(r2, y, by) =~= (pre + rank_class(r2, y, by)).skip(pre.len() as int));
    }
    assert forall|i: int, j: int| 0 <= i < j < r1.len() implies !precedes(
        #[trigger] r1[j],
        #[trigger] r1[i],
        by,
    ) by {
        assert(r1[j] == m1[j + 1] && r1[i] == m1[i + 1]);
    }
    assert forall|i: int, j: int| 0 <= i < j < r2.len() implies !precedes(
        #[trigger] r2[j],
        #[trigger] r2[i],
        by,
    ) by {
        assert(r2[j] == m2[j + 1] && r2[i] == m2[i + 1]);
    }
    lemma_same_classes_equal(r1, r2, by);
    assert forall|i: int| 0 <= i < m1.len() implies m1[i] == m2[i] by {
        if i > 0 {
            assert(m1[i] == r1[i - 1] && m2[i] == r2[i - 1]);
        }
    }
    assert(m1 =~= m2);
}

/// A stable sort is determined by what it is given: two stable sorts of one list by
/// one order are the same list.
pub proof fn lemma_stable_sort_unique(
    before: Seq<ProcessInfo>,
    m1: Seq<ProcessInfo>,
    m2: Seq<ProcessInfo>,
    by: SortBy,
)
    requires
        stable_sort_of(before, m1, by),
        stable_sort_of(before, m2, by),
    ensures
        m1 == m2,
{
    assert forall|x: ProcessInfo| #[trigger] rank_class(m1, x, by) == rank_class(m2, x, by) by {
        assert(rank_class(m1, x, by) == rank_class(before, x, by));
        assert(rank_class(m2, x, by) == rank_class(before, x, by));
    }
    lemma_same_classes_equal(m1, m2, by);
}

/// Sorting a list that is already in order leaves it as it is.
pub proof fn lemma_sorting_sorted_is_identity(list: Seq<ProcessInfo>, after: Seq<ProcessInfo>, by: SortBy)
    requires
        is_sorted(list, by),
        stable_sort_of(list, after, by),
    ensures
        after == list,
{
    assert(stable_sort_of(list, list, by));
    lemma_stable_sort_unique(list, after, list, by);
}

/// The state of a merge of the ordered lists `a` and `b` after taking their first
/// `i` and `j` processes into `out`.
pub open spec fn merge_state(
    a: Seq<ProcessInfo>,
    b: Seq<ProcessInfo>,
    out: Seq<ProcessInfo>,
    i: int,
    j: int,
    by: SortBy,
) -> bool {
    &&& is_sorted(a, by)
    &&& is_sorted(b, by)
    &&& 0 <= i <= a.len()
    &&& 0 <= j <= b.len()
    &&& out.len() == i + j
    &&& is_sorted(out, by)
    // Nothing taken goes after a process still to take.
    &&& forall|k: int, m: int|
        0 <= k < out.len() && i <= m < a.len() ==> !precedes(#[trigger] a[m], #[trigger] out[k], by)
    &&& forall|k: int, m: int|
        0 <= k < out.len() && j <= m < b.len() ==> !precedes(#[trigger] b[m], #[trigger] out[k], by)
    // No process taken from `b` ties with one still to take from `a`.
    &&& forall|k: int, m: int|
        0 <= k < j && i <= m < a.len() ==> !same_rank(#[trigger] a[m], #[trigger] b[k], by)
    &&& forall|y: ProcessInfo| #[trigger] rank_class(out, y, by) == rank_class(a.take(i), y, by)
        + rank_class(b.take(j), y, by)
}

/// Taking the next process of `a` (when `take_a`) or of `b` keeps the merge state.
proof fn lemma_merge_step(
    a: Seq<ProcessInfo>,
    b: Seq<ProcessInfo>,
    out: Seq<ProcessInfo>,
    i: int,
    j: int,
    by: SortBy,
    take_a: bool,
)
    requires
        merge_state(a, b, out, i, j, by),
        take_a ==> i < a.len() && (j < b.len() ==> !precedes(b[j], a[i], by)),
        !take_a ==> j < b.len() && (i < a.len() ==> precedes(b[j], a[i], by)),
    ensures
        take_a ==> merge_state(a, b, out.push(a[i]), i + 1, j, by),
        !take_a ==> merge_state(a, b, out.push(b[j]), i, j + 1, by),
{
    broadcast use Seq::lemma_filter_push;

    if take_a {
        let x = a[i];
        let o = out.push(x);
        assert forall|k1: int, k2: int| 0 <= k1 < k2 < o.len() implies !precedes(
            #[trigger] o[k2],
            #[trigger] o[k1],
            by,
        ) by {
            if k2 == out.len() {
                assert(!precedes(a[i], out[k1], by));
            } else {
                assert(o[k1] == out[k1] && o[k2] == out[k2]);
            }
        }
        assert forall|k: int, m: int| 0 <= k < o.len() && i + 1 <= m < a.len() implies !precedes(
            #[trigger] a[m],
            #[trigger] o[k],
            by,
        ) by {
            if k == out.len() {
                assert(!precedes(a[m], a[i], by));
            } else {
                assert(o[k] == out[k]);
            }
        }
        assert forall|k: int, m: int| 0 <= k < o.len() && j <= m < b.len() implies !precedes(
            #[trigger] b[m],
            #[trigger] o[k],
            by,
        ) by {
            if k == out.len() {
                if m > j {
                    assert(!precedes(b[m], b[j], by));
                }
                lemma_order_laws(x, b[j], b[m], by);
            } else {
                assert(o[k] == out[k]);
            }
        }
        assert(a.take(i + 1) =~= a.take(i).push(x));
        assert forall|y: ProcessInfo| #[trigger] rank_class(o, y, by) == rank_class(a.take(i + 1), y, by)
            + rank_class(b.take(j), y, by) by {
            let p = |z: ProcessInfo| same_rank(z, y, by);
            assert(rank_class(out, y, by) == rank_class(a.take(i), y, by) + rank_class(b.take(j), y, by));
            if same_rank(x, y, by) {
                assert forall|k: int| 0 <= k < b.take(j).len() implies !p(#[trigger] b.take(j)[k]) by {
                    assert(b.take(j)[k] == b[k]);
                    assert(!same_rank(a[i], b[k], by));
                    lemma_order_laws(b[k], y, x, by);
                    lemma_order_laws(x, y, b[k], by);
                }
                lemma_filter_none(b.take(j), p);
                assert(rank_class(o, y, by) =~= rank_class(a.take(i + 1), y, by) + rank_class(b.take(j), y, by));
            } else {
                assert(rank_class(o, y, by) =~= rank_class(a.take(i + 1), y, by) + rank_class(b.take(j), y, by));
            }
        }
        assert(merge_state(a, b, o, i + 1, j, by));
    } else {
        let x = b[j];
        let o = out.push(x);
        assert forall|k1: int, k2: int| 0 <= k1 < k2 < o.len() implies !precedes(
            #[trigger] o[k2],
            #[trigger] o[k1],
            by,
        ) by {
            if k2 == out.len() {
                assert(!precedes(b[j], out[k1], by));
            } else {
                assert(o[k1] == out[k1] && o[k2] == out[k2]);
            }
        }
        assert forall|k: int, m: int| 0 <= k < o.len() && i <= m < a.len() implies !precedes(
            #[trigger] a[m],
            #[trigger] o[k],
            by,
        ) by {
            if k == out.len() {
                if m > i {
                    assert(!precedes(a[m], a[i], by));
                }
                lemma_order_laws(x, a[i], a[m], by);
            } else {
                assert(o[k] == out[k]);
            }
        }
        assert forall|k: int, m: int| 0 <= k < o.len() && j + 1 <= m < b.len() implies !precedes(
            #[trigger] b[m],
            #[trigger] o[k],
            by,
        ) by {
            if k == out.len() {
                assert(!precedes(b[m], b[j], by));
            } else {
                assert(o[k] == out[k]);
            }
        }
        assert forall|k: int, m: int| 0 <= k < j + 1 && i <= m < a.len() implies !same_rank(
            #[trigger] a[m],
            #[trigger] b[k],
            by,
        ) by {
            if k == j {
                if m > i {
                    assert(!precedes(a[m], a[i], by));
                }
                lemma_order_laws(a[m], a[i], x, by);
                lemma_order_laws(a[i], a[m], x, by);
                lemma_order_laws(x, a[i], a[m], by);
                lemma_order_laws(a[m], x, a[i], by);
            }
        }
        assert(b.take(j + 1) =~= b.take(j).push(x));
        assert forall|y: ProcessInfo| #[trigger] rank_class(o, y, by) == rank_class(a.take(i), y, by)
            + rank_class(b.take(j + 1), y, by) by {
            assert(rank_class(out, y, by) == rank_class(a.take(i), y, by) + rank_class(b.take(j), y, by));
            assert(rank_class(o, y, by) =~= rank_class(a.take(i), y, by) + rank_class(b.take(j + 1), y, by));
        }
        assert(merge_state(a, b, o, i, j + 1, by));
    }
}

/// The processes of `v` in the opposite order.
fn reversed(v: Vec<ProcessInfo>) -> (r: Vec<ProcessInfo>)
    ensures
        r@.len() == v@.len(),
        forall|k: int| 0 <= k < r@.len() ==> #[trigger] r@[k] == v@[v@.len() - 1 - k],
{
    let ghost given = v@;
    let mut rest = v;
    let mut r: Vec<ProcessInfo> = Vec::new();
    while rest.len() > 0
        invariant
            rest@ == given.take(rest@.len() as int),
            rest@.len() + r@.len() == given.len(),
            forall|k: int| 0 <= k < r@.len() ==> #[trigger] r@[k] == given[given.len() - 1 - k],
        decreases rest.len(),
    {
        let x = rest.pop().unwrap();
        r.push(x);
    }
    r
}

/// The ordered lists `a` and `b` merged into one ordered list; among tying processes,
/// those of `a` come first, each list's in its order.
fn merge(a: Vec<ProcessInfo>, b: Vec<ProcessInfo>, by: SortBy) -> (out: Vec<ProcessInfo>)
    requires
        is_sorted(a@, by),
        is_sorted(b@, by),
    ensures
        out@.len() == a@.len() + b@.len(),
        is_sorted(out@, by),
        forall|y: ProcessInfo| #[trigger] rank_class(out@, y, by) == rank_class(a@, y, by)
            + rank_class(b@, y, by),
{
    let ghost (sa, sb) = (a@, b@);
    let mut ra = reversed(a);
    let mut rb = reversed(b);
    let mut out: Vec<ProcessInfo> = Vec::new();
    proof {
        assert forall|y: ProcessInfo| #[trigger] rank_class(out@, y, by) == rank_class(sa.take(0), y, by)
            + rank_class(sb.take(0), y, by) by {
            reveal(Seq::filter);
            assert(sa.take(0) =~= Seq::<ProcessInfo>::empty());
            assert(sb.take(0) =~= Seq::<ProcessInfo>::empty());
            assert(out@ =~= Seq::<ProcessInfo>::empty());
            assert(Seq::<ProcessInfo>::empty() + Seq::<ProcessInfo>::empty() =~= Seq::<ProcessInfo>::empty());
        }
    }
    while ra.len() > 0 || rb.len() > 0
        invariant
            ra@.len() <= sa.len(),
            rb@.len() <= sb.len(),
            forall|k: int| 0 <= k < ra@.len() ==> #[trigger] ra@[k] == sa[sa.len() - 1 - k],
            forall|k: int| 0 <= k < rb@.len() ==> #[trigger] rb@[k] == sb[sb.len() - 1 - k],
            merge_state(sa, sb, out@, sa.len() - ra@.len(), sb.len() - rb@.len(), by),
        decreases ra.len() + rb.len(),
    {
        let ghost (i, j) = (sa.len() - ra@.len(), sb.len() - rb@.len());
        let take_a = if ra.len() == 0 {
            false
        } else if rb.len() == 0 {
            true
        } else {
            !goes_before(&rb[rb.len() - 1], &ra[ra.len() - 1], by)
        };
        proof {
            if ra@.len() > 0 {
                assert(ra@[ra@.len() - 1] == sa[i]);
            }
            if rb@.len() > 0 {
                assert(rb@[rb@.len() - 1] == sb[j]);
            }
            lemma_merge_step(sa, sb, out@, i, j, by, take_a);
        }
        if take_a {
            let x = ra.pop().unwrap();
            out.push(x);
        } else {
            let x = rb.pop().unwrap();
            out.push(x);
        }
    }
    proof {
        assert(sa.take(sa.len() as int) =~= sa);
        assert(sb.take(sb.len() as int) =~= sb);
    }
    out
}

/// A stable merge sort of `list` by `by`.
fn merge_sort(list: Vec<ProcessInfo>, by: SortBy) -> (r: Vec<ProcessInfo>)
    ensures
        stable_sort_of(list@, r@, by),
    decreases list@.len(),
{
    if list.len() <= 1 {
        return list;
    }
    let mid = list.len() / 2;
    let mut left = list;
    let ghost whole = left@;
    let right = left.split_off(mid);
    let sl = merge_sort(left, by);
    let sr = merge_sort(right, by);
    let ghost (l, rr) = (whole.subrange(0, mid as int), whole.subrange(mid as int, whole.len() as int));
    let out = merge(sl, sr, by);
    proof {
        assert(whole =~= l + rr);
        assert forall|y: ProcessInfo| #[trigger] rank_class(out@, y, by) == rank_class(whole, y, by) by {
            Seq::filter_distributes_over_add(l, rr, |z: ProcessInfo| same_rank(z, y, by));
        }
    }
    out
}

/// The processes of `list` in the order `by`; ties keep their order.
pub fn sorted(list: Vec<ProcessInfo>, by: SortBy) -> (r: Vec<ProcessInfo>)
    ensures
        stable_sort_of(list@, r@, by),
{
    merge_sort(list, by)
}

/// Byte order spelled out: `a` goes before `b` exactly when, after a common prefix,
/// `a` has the smaller byte, or `a` is a proper prefix of `b`.
pub proof fn lemma_lex_lt_is_byte_order(a: Seq<u8>, b: Seq<u8>)
    ensures
        lex_lt(a, b) <==> (exists|k: int|
            0 <= k < a.len() && k < b.len() && a[k] < b[k] && #[trigger] a.take(k) == b.take(k))
            || (a.len() < b.len() && b.take(a.len() as int) == a),
    decreases a.len(),
{
    if a.len() == 0 {
        assert(b.take(0) =~= a);
    } else if b.len() == 0 {
    } else if a[0] != b[0] {
        if a[0] < b[0] {
            assert(a.take(0) =~= b.take(0));
        }
        assert forall|k: int|
            0 <= k < a.len() && k < b.len() && a[k] < b[k] && #[trigger] a.take(k) == b.take(
                k,
            ) implies k == 0 by {
            if k > 0 {
                assert(a.take(k)[0] == b.take(k)[0]);
            }
        }
        if a.len() < b.len() && b.take(a.len() as int) == a {
            assert(b.take(a.len() as int)[0] == a[0]);
        }
    } else {
        let (a1, b1) = (a.drop_first(), b.drop_first());
        lemma_lex_lt_is_byte_order(a1, b1);
        if exists|k: int|
            0 <= k < a1.len() && k < b1.len() && a1[k] < b1[k] && #[trigger] a1.take(k) == b1.take(
                k,
            ) {
            let k = choose|k: int|
                0 <= k < a1.len() && k < b1.len() && a1[k] < b1[k] && #[trigger] a1.take(k)
                    == b1.take(k);
            assert(a.take(k + 1) =~= seq![a[0]] + a1.take(k));
            assert(b.take(k + 1) =~= seq![b[0]] + b1.take(k));
            assert(a.take(k + 1) == b.take(k + 1));
        }
        if exists|k: int|
            0 <= k < a.len() && k < b.len() && a[k] < b[k] && #[trigger] a.take(k) == b.take(k) {
            let k = choose|k: int|
                0 <= k < a.len() && k < b.len() && a[k] < b[k] && #[trigger] a.take(k) == b.take(
                    k,
                );
            assert(k > 0);
            assert(a1.take(k - 1) =~= a.take(k).drop_first());
            assert(b1.take(k - 1) =~= b.take(k).drop_first());
            assert(a1[k - 1] == a[k] && b1[k - 1] == b[k]);
            assert(a1.take(k - 1) == b1.take(k - 1));
        }
        if a1.len() < b1.len() && b1.take(a1.len() as int) == a1 {
            assert(b.take(a.len() as int) =~= a);
        }
        if a.len() < b.len() && b.take(a.len() as int) == a {
            assert(b1.take(a1.len() as int) =~= a1);
        }
    }
}

/// An ordered list, read off its fields: by CPU, positions in the total order of
/// doubles never rise; by memory, resident sizes never rise; by PID, PIDs never fall;
/// by name, no name is before an earlier one in the byte order of its whole UTF-8
/// encoding.
pub proof fn lemma_sorted_fields(s: Seq<ProcessInfo>, by: SortBy)
    requires
        is_sorted(s, by),
    ensures
        by == SortBy::Cpu ==> forall|i: int, j: int|
            0 <= i < j < s.len() ==> order_key(#[trigger] s[i].cpu) >= order_key(#[trigger] s[j].cpu),
        by == SortBy::Memory ==> forall|i: int, j: int|
            0 <= i < j < s.len() ==> #[trigger] s[i].memory >= #[trigger] s[j].memory,
        by == SortBy::Pid ==> forall|i: int, j: int|
            0 <= i < j < s.len() ==> #[trigger] s[i].pid <= #[trigger] s[j].pid,
        by == SortBy::Name ==> forall|i: int, j: int|
            0 <= i < j < s.len() ==> !lex_lt(
                vstd::utf8::encode_utf8(#[trigger] s[j].name@),
                vstd::utf8::encode_utf8(#[trigger] s[i].name@),
            ),
{
    assert forall|i: int, j: int| 0 <= i < j < s.len() implies !precedes(s[j], s[i], by) by {
        assert(!precedes(s[j], s[i], by));
    }
}

/// The processes that tie with `x`, read off their fields: the same CPU figure (bit
/// for bit), the same resident size, the same PID, or the same name.
pub proof fn lemma_ties_are_equal_fields(s: Seq<ProcessInfo>, x: ProcessInfo, by: SortBy)
    ensures
        by == SortBy::Cpu ==> rank_class(s, x, by) == s.filter(|y: ProcessInfo| y.cpu == x.cpu),
        by == SortBy::Memory ==> rank_class(s, x, by) == s.filter(
            |y: ProcessInfo| y.memory == x.memory,
        ),
        by == SortBy::Pid ==> rank_class(s, x, by) == s.filter(|y: ProcessInfo| y.pid == x.pid),
        by == SortBy::Name ==> rank_class(s, x, by) == s.filter(
            |y: ProcessInfo| y.name@ == x.name@,
        ),
{
    match by {
        SortBy::Cpu => {
            assert((|y: ProcessInfo| same_rank(y, x, by)) =~= (|y: ProcessInfo| y.cpu == x.cpu));
        },
        SortBy::Memory => {
            assert((|y: ProcessInfo| same_rank(y, x, by)) =~= (|y: ProcessInfo|
                y.memory == x.memory));
        },
        SortBy::Pid => {
            assert((|y: ProcessInfo| same_rank(y, x, by)) =~= (|y: ProcessInfo| y.pid == x.pid));
        },
        SortBy::Name => {
            assert forall|y: ProcessInfo| same_rank(y, x, by) == (y.name@ == x.name@) by {
                vstd::utf8::encode_utf8_decode_utf8(y.name@);
                vstd::utf8::encode_utf8_decode_utf8(x.name@);
            }
            assert((|y: ProcessInfo| same_rank(y, x, by)) =~= (|y: ProcessInfo|
                y.name@ == x.name@));
        },
    }
}

/// Orders `list` by `by`, keeping ties in their order.
pub fn sort_processes(list: &mut Vec<ProcessInfo>, by: SortBy)
    ensures
        stable_sort_of(old(list)@, final(list)@, by),
        final(list)@.to_multiset() == old(list)@.to_multiset(),
        by == SortBy::Cpu ==> forall|i: int, j: int|
            0 <= i < j < final(list)@.len() ==> order_key(#[trigger] final(list)@[i].cpu)
                >= order_key(#[trigger] final(list)@[j].cpu),
        by == SortBy::Memory ==> forall|i: int, j: int|
            0 <= i < j < final(list)@.len() ==> #[trigger] final(list)@[i].memory
                >= #[trigger] final(list)@[j].memory,
        by == SortBy::Pid ==> forall|i: int, j: int|
            0 <= i < j < final(list)@.len() ==> #[trigger] final(list)@[i].pid
                <= #[trigger] final(list)@[j].pid,
        by == SortBy::Name ==> forall|i: int, j: int|
            0 <= i < j < final(list)@.len() ==> !lex_lt(
                vstd::utf8::encode_utf8(#[trigger] final(list)@[j].name@),
                vstd::utf8::encode_utf8(#[trigger] final(list)@[i].name@),
            ),
{
    let mut taken: Vec<ProcessInfo> = Vec::new();
    core::mem::swap(&mut taken, list);
    *list = sorted(taken, by);
    proof {
        lemma_stable_sort_permutes(old(list)@, list@, by);
        lemma_sorted_fields(list@, by);
    }
}

} // verus!
