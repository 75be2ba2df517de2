//! The brute-force search for the choices of grouped fields that meet every
//! group: all subsets of the grouped fields, kept when every group accepts them.
use vstd::prelude::*;
use itertools::Itertools;
use crate::info::group::{
    GroupCollection, GroupV, groups_wf, insert_sorted, satisfied_by, sorted_insert,
    lemma_strictly_increasing_no_duplicates,
    strictly_increasing,
};

verus! {

/// Whether `x` comes before `y` in `items`.
pub open spec fn comes_before(items: Seq<usize>, x: usize, y: usize) -> bool {
    exists|p: int, q: int| 0 <= p < q < items.len() && items[p] == x && items[q] == y
}

/// Whether `a` comes before `b` when both are compared element by element,
/// each element by its place in `items`.
pub open spec fn lex_before(items: Seq<usize>, a: Seq<usize>, b: Seq<usize>) -> bool {
    exists|k: int| 0 <= k < a.len() && k < b.len() && a.take(k) == b.take(k)
        && comes_before(items, #[trigger] a[k], b[k])
}

/// What `itertools`' `powerset` yields for `items`, in its order.
pub uninterp spec fn powerset_of(items: Seq<usize>) -> Seq<Seq<usize>>;

/// All subsets of `items`, by `itertools`' `powerset`.
///
/// Its documentation promises every subset of the input, each once (there are
/// `2^n` of them), each made of the input's elements; for an input without
/// repetition each subset is also without repetition, as its source takes
/// each subset from distinct positions. Each subset lists its elements in the
/// order they have in the input, as its source takes them from increasing
/// positions. The subsets come by increasing size, and those of one size in
/// lexicographic order of their elements' positions.
#[verifier::external_body]
fn powerset(items: Vec<usize>) -> (r: Vec<Vec<usize>>)
    ensures
        r@.map_values(|v: Vec<usize>| v@) == powerset_of(items@),
        forall|i: int, a: int, b: int|
            #![trigger r@[i]@[a], r@[i]@[b]]
            0 <= i < r@.len() && 0 <= a < b < r@[i]@.len() ==> exists|pa: int, pb: int|
                0 <= pa < pb < items@.len() && items@[pa] == r@[i]@[a] && items@[pb] == r@[i]@[b],
        items@.no_duplicates() ==> forall|i: int|
            0 <= i < r@.len() ==> (#[trigger] r@[i])@.no_duplicates() && r@[i]@.to_set().subset_of(
                items@.to_set(),
            ),
        items@.no_duplicates() ==> forall|s: Set<usize>|
            s.subset_of(items@.to_set()) ==> exists|i: int|
                0 <= i < r@.len() && (#[trigger] r@[i])@.to_set() == s,
        items@.no_duplicates() ==> forall|i: int, j: int|
            0 <= i < r@.len() && 0 <= j < r@.len() && i != j ==> (#[trigger] r@[i])@.to_set()
                != (#[trigger] r@[j])@.to_set(),
        items@.no_duplicates() ==> forall|i: int, j: int|
            0 <= i < j < r@.len() ==> (#[trigger] r@[i])@.len() < (#[trigger] r@[j])@.len() || (
            r@[i]@.len() == r@[j]@.len() && lex_before(items@, r@[i]@, r@[j]@)),
{
    items.into_iter().powerset().collect()
}

/// `s` with every element of `xs` added, in order.
pub open spec fn insert_all(s: Seq<usize>, xs: Seq<usize>) -> Seq<usize>
    decreases xs.len(),
{
    if xs.len() == 0 {
        s
    } else {
        sorted_insert(insert_all(s, xs.drop_last()), xs.last())
    }
}

/// The indices of all grouped fields, in increasing order.
pub open spec fn grouped_indices(gs: Seq<GroupV>) -> Seq<usize>
    decreases gs.len(),
{
    if gs.len() == 0 {
        Seq::empty()
    } else {
        insert_all(grouped_indices(gs.drop_last()), gs.last().indices)
    }
}

/// Whether a field index is a member of some group.
pub open spec fn in_some_group(gs: Seq<GroupV>, x: usize) -> bool {
    exists|g: int| 0 <= g < gs.len() && gs[g].indices.contains(x)
}

/// Whether group `g` accepts that exactly the fields in `chosen` are set.
pub open spec fn group_accepts(g: GroupV, chosen: Set<usize>) -> bool {
    satisfied_by(g.group_type, g.indices.to_set().intersect(chosen).len())
}

/// Whether every group accepts that exactly the fields in `chosen` are set.
pub open spec fn all_accept(gs: Seq<GroupV>, chosen: Set<usize>) -> bool {
    forall|g: int| 0 <= g < gs.len() ==> group_accepts(#[trigger] gs[g], chosen)
}

/// The choices of `cs`, in order, that every group accepts.
pub open spec fn keep_accepted(gs: Seq<GroupV>, cs: Seq<Seq<usize>>) -> Seq<Seq<usize>>
    decreases cs.len(),
{
    if cs.len() == 0 {
        Seq::empty()
    } else {
        let kept = keep_accepted(gs, cs.drop_last());
        if all_accept(gs, cs.last().to_set()) {
            kept.push(cs.last())
        } else {
            kept
        }
    }
}

/// The choices `build` is generated for: the subsets of the grouped fields, in
/// `powerset`'s order, that every group accepts.
pub open spec fn spec_valid_combinations(gs: Seq<GroupV>) -> Seq<Seq<usize>> {
    keep_accepted(gs, powerset_of(grouped_indices(gs)))
}

/// Position in `cs` of the `k`-th choice that `keep_accepted` keeps.
pub open spec fn kept_origin(gs: Seq<GroupV>, cs: Seq<Seq<usize>>, k: int) -> int
    decreases cs.len(),
{
    if cs.len() == 0 {
        0
    } else if k < keep_accepted(gs, cs.drop_last()).len() {
        kept_origin(gs, cs.drop_last(), k)
    } else {
        cs.len() - 1
    }
}

/// Each kept choice comes from an accepted choice of the input, and in order.
proof fn lemma_kept_origin(gs: Seq<GroupV>, cs: Seq<Seq<usize>>, k1: int, k2: int)
    requires
        0 <= k1 < k2 < keep_accepted(gs, cs).len(),
    ensures
        0 <= kept_origin(gs, cs, k1) < kept_origin(gs, cs, k2) < cs.len(),
        keep_accepted(gs, cs)[k1] == cs[kept_origin(gs, cs, k1)],
        keep_accepted(gs, cs)[k2] == cs[kept_origin(gs, cs, k2)],
        all_accept(gs, cs[kept_origin(gs, cs, k1)].to_set()),
        all_accept(gs, cs[kept_origin(gs, cs, k2)].to_set()),
    decreases cs.len(),
{
    let ds = cs.drop_last();
    let kd = keep_accepted(gs, ds);
    if k2 < kd.len() {
        lemma_kept_origin(gs, ds, k1, k2);
    } else if k1 < kd.len() {
        if k1 + 1 < kd.len() {
            lemma_kept_origin(gs, ds, k1, k1 + 1);
        } else {
            lemma_kept_last(gs, ds, k1);
        }
    }
}

/// The last kept choice comes from an accepted choice of the input.
proof fn lemma_kept_last(gs: Seq<GroupV>, cs: Seq<Seq<usize>>, k: int)
    requires
        0 <= k < keep_accepted(gs, cs).len(),
    ensures
        0 <= kept_origin(gs, cs, k) < cs.len(),
        keep_accepted(gs, cs)[k] == cs[kept_origin(gs, cs, k)],
        all_accept(gs, cs[kept_origin(gs, cs, k)].to_set()),
    decreases cs.len(),
{
    let ds = cs.drop_last();
    if k < keep_accepted(gs, ds).len() {
        lemma_kept_last(gs, ds, k);
    }
}

/// Every accepted choice of the input is kept.
proof fn lemma_kept_complete(gs: Seq<GroupV>, cs: Seq<Seq<usize>>, i: int)
    requires
        0 <= i < cs.len(),
        all_accept(gs, cs[i].to_set()),
    ensures
        exists|k: int| 0 <= k < keep_accepted(gs, cs).len() && keep_accepted(gs, cs)[k] == cs[i],
    decreases cs.len(),
{
    let ds = cs.drop_last();
    let kc = keep_accepted(gs, cs);
    if i < ds.len() {
        lemma_kept_complete(gs, ds, i);
        let k = choose|k: int| 0 <= k < keep_accepted(gs, ds).len() && keep_accepted(gs, ds)[k] == ds[i];
        assert(kc[k] == ds[i]);
    } else {
        assert(kc[kc.len() - 1] == cs[i]);
    }
}

/// `cs` lists every subset of `items` once, each without repetition.
pub open spec fn lists_subsets(items: Seq<usize>, cs: Seq<Seq<usize>>) -> bool {
    &&& forall|i: int| 0 <= i < cs.len() ==> (#[trigger] cs[i]).no_duplicates()
        && cs[i].to_set().subset_of(items.to_set())
    &&& forall|s: Set<usize>| s.subset_of(items.to_set()) ==> exists|i: int|
        0 <= i < cs.len() && (#[trigger] cs[i]).to_set() == s
    &&& forall|i: int, j: int| 0 <= i < cs.len() && 0 <= j < cs.len() && i != j
        ==> (#[trigger] cs[i]).to_set() != (#[trigger] cs[j]).to_set()
}

/// `rs` lists, once each, exactly the sets of grouped fields that every group accepts,
/// each without repetition.
pub open spec fn lists_accepted(gs: Seq<GroupV>, rs: Seq<Seq<usize>>) -> bool {
    &&& forall|i: int| 0 <= i < rs.len() ==> {
        &&& (#[trigger] rs[i]).no_duplicates()
        &&& forall|x: usize| rs[i].contains(x) ==> in_some_group(gs, x)
        &&& all_accept(gs, rs[i].to_set())
    }
    &&& forall|s: Set<usize>|
        (forall|x: usize| s.contains(x) ==> in_some_group(gs, x)) && all_accept(gs, s)
            ==> exists|i: int| 0 <= i < rs.len() && (#[trigger] rs[i]).to_set() == s
    &&& forall|i: int, j: int|
        0 <= i < j < rs.len() ==> (#[trigger] rs[i]).to_set() != (#[trigger] rs[j]).to_set()
}

/// Keeping the accepted subsets of the grouped fields lists exactly the
/// accepted sets of grouped fields.
proof fn lemma_keep_lists_accepted(gs: Seq<GroupV>, items: Seq<usize>, cs: Seq<Seq<usize>>)
    requires
        forall|x: usize| items.to_set().contains(x) <==> in_some_group(gs, x),
        lists_subsets(items, cs),
    ensures
        lists_accepted(gs, keep_accepted(gs, cs)),
{
    let rs = keep_accepted(gs, cs);
    assert forall|i: int| 0 <= i < rs.len() implies {
        &&& (#[trigger] rs[i]).no_duplicates()
        &&& forall|x: usize| rs[i].contains(x) ==> in_some_group(gs, x)
        &&& all_accept(gs, rs[i].to_set())
    } by {
        lemma_kept_last(gs, cs, i);
        let o = kept_origin(gs, cs, i);
        assert forall|x: usize| rs[i].contains(x) implies in_some_group(gs, x) by {
            assert(cs[o].to_set().contains(x));
        }
    }
    assert forall|s: Set<usize>|
        (forall|x: usize| s.contains(x) ==> in_some_group(gs, x)) && all_accept(gs, s)
            implies exists|i: int| 0 <= i < rs.len() && (#[trigger] rs[i]).to_set() == s by {
        assert(s.subset_of(items.to_set()));
        let j = choose|j: int| 0 <= j < cs.len() && (#[trigger] cs[j]).to_set() == s;
        lemma_kept_complete(gs, cs, j);
        let k = choose|k: int| 0 <= k < rs.len() && rs[k] == cs[j];
        assert(rs[k].to_set() == s);
    }
    assert forall|i: int, j: int| 0 <= i < j < rs.len() implies (#[trigger] rs[i]).to_set()
        != (#[trigger] rs[j]).to_set() by {
        lemma_kept_origin(gs, cs, i, j);
        let a = kept_origin(gs, cs, i);
        let b = kept_origin(gs, cs, j);
        assert(cs[a].to_set() != cs[b].to_set());
    }
}

proof fn lemma_sorted_insert_props(s: Seq<usize>, x: usize)
    requires
        strictly_increasing(s),
    ensures
        strictly_increasing(sorted_insert(s, x)),
        sorted_insert(s, x).to_set() == s.to_set().insert(x),
    decreases s.len(),
{
    let r = sorted_insert(s, x);
    if s.len() == 0 {
        assert(r.to_set() =~= s.to_set().insert(x)) by {
            assert(r == seq![x]);
            assert forall|y: usize| r.to_set().contains(y) implies y == x by {
                let k = choose|k: int| 0 <= k < r.len() && r[k] == y;
            }
            assert(r[0] == x);
        }
    } else if x < s[0] {
        assert forall|y: usize| r.to_set().contains(y) <==> s.to_set().insert(x).contains(y) by {
            if r.to_set().contains(y) {
                let k = choose|k: int| 0 <= k < r.len() && r[k] == y;
                if k > 0 {
                    assert(s[k - 1] == y);
                }
            }
            if s.to_set().contains(y) {
                let k = choose|k: int| 0 <= k < s.len() && s[k] == y;
                assert(r[k + 1] == y);
            }
            if y == x {
                assert(r[0] == x);
            }
        }
        assert(r.to_set() =~= s.to_set().insert(x));
        assert forall|i: int, j: int| 0 <= i < j < r.len() implies r[i] < r[j] by {
            if i > 0 {
                assert(r[i] == s[i - 1] && r[j] == s[j - 1]);
            } else {
                assert(r[j] == s[j - 1]);
                assert(s[0] <= s[j - 1]);
            }
        }
    } else if x == s[0] {
        assert(s.to_set().contains(x));
        assert(r.to_set() =~= s.to_set().insert(x));
    } else {
        let t = s.drop_first();
        assert(strictly_increasing(t));
        lemma_sorted_insert_props(t, x);
        let rt = sorted_insert(t, x);
        assert(r == seq![s[0]] + rt);
        assert forall|y: usize| r.to_set().contains(y) <==> s.to_set().insert(x).contains(y) by {
            if r.to_set().contains(y) {
                let k = choose|k: int| 0 <= k < r.len() && r[k] == y;
                if k > 0 {
                    assert(rt[k - 1] == y);
                    assert(rt.to_set().contains(y));
                    if y != x {
                        assert(t.to_set().contains(y));
                        let m = choose|m: int| 0 <= m < t.len() && t[m] == y;
                        assert(s[m + 1] == y);
                    }
                } else {
                    assert(s[0] == y);
                }
            }
            if s.to_set().contains(y) {
                let k = choose|k: int| 0 <= k < s.len() && s[k] == y;
                if k == 0 {
                    assert(r[0] == y);
                } else {
                    assert(t[k - 1] == y);
                    assert(t.to_set().contains(y));
                    assert(rt.to_set().contains(y));
                    let m = choose|m: int| 0 <= m < rt.len() && rt[m] == y;
                    assert(r[m + 1] == y);
                }
            }
            if y == x {
                assert(rt.to_set().contains(x));
                let m = choose|m: int| 0 <= m < rt.len() && rt[m] == x;
                assert(r[m + 1] == x);
            }
        }
        assert(r.to_set() =~= s.to_set().insert(x));
        assert forall|i: int, j: int| 0 <= i < j < r.len() implies r[i] < r[j] by {
            if i > 0 {
                assert(r[i] == rt[i - 1] && r[j] == rt[j - 1]);
            } else {
                assert(r[j] == rt[j - 1]);
                assert(rt.to_set().contains(rt[j - 1]));
                if rt[j - 1] != x {
                    assert(t.to_set().contains(rt[j - 1]));
                    let m = choose|m: int| 0 <= m < t.len() && t[m] == rt[j - 1];
                    assert(s[0] < s[m + 1]);
                }
            }
        }
    }
}

proof fn lemma_insert_all_props(s: Seq<usize>, xs: Seq<usize>)
    requires
        strictly_increasing(s),
    ensures
        strictly_increasing(insert_all(s, xs)),
        insert_all(s, xs).to_set() == s.to_set().union(xs.to_set()),
    decreases xs.len(),
{
    if xs.len() == 0 {
        assert(xs.to_set() =~= Set::empty());
        assert(s.to_set().union(xs.to_set()) =~= s.to_set());
    } else {
        let ys = xs.drop_last();
        lemma_insert_all_props(s, ys);
        lemma_sorted_insert_props(insert_all(s, ys), xs.last());
        assert(xs =~= ys.push(xs.last()));
        assert(xs.to_set() =~= ys.to_set().insert(xs.last()));
        assert(insert_all(s, xs).to_set() =~= s.to_set().union(xs.to_set()));
    }
}

/// The grouped indices are increasing and are exactly the members of the groups.
pub proof fn lemma_grouped_indices(gs: Seq<GroupV>)
    ensures
        strictly_increasing(grouped_indices(gs)),
        forall|x: usize| grouped_indices(gs).to_set().contains(x) <==> in_some_group(gs, x),
    decreases gs.len(),
{
    if gs.len() > 0 {
        let hs = gs.drop_last();
        lemma_grouped_indices(hs);
        lemma_insert_all_props(grouped_indices(hs), gs.last().indices);
        assert forall|x: usize| grouped_indices(gs).to_set().contains(x) <==> in_some_group(gs, x) by {
            if grouped_indices(hs).to_set().contains(x) {
                assert(in_some_group(hs, x));
                let g = choose|g: int| 0 <= g < hs.len() && hs[g].indices.contains(x);
                assert(hs[g] == gs[g]);
                assert(gs[g].indices.contains(x));
            }
            if gs.last().indices.to_set().contains(x) {
                assert(gs.last().indices.contains(x));
            }
            if in_some_group(gs, x) {
                let g = choose|g: int| 0 <= g < gs.len() && gs[g].indices.contains(x);
                if g < hs.len() {
                    assert(hs[g] == gs[g]);
                    assert(in_some_group(hs, x));
                } else {
                    assert(gs.last().indices.to_set().contains(x));
                }
            }
        }
    } else {
        assert(grouped_indices(gs).to_set() =~= Set::empty());
    }
}

/// The indices of all grouped fields, in increasing order.
pub fn grouped_indices_vec(groups: &GroupCollection) -> (r: Vec<usize>)
    requires
        groups.wf(),
    ensures
        r@ == grouped_indices(groups@),
{
    let mut r: Vec<usize> = Vec::new();
    let mut i: usize = 0;
    let ghost gs = groups@;
    assert(gs.take(0) =~= Seq::<GroupV>::empty());
    while i < groups.groups.len()
        invariant
            gs == groups@,
            i <= gs.len(),
            r@ == grouped_indices(gs.take(i as int)),
        decreases gs.len() - i,
    {
        proof {
            lemma_grouped_indices(gs.take(i as int));
        }
        let idx = groups.groups[i].indices();
        let ghost xs = gs[i as int].indices;
        assert(idx@ == xs);
        let ghost base = r@;
        let mut j: usize = 0;
        assert(xs.take(0) =~= Seq::<usize>::empty());
        while j < idx.len()
            invariant
                j <= xs.len(),
                idx@ == xs,
                strictly_increasing(base),
                r@ == insert_all(base, xs.take(j as int)),
            decreases xs.len() - j,
        {
            proof {
                lemma_insert_all_props(base, xs.take(j as int));
            }
            insert_sorted(&mut r, idx[j]);
            assert(xs.take(j + 1).drop_last() =~= xs.take(j as int));
            j = j + 1;
        }
        assert(xs.take(j as int) =~= xs);
        assert(gs.take(i + 1).drop_last() =~= gs.take(i as int));
        i = i + 1;
    }
    assert(gs.take(i as int) =~= gs);
    r
}

} // verus!

verus! {

/// The choices of grouped fields that a `build` method is generated for: every
/// subset of the grouped fields that all groups accept, in `powerset`'s order.
///
/// Each choice lists distinct grouped fields and is accepted by every group;
/// every accepted set of grouped fields is listed; no set is listed twice.
pub fn valid_groupident_combinations(groups: &GroupCollection) -> (r: Vec<Vec<usize>>)
    requires
        groups.wf(),
    ensures
        r@.map_values(|v: Vec<usize>| v@) == spec_valid_combinations(groups@),
        lists_accepted(groups@, r@.map_values(|v: Vec<usize>| v@)),
        forall|i: int| 0 <= i < r@.len() ==> strictly_increasing(#[trigger] r@[i]@),
        forall|i: int, j: int|
            0 <= i < j < r@.len() ==> (#[trigger] r@[i])@.len() < (#[trigger] r@[j])@.len() || (
            r@[i]@.len() == r@[j]@.len() && lex_before(grouped_indices(groups@), r@[i]@, r@[j]@)),
{
    let ghost gs = groups@;
    let items = grouped_indices_vec(groups);
    let ghost iv = items@;
    proof {
        lemma_grouped_indices(gs);
        lemma_strictly_increasing_no_duplicates(items@);
    }
    let mut p = powerset(items);
    let ghost ps = p@;
    let ghost cs = ps.map_values(|v: Vec<usize>| v@);
    proof {
        assert forall|s: Set<usize>| s.subset_of(iv.to_set()) implies exists|i: int|
            0 <= i < cs.len() && (#[trigger] cs[i]).to_set() == s by {
            let i = choose|i: int| 0 <= i < ps.len() && (#[trigger] ps[i])@.to_set() == s;
            assert(cs[i] == ps[i]@);
        }
        assert forall|i: int, j: int| 0 <= i < cs.len() && 0 <= j < cs.len() && i != j
            implies (#[trigger] cs[i]).to_set() != (#[trigger] cs[j]).to_set() by {
            assert(cs[i] == ps[i]@ && cs[j] == ps[j]@);
        }
        assert forall|i: int| 0 <= i < cs.len() implies (#[trigger] cs[i]).no_duplicates()
            && cs[i].to_set().subset_of(iv.to_set()) by {
            assert(cs[i] == ps[i]@);
        }
        assert(lists_subsets(iv, cs));
        lemma_keep_lists_accepted(gs, iv, cs);
        assert forall|i: int| 0 <= i < cs.len() implies strictly_increasing(#[trigger] cs[i]) by {
            assert(cs[i] == ps[i]@);
            assert forall|a: int, b: int| 0 <= a < b < cs[i].len() implies cs[i][a] < cs[i][b] by {
                assert(0 <= a < b < ps[i]@.len());
                let (pa, pb) = choose|pa: int, pb: int|
                    0 <= pa < pb < iv.len() && iv[pa] == ps[i]@[a] && iv[pb] == ps[i]@[b];
            }
        }
    }
    let n = p.len();
    let mut r: Vec<Vec<usize>> = Vec::new();
    let mut i: usize = 0;
    assert(cs.take(0) =~= Seq::<Seq<usize>>::empty());
    assert(r@.map_values(|v: Vec<usize>| v@) =~= keep_accepted(gs, cs.take(0)));
    while i < n
        invariant
            n == p@.len(),
            n == ps.len(),
            i <= n,
            gs == groups@,
            groups.wf(),
            cs == ps.map_values(|v: Vec<usize>| v@),
            forall|k: int| i <= k < n ==> p@[k] == ps[k],
            r@.map_values(|v: Vec<usize>| v@) == keep_accepted(gs, cs.take(i as int)),
        decreases n - i,
    {
        let ok = accepted_by_all(groups, p[i].as_slice());
        let mut c: Vec<usize> = Vec::new();
        std::mem::swap(&mut p[i], &mut c);
        assert(c@ == cs[i as int]);
        assert(cs.take(i + 1).drop_last() =~= cs.take(i as int));
        assert(cs.take(i + 1).last() == cs[i as int]);
        if ok {
            r.push(c);
            assert(r@.map_values(|v: Vec<usize>| v@) =~= keep_accepted(gs, cs.take(i as int)).push(
                cs[i as int],
            ));
        }
        i = i + 1;
    }
    assert(cs.take(n as int) =~= cs);
    proof {
        let rs = r@.map_values(|v: Vec<usize>| v@);
        assert forall|k: int| 0 <= k < r@.len() implies strictly_increasing(#[trigger] r@[k]@) by {
            lemma_kept_last(gs, cs, k);
            assert(rs[k] == r@[k]@);
        }
        assert forall|i: int, j: int| 0 <= i < j < r@.len() implies (#[trigger] r@[i])@.len()
            < (#[trigger] r@[j])@.len() || (r@[i]@.len() == r@[j]@.len() && lex_before(
            iv,
            r@[i]@,
            r@[j]@,
        )) by {
            lemma_kept_origin(gs, cs, i, j);
            let a = kept_origin(gs, cs, i);
            let b = kept_origin(gs, cs, j);
            assert(rs[i] == r@[i]@ && rs[j] == r@[j]@);
            assert(cs[a] == ps[a]@ && cs[b] == ps[b]@);
        }
    }
    r
}

/// Whether every group accepts that exactly the fields in `chosen` are set.
fn accepted_by_all(groups: &GroupCollection, chosen: &[usize]) -> (r: bool)
    requires
        groups.wf(),
    ensures
        r == all_accept(groups@, chosen@.to_set()),
{
    let ghost gs = groups@;
    let mut ok = true;
    let mut g: usize = 0;
    while g < groups.groups.len()
        invariant
            g <= gs.len(),
            gs == groups@,
            groups.wf(),
            ok == (forall|h: int| 0 <= h < g ==> group_accepts(#[trigger] gs[h], chosen@.to_set())),
        decreases gs.len() - g,
    {
        assert(groups.groups@[g as int]@ == gs[g as int]);
        assert(strictly_increasing(gs[g as int].indices));
        let v = groups.groups[g].is_valid_with(chosen);
        if !v {
            ok = false;
        }
        g = g + 1;
    }
    ok
}

} // verus!
