//! Groups of fields and the bounds on how many of their members may be set.
use vstd::prelude::*;
use crate::diagnostic::{Diagnostic, DiagnosticKind, Level, error, warning, error_at, warning_at, has_error};
use crate::symbol::Symbol;

verus! {

/// The bound a group puts on the number of its members that are set.
#[derive(Debug, Clone, Copy, PartialEq, Eq, Structural)]
pub enum GroupType {
    /// Exactly this many members are set.
    Exact(usize),
    /// At least this many members are set.
    AtLeast(usize),
    /// At most this many members are set.
    AtMost(usize),
}

/// Whether `count` set members meet the bound `t`.
pub open spec fn satisfied_by(t: GroupType, count: nat) -> bool {
    match t {
        GroupType::Exact(c) => count == c,
        GroupType::AtLeast(c) => count >= c,
        GroupType::AtMost(c) => count <= c,
    }
}

/// The number a group type carries.
pub open spec fn spec_expected_count(t: GroupType) -> usize {
    match t {
        GroupType::Exact(c) => c,
        GroupType::AtLeast(c) => c,
        GroupType::AtMost(c) => c,
    }
}

/// The name of the helper that checks a group type at compile time.
pub open spec fn spec_function_symbol(t: GroupType) -> Symbol {
    match t {
        GroupType::Exact(_) => Symbol::Exact,
        GroupType::AtLeast(_) => Symbol::AtLeast,
        GroupType::AtMost(_) => Symbol::AtMost,
    }
}

/// A sequence in which every element is smaller than the next.
pub open spec fn strictly_increasing(s: Seq<usize>) -> bool {
    forall|i: int, j: int| 0 <= i < j < s.len() ==> s[i] < s[j]
}

/// A group: a name, the indices of its member fields, and its bound.
#[derive(Debug)]
pub struct Group {
    pub name: String,
    /// Span of the group's name where it was defined.
    pub span: usize,
    /// Member field indices, in increasing order.
    pub associated_indices: Vec<usize>,
    pub group_type: GroupType,
}

/// How many elements of `a` lie in `s`.
pub open spec fn count_in(a: Seq<usize>, s: Set<usize>) -> nat
    decreases a.len(),
{
    if a.len() == 0 {
        0
    } else {
        count_in(a.drop_last(), s) + if s.contains(a.last()) { 1nat } else { 0nat }
    }
}

/// For a sequence without repetition, counting its elements in `s` gives the
/// size of the intersection of its set with `s`.
pub proof fn lemma_count_in_intersect(a: Seq<usize>, s: Set<usize>)
    requires
        a.no_duplicates(),
    ensures
        count_in(a, s) == a.to_set().intersect(s).len(),
        a.to_set().intersect(s).finite(),
    decreases a.len(),
{
    a.to_set().lemma_len_filter(|x: usize| s.contains(x));
    if a.len() == 0 {
        assert(a.to_set().intersect(s) =~= Set::empty());
    } else {
        let b = a.drop_last();
        let x = a.last();
        assert(b.no_duplicates());
        lemma_count_in_intersect(b, s);
        assert(a =~= b.push(x));
        assert(a.to_set() =~= b.to_set().insert(x));
        assert(!b.to_set().contains(x)) by {
            if b.to_set().contains(x) {
                let k = choose|k: int| 0 <= k < b.len() && b[k] == x;
                assert(a[k] == a[a.len() - 1]);
            }
        }
        if s.contains(x) {
            assert(a.to_set().intersect(s) =~= b.to_set().intersect(s).insert(x));
        } else {
            assert(a.to_set().intersect(s) =~= b.to_set().intersect(s));
        }
    }
}

/// An increasing sequence has no repetition.
pub proof fn lemma_strictly_increasing_no_duplicates(s: Seq<usize>)
    requires
        strictly_increasing(s),
    ensures
        s.no_duplicates(),
{
    assert forall|i: int, j: int| 0 <= i < s.len() && 0 <= j < s.len() && i != j implies s[i]
        != s[j] by {
        if i < j {
        } else {
            assert(s[j] < s[i]);
        }
    }
}


/// The warnings about where the expected count lies, for a group of `len` members.
pub open spec fn range_diagnostics(len: nat, expected: usize, span: usize) -> Seq<Diagnostic> {
    if len <= 1 {
        seq![warning_at(DiagnosticKind::NoValidExpectedCount, span)]
    } else if !(1 <= expected && expected < len) {
        seq![warning_at(DiagnosticKind::ExpectedCountOutOfRange, span)]
    } else {
        Seq::empty()
    }
}

/// The diagnostics about a bound that cannot, or can only trivially, be met,
/// for a group of `len` members.
pub open spec fn bound_diagnostics(t: GroupType, len: nat, span: usize) -> Seq<Diagnostic> {
    match t {
        GroupType::Exact(e) => (if e < 1 {
            seq![error_at(DiagnosticKind::GroupPreventsAll, span)]
        } else {
            Seq::empty()
        }) + (if e < len {
            Seq::empty()
        } else if e == len {
            seq![warning_at(DiagnosticKind::GroupNeedsAllFields, span)]
        } else {
            seq![error_at(DiagnosticKind::GroupNeverSatisfied, span)]
        }),
        GroupType::AtLeast(e) => (if e < 1 {
            seq![warning_at(DiagnosticKind::GroupHasNoEffect, span)]
        } else {
            Seq::empty()
        }) + (if e < len {
            Seq::empty()
        } else if e == len {
            seq![warning_at(DiagnosticKind::GroupNeedsAllFields, span)]
        } else {
            seq![error_at(DiagnosticKind::GroupNeverSatisfied, span)]
        }),
        GroupType::AtMost(e) => (if e < 1 {
            seq![error_at(DiagnosticKind::GroupPreventsAll, span)]
        } else {
            Seq::empty()
        }) + (if e < len {
            Seq::empty()
        } else {
            seq![warning_at(DiagnosticKind::GroupHasNoEffect, span)]
        }),
    }
}

/// Everything `Group::check` reports about a group.
pub open spec fn spec_check(g: &Group) -> Seq<Diagnostic> {
    let len = g.associated_indices@.len();
    range_diagnostics(len, spec_expected_count(g.group_type), g.span) + bound_diagnostics(
        g.group_type,
        len,
        g.span,
    )
}

/// Adds `index` to an increasing vector in its place; reports whether it was new.
pub fn insert_sorted(v: &mut Vec<usize>, index: usize) -> (inserted: bool)
    requires
        strictly_increasing(old(v)@),
    ensures
        strictly_increasing(final(v)@),
        final(v)@.to_set() == old(v)@.to_set().insert(index),
        inserted == !old(v)@.to_set().contains(index),
        final(v)@ == sorted_insert(old(v)@, index),
{
    let len = v.len();
    let mut p: usize = 0;
    while p < len && v[p] < index
        invariant
            p <= len,
            len == v.len(),
            forall|k: int| 0 <= k < p ==> v@[k] < index,
        decreases len - p,
    {
        p = p + 1;
    }
    if p < len && v[p] == index {
        assert(old(v)@.to_set().insert(index) =~= old(v)@.to_set());
        proof {
            lemma_sorted_insert_found(v@, index, p as int);
        }
        return false;
    }
    let ghost before = v@;
    assert(!before.to_set().contains(index)) by {
        if before.to_set().contains(index) {
            let k = choose|k: int| 0 <= k < before.len() && before[k] == index;
            if k < p {
            } else {
                assert(before[p as int] <= before[k]);
            }
        }
    }
    v.insert(p, index);
    proof {
        let after = v@;
        assert(after =~= before.insert(p as int, index));
        assert forall|i: int, j: int| 0 <= i < j < after.len() implies after[i] < after[j] by {
            if j < p {
            } else if j == p {
            } else if i < p {
                assert(after[j] == before[j - 1]);
                if j - 1 > p {
                    assert(before[p as int] < before[j - 1]);
                }
            } else if i == p {
                assert(after[j] == before[j - 1]);
                if j - 1 > p {
                    assert(before[p as int] < before[j - 1]);
                }
            } else {
            }
        }
        assert forall|x: usize| after.to_set().contains(x) <==> before.to_set().insert(
            index,
        ).contains(x) by {
            if after.to_set().contains(x) {
                let k = choose|k: int| 0 <= k < after.len() && after[k] == x;
                if k < p {
                    assert(before[k] == x);
                } else if k > p {
                    assert(before[k - 1] == x);
                }
            }
            if before.to_set().contains(x) {
                let k = choose|k: int| 0 <= k < before.len() && before[k] == x;
                if k < p {
                    assert(after[k] == x);
                } else {
                    assert(after[k + 1] == x);
                }
            }
            if x == index {
                assert(after[p as int] == x);
            }
        }
        assert(after.to_set() =~= before.to_set().insert(index));
        lemma_sorted_insert_at(before, index, p as int);
    }
    true
}

impl Group {
    /// The group's indices are kept in increasing order.
    pub open spec fn wf(&self) -> bool {
        strictly_increasing(self.associated_indices@)
    }

    /// The set of member field indices.
    pub open spec fn members(&self) -> Set<usize> {
        self.associated_indices@.to_set()
    }

    /// Whether choosing the fields in `chosen` meets the group's bound.
    pub open spec fn valid_with(&self, chosen: Set<usize>) -> bool {
        satisfied_by(self.group_type, self.members().intersect(chosen).len())
    }

    /// A new group without members.
    pub fn new(name: String, span: usize, group_type: GroupType) -> (g: Group)
        ensures
            g.name@ == name@,
            g.span == span,
            g.group_type == group_type,
            g.associated_indices@ == Seq::<usize>::empty(),
            g.wf(),
    {
        Group { name, span, associated_indices: Vec::new(), group_type }
    }

    /// The group's name.
    pub fn name(&self) -> (r: &String)
        ensures
            r@ == self.name@,
    {
        &self.name
    }

    /// The number the group's bound carries.
    pub fn expected_count(&self) -> (r: usize)
        ensures
            r == spec_expected_count(self.group_type),
    {
        match self.group_type {
            GroupType::Exact(expected) | GroupType::AtLeast(expected) | GroupType::AtMost(
                expected,
            ) => expected,
        }
    }

    /// Adds a member; reports whether it was new.
    pub fn associate(&mut self, index: usize) -> (inserted: bool)
        requires
            old(self).wf(),
        ensures
            final(self).wf(),
            final(self).members() == old(self).members().insert(index),
            inserted == !old(self).members().contains(index),
            final(self).associated_indices@ == sorted_insert(old(self).associated_indices@, index),
            final(self).name == old(self).name,
            final(self).span == old(self).span,
            final(self).group_type == old(self).group_type,
    {
        insert_sorted(&mut self.associated_indices, index)
    }

    /// The member field indices, in increasing order.
    pub fn indices(&self) -> (r: &Vec<usize>)
        ensures
            r@ == self.associated_indices@,
    {
        &self.associated_indices
    }

    /// The helper that checks this group's bound at compile time.
    pub fn function_symbol(&self) -> (r: Symbol)
        ensures
            r == spec_function_symbol(self.group_type),
    {
        match self.group_type {
            GroupType::Exact(_) => Symbol::Exact,
            GroupType::AtLeast(_) => Symbol::AtLeast,
            GroupType::AtMost(_) => Symbol::AtMost,
        }
    }

    /// The group's bound.
    pub fn group_type(&self) -> (r: &GroupType)
        ensures
            *r == self.group_type,
    {
        &self.group_type
    }

    /// Whether setting exactly the fields in `indices` meets the group's bound.
    pub fn is_valid_with(&self, indices: &[usize]) -> (r: bool)
        requires
            self.wf(),
        ensures
            r == self.valid_with(indices@.to_set()),
    {
        let n = self.associated_indices.len();
        let mut count: usize = 0;
        let mut i: usize = 0;
        while i < n
            invariant
                n == self.associated_indices.len(),
                i <= n,
                count == count_in(self.associated_indices@.take(i as int), indices@.to_set()),
                count <= i,
            decreases n - i,
        {
            let x = self.associated_indices[i];
            let mut found = false;
            let mut j: usize = 0;
            while j < indices.len()
                invariant
                    j <= indices.len(),
                    found == (exists|k: int| 0 <= k < j && indices@[k] == x),
                decreases indices.len() - j,
            {
                if indices[j] == x {
                    found = true;
                }
                j = j + 1;
            }
            assert(found == indices@.to_set().contains(x));
            assert(self.associated_indices@.take(i + 1).drop_last() =~= self.associated_indices@.take(
                i as int,
            ));
            if found {
                count = count + 1;
            }
            i = i + 1;
        }
        assert(self.associated_indices@.take(n as int) =~= self.associated_indices@);
        proof {
            lemma_count_in_intersect(self.associated_indices@, indices@.to_set());
        }
        match self.group_type {
            GroupType::Exact(c) => count == c,
            GroupType::AtLeast(c) => count >= c,
            GroupType::AtMost(c) => count <= c,
        }
    }

    /// Checks that the group can be met in a useful way; reports what it finds.
    pub fn check(&self) -> (r: Vec<Diagnostic>)
        ensures
            r@ == spec_check(self),
    {
        let len = self.associated_indices.len();
        let expected = self.expected_count();
        let mut r: Vec<Diagnostic> = Vec::new();
        if len <= 1 {
            r.push(warning(DiagnosticKind::NoValidExpectedCount, self.span));
        } else if !(1 <= expected && expected < len) {
            r.push(warning(DiagnosticKind::ExpectedCountOutOfRange, self.span));
        }
        let ghost first = r@;
        match self.group_type {
            GroupType::Exact(e) => {
                if e < 1 {
                    r.push(error(DiagnosticKind::GroupPreventsAll, self.span));
                }
                if e == len {
                    r.push(warning(DiagnosticKind::GroupNeedsAllFields, self.span));
                } else if e > len {
                    r.push(error(DiagnosticKind::GroupNeverSatisfied, self.span));
                }
            },
            GroupType::AtLeast(e) => {
                if e < 1 {
                    r.push(warning(DiagnosticKind::GroupHasNoEffect, self.span));
                }
                if e == len {
                    r.push(warning(DiagnosticKind::GroupNeedsAllFields, self.span));
                } else if e > len {
                    r.push(error(DiagnosticKind::GroupNeverSatisfied, self.span));
                }
            },
            GroupType::AtMost(e) => {
                if e < 1 {
                    r.push(error(DiagnosticKind::GroupPreventsAll, self.span));
                }
                if e >= len {
                    r.push(warning(DiagnosticKind::GroupHasNoEffect, self.span));
                }
            },
        }
        assert(r@ =~= spec_check(self));
        r
    }
}


/// What a group denotes.
pub struct GroupV {
    pub name: Seq<char>,
    pub span: usize,
    pub indices: Seq<usize>,
    pub group_type: GroupType,
}

impl View for Group {
    type V = GroupV;

    open spec fn view(&self) -> GroupV {
        GroupV {
            name: self.name@,
            span: self.span,
            indices: self.associated_indices@,
            group_type: self.group_type,
        }
    }
}

/// `s` with `x` added in its place, for an increasing `s`.
pub open spec fn sorted_insert(s: Seq<usize>, x: usize) -> Seq<usize>
    decreases s.len(),
{
    if s.len() == 0 {
        seq![x]
    } else if x < s[0] {
        seq![x] + s
    } else if x == s[0] {
        s
    } else {
        seq![s[0]] + sorted_insert(s.drop_first(), x)
    }
}

/// Inserting before the first element not below `x` is `sorted_insert`.
proof fn lemma_sorted_insert_at(s: Seq<usize>, x: usize, p: int)
    requires
        strictly_increasing(s),
        0 <= p <= s.len(),
        forall|k: int| 0 <= k < p ==> s[k] < x,
        p < s.len() ==> s[p] > x,
    ensures
        sorted_insert(s, x) == s.insert(p, x),
    decreases s.len(),
{
    if s.len() == 0 {
        assert(s.insert(p, x) =~= seq![x]);
    } else if p == 0 {
        assert(s.insert(p, x) =~= seq![x] + s);
    } else {
        let t = s.drop_first();
        assert(strictly_increasing(t));
        lemma_sorted_insert_at(t, x, p - 1);
        assert(s.insert(p, x) =~= seq![s[0]] + t.insert(p - 1, x));
    }
}

/// Adding an element already present changes nothing.
proof fn lemma_sorted_insert_found(s: Seq<usize>, x: usize, p: int)
    requires
        strictly_increasing(s),
        0 <= p < s.len(),
        forall|k: int| 0 <= k < p ==> s[k] < x,
        s[p] == x,
    ensures
        sorted_insert(s, x) == s,
    decreases s.len(),
{
    if p > 0 {
        let t = s.drop_first();
        lemma_sorted_insert_found(t, x, p - 1);
        assert(seq![s[0]] + t =~= s);
    }
}

/// The groups of a container, one per name.
#[derive(Debug)]
pub struct GroupCollection {
    pub groups: Vec<Group>,
}

impl View for GroupCollection {
    type V = Seq<GroupV>;

    open spec fn view(&self) -> Seq<GroupV> {
        self.groups@.map_values(|g: Group| g@)
    }
}

/// Position of the group called `name`, if any.
pub open spec fn spec_find(gs: Seq<GroupV>, name: Seq<char>) -> Option<int> {
    if exists|i: int| 0 <= i < gs.len() && gs[i].name == name {
        Some(choose|i: int| 0 <= i < gs.len() && gs[i].name == name)
    } else {
        None
    }
}

/// The groups after defining `g`: a group of the same name is replaced.
pub open spec fn spec_define(gs: Seq<GroupV>, g: GroupV) -> Seq<GroupV> {
    match spec_find(gs, g.name) {
        Some(i) => gs.update(i, g),
        None => gs.push(g),
    }
}

/// The groups after making field `index` a member of the group called
/// `name`, and whether that group exists and the field was new to it.
pub open spec fn spec_associate(gs: Seq<GroupV>, name: Seq<char>, index: usize) -> (
    Seq<GroupV>,
    Option<bool>,
) {
    match spec_find(gs, name) {
        Some(i) => (
            gs.update(
                i,
                GroupV { indices: sorted_insert(gs[i].indices, index), ..gs[i] },
            ),
            Some(!gs[i].indices.contains(index)),
        ),
        None => (gs, None),
    }
}

/// Names are unique and every group keeps its indices increasing.
pub open spec fn groups_wf(gs: Seq<GroupV>) -> bool {
    &&& forall|i: int| 0 <= i < gs.len() ==> strictly_increasing(#[trigger] gs[i].indices)
    &&& forall|i: int, j: int|
        0 <= i < gs.len() && 0 <= j < gs.len() && i != j ==> gs[i].name != gs[j].name
}

impl GroupCollection {
    /// Every group is well formed and no two groups share a name.
    pub open spec fn wf(&self) -> bool {
        groups_wf(self@)
    }

    /// An empty collection.
    pub fn new() -> (c: GroupCollection)
        ensures
            c@ == Seq::<GroupV>::empty(),
            c.wf(),
    {
        let c = GroupCollection { groups: Vec::new() };
        assert(c@ =~= Seq::<GroupV>::empty());
        c
    }

    /// Number of groups.
    pub fn len(&self) -> (r: usize)
        ensures
            r == self@.len(),
    {
        self.groups.len()
    }

    /// Whether there are no groups.
    pub fn is_empty(&self) -> (r: bool)
        ensures
            r == (self@.len() == 0),
    {
        self.groups.len() == 0
    }

    /// Position of the group called `name`.
    pub fn position(&self, name: &String) -> (r: Option<usize>)
        requires
            self.wf(),
        ensures
            match r {
                Some(i) => spec_find(self@, name@) == Some(i as int),
                None => spec_find(self@, name@) is None,
            },
    {
        let mut i: usize = 0;
        while i < self.groups.len()
            invariant
                i <= self@.len(),
                self.wf(),
                forall|k: int| 0 <= k < i ==> self@[k].name != name@,
            decreases self@.len() - i,
        {
            if self.groups[i].name == *name {
                let ghost c = choose|k: int| 0 <= k < self@.len() && self@[k].name == name@;
                assert(self@[i as int].name == name@);
                assert(c == i) by {
                    if c != i {
                        assert(self@[c].name == self@[i as int].name);
                    }
                }
                return Some(i);
            }
            i = i + 1;
        }
        None
    }

    /// Adds a group; a group of the same name is replaced and handed back.
    pub fn insert(&mut self, group: Group) -> (old_group: Option<Group>)
        requires
            old(self).wf(),
            group.wf(),
        ensures
            final(self).wf(),
            final(self)@ == spec_define(old(self)@, group@),
            match spec_find(old(self)@, group@.name) {
                Some(i) => old_group matches Some(g) && g@ == old(self)@[i],
                None => old_group is None,
            },
    {
        let ghost gv = group@;
        match self.position(&group.name) {
            Some(i) => {
                let mut taken = group;
                std::mem::swap(&mut self.groups[i], &mut taken);
                proof {
                    assert(self@ =~= old(self)@.update(i as int, gv));
                    assert forall|a: int, b: int|
                        0 <= a < self@.len() && 0 <= b < self@.len() && a != b
                        implies self@[a].name != self@[b].name by {
                        if a == i {
                            assert(old(self)@[b].name != old(self)@[i as int].name);
                        } else if b == i {
                            assert(old(self)@[a].name != old(self)@[i as int].name);
                        }
                    }
                }
                Some(taken)
            },
            None => {
                self.groups.push(group);
                proof {
                    assert(self@ =~= old(self)@.push(gv));
                    assert forall|a: int, b: int|
                        0 <= a < self@.len() && 0 <= b < self@.len() && a != b
                        implies self@[a].name != self@[b].name by {
                        if a == old(self)@.len() {
                            assert(old(self)@[b].name != gv.name);
                        } else if b == old(self)@.len() {
                            assert(old(self)@[a].name != gv.name);
                        }
                    }
                }
                None
            },
        }
    }

    /// Makes field `index` a member of the group called `name`, if that group
    /// exists; reports whether the field was new to it.
    pub fn associate(&mut self, name: &String, index: usize) -> (r: Option<bool>)
        requires
            old(self).wf(),
        ensures
            final(self).wf(),
            (final(self)@, r) == spec_associate(old(self)@, name@, index),
    {
        match self.position(name) {
            Some(i) => {
                let mut g = self.groups.remove(i);
                let ghost before = g@;
                let inserted = g.associate(index);
                let ghost gv = g@;
                self.groups.insert(i, g);
                proof {
                    assert(gv == GroupV { indices: sorted_insert(before.indices, index), ..before });
                    assert(self@ =~= old(self)@.update(i as int, gv));
                    assert(before == old(self)@[i as int]);
                    assert forall|a: int, b: int|
                        0 <= a < self@.len() && 0 <= b < self@.len() && a != b
                        implies self@[a].name != self@[b].name by {
                        assert(self@[a].name == old(self)@[a].name);
                        assert(self@[b].name == old(self)@[b].name);
                    }
                    assert(before.indices.to_set().contains(index) == before.indices.contains(index));
                }
                Some(inserted)
            },
            None => None,
        }
    }
}

/// For a group with at least one member, `check` reports an error exactly
/// when no non-empty choice of its members meets the group's bound.
pub proof fn lemma_check_error_iff_unsatisfiable(g: &Group)
    requires
        g.wf(),
        g.associated_indices@.len() >= 1,
    ensures
        has_error(spec_check(g)) <==> !(exists|s: Set<usize>|
            #![trigger g.valid_with(s)]
            s.subset_of(g.members()) && !s.is_empty() && g.valid_with(s)),
{
    let a = g.associated_indices@;
    let n = a.len();
    lemma_strictly_increasing_no_duplicates(a);
    a.unique_seq_to_set();
    let members = g.members();
    assert(members.finite());
    let d = spec_check(g);
    // Any non-empty choice of members has between one and `n` elements.
    assert forall|s: Set<usize>| s.subset_of(members) && !s.is_empty() implies members.intersect(
        s,
    ) == s && s.finite() && 1 <= s.len() <= n by {
        assert(members.intersect(s) =~= s);
        vstd::set_lib::lemma_set_subset_finite(members, s);
        vstd::set_lib::lemma_len_subset(s, members);
        if s.len() == 0 {
            s.lemma_len0_is_empty();
        }
    }
    match g.group_type {
        GroupType::Exact(e) => {
            if 1 <= e <= n {
                let w = a.take(e as int).to_set();
                assert(a.take(e as int).no_duplicates());
                a.take(e as int).unique_seq_to_set();
                assert(w.subset_of(members)) by {
                    assert forall|x: usize| w.contains(x) implies members.contains(x) by {
                        let k = choose|k: int| 0 <= k < e && a.take(e as int)[k] == x;
                        assert(a[k] == x);
                    }
                }
                assert(a.take(e as int)[0] == a[0]);
                assert(w.contains(a[0]));
                assert(g.valid_with(w));
                assert(!has_error(d)) by {
                    if has_error(d) {
                        let i = choose|i: int| 0 <= i < d.len() && d[i].level == Level::Error;
                    }
                }
            } else {
                assert(has_error(d)) by {
                    let r = range_diagnostics(n, e, g.span);
                    assert(d[r.len() as int].level == Level::Error || d[r.len() as int + 1].level
                        == Level::Error);
                }
            }
        },
        GroupType::AtLeast(e) => {
            if e <= n {
                assert(members.contains(a[0]));
                assert(members.intersect(members) =~= members);
                assert(g.valid_with(members));
                assert(!has_error(d)) by {
                    if has_error(d) {
                        let i = choose|i: int| 0 <= i < d.len() && d[i].level == Level::Error;
                    }
                }
            } else {
                assert(has_error(d)) by {
                    let r = range_diagnostics(n, e, g.span);
                    assert(d[r.len() as int].level == Level::Error || d[r.len() as int + 1].level
                        == Level::Error);
                }
            }
        },
        GroupType::AtMost(e) => {
            if e >= 1 {
                let w = set![a[0]];
                assert(w.subset_of(members));
                assert(w.len() == 1);
                assert(g.valid_with(w));
                assert(!has_error(d)) by {
                    if has_error(d) {
                        let i = choose|i: int| 0 <= i < d.len() && d[i].level == Level::Error;
                    }
                }
            } else {
                assert(has_error(d)) by {
                    let r = range_diagnostics(n, e, g.span);
                    assert(d[r.len() as int].level == Level::Error);
                }
            }
        },
    }
}

} // verus!
