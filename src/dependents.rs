//! The inverse dependency relation: for each dependency name, the distinct
//! names of the packages that list it, in the order they were first seen.
use vstd::prelude::*;

use crate::leader::{empty_leader, Leader, LeaderView};
use crate::record::{copy_strings, names};

verus! {

/// The value of an index: pairs of a dependency name and its dependents.
pub type IndexView = Seq<(Seq<char>, Seq<Seq<char>>)>;

struct DepEntry {
    name: String,
    dependents: Vec<String>,
}

/// The dependents of every dependency seen so far, in order of first mention.
pub struct DependentsIndex {
    entries: Vec<DepEntry>,
}

impl View for DependentsIndex {
    type V = IndexView;

    closed spec fn view(&self) -> IndexView {
        Seq::new(
            self.entries@.len(),
            |i: int| (self.entries@[i].name@, names(self.entries@[i].dependents@)),
        )
    }
}

/// No dependency name stands twice, and no list holds a dependent twice.
pub open spec fn index_wf(idx: IndexView) -> bool {
    &&& forall|i: int, j: int|
        0 <= i < idx.len() && 0 <= j < idx.len() && i != j ==> idx[i].0 != idx[j].0
    &&& forall|i: int| 0 <= i < idx.len() ==> (#[trigger] idx[i]).1.no_duplicates()
}

/// Whether `d` has an entry.
pub open spec fn has_key(idx: IndexView, d: Seq<char>) -> bool {
    exists|i: int| 0 <= i < idx.len() && idx[i].0 == d
}

/// The position of `d`'s entry, where it has one.
pub open spec fn key_pos(idx: IndexView, d: Seq<char>) -> int {
    choose|i: int| 0 <= i < idx.len() && idx[i].0 == d
}

/// The index after recording `n` as a dependent of `d`; a dependent already
/// listed is not listed again.
pub open spec fn insert_dependent(idx: IndexView, d: Seq<char>, n: Seq<char>) -> IndexView {
    if has_key(idx, d) {
        let i = key_pos(idx, d);
        if idx[i].1.contains(n) {
            idx
        } else {
            idx.update(i, (d, idx[i].1.push(n)))
        }
    } else {
        idx.push((d, seq![n]))
    }
}

/// The index after recording `n` as a dependent of each name of `deps`, in order.
pub open spec fn insert_dependent_all(idx: IndexView, deps: Seq<Seq<char>>, n: Seq<char>) -> IndexView
    decreases deps.len(),
{
    if deps.len() == 0 {
        idx
    } else {
        insert_dependent(insert_dependent_all(idx, deps.drop_last(), n), deps.last(), n)
    }
}

/// The position of the first entry with the most dependents, or -1 for an empty index.
pub open spec fn best_pos(idx: IndexView) -> int
    decreases idx.len(),
{
    if idx.len() == 0 {
        -1
    } else {
        let b = best_pos(idx.drop_last());
        if b < 0 || idx.last().1.len() > idx[b].1.len() {
            idx.len() - 1
        } else {
            b
        }
    }
}

/// The leader that an index reports: the first entry with the most
/// dependents, or the empty leader.
pub open spec fn best_leader(idx: IndexView) -> LeaderView {
    let b = best_pos(idx);
    if b < 0 {
        empty_leader()
    } else {
        LeaderView { name: idx[b].0, count: idx[b].1.len(), items: idx[b].1 }
    }
}

/// The dependents recorded for `d`; none where `d` has no entry.
pub open spec fn dependents_in(idx: IndexView, d: Seq<char>) -> Seq<Seq<char>> {
    if has_key(idx, d) {
        idx[key_pos(idx, d)].1
    } else {
        Seq::empty()
    }
}

/// Recording `n` under `d` gives `d` an entry, adds `n` to `d`'s dependents
/// and changes nothing else.
pub proof fn lemma_insert_dependent(idx: IndexView, d: Seq<char>, n: Seq<char>, d2: Seq<char>)
    requires
        index_wf(idx),
    ensures
        index_wf(insert_dependent(idx, d, n)),
        has_key(insert_dependent(idx, d, n), d2) <==> has_key(idx, d2) || d2 == d,
        forall|m: Seq<char>|
            dependents_in(insert_dependent(idx, d, n), d2).contains(m) <==> dependents_in(
                idx,
                d2,
            ).contains(m) || (d2 == d && m == n),
{
    let idx2 = insert_dependent(idx, d, n);
    if has_key(idx, d) {
        let p = key_pos(idx, d);
        if !idx[p].1.contains(n) {
            assert(idx2[p].1 == idx[p].1.push(n));
            assert forall|i: int| 0 <= i < idx2.len() implies (#[trigger] idx2[i]).1.no_duplicates() by {
                if i == p {
                    assert forall|a: int, b: int|
                        0 <= a < idx2[i].1.len() && 0 <= b < idx2[i].1.len() && a != b
                        implies idx2[i].1[a] != idx2[i].1[b] by {
                        if a == idx[p].1.len() {
                            assert(idx[p].1.contains(idx[p].1[b]));
                        } else if b == idx[p].1.len() {
                            assert(idx[p].1.contains(idx[p].1[a]));
                        }
                    }
                }
            }
        }
        assert(idx2[p].0 == d);
        assert(index_wf(idx2));
        if d2 == d {
            assert(has_key(idx2, d));
            assert(key_pos(idx2, d) == p);
            assert forall|m: Seq<char>|
                dependents_in(idx2, d2).contains(m) <==> idx[p].1.contains(m) || m == n by {
                let a = idx[p].1;
                if !a.contains(n) {
                    assert(idx2[p].1 == a.push(n));
                    if m == n {
                        assert(a.push(n)[a.len() as int] == n);
                    }
                    if a.contains(m) {
                        let j = choose|j: int| 0 <= j < a.len() && a[j] == m;
                        assert(a.push(n)[j] == m);
                    }
                    if a.push(n).contains(m) && m != n {
                        let j = choose|j: int| 0 <= j < a.len() + 1 && a.push(n)[j] == m;
                        assert(a[j] == m);
                    }
                }
            }
        } else if has_key(idx, d2) {
            let q = key_pos(idx, d2);
            assert(idx2[q].0 == d2);
            assert(has_key(idx2, d2));
            assert(key_pos(idx2, d2) == q);
        } else {
            assert(!has_key(idx2, d2)) by {
                if has_key(idx2, d2) {
                    let q = key_pos(idx2, d2);
                    assert(idx[q].0 == d2);
                }
            }
        }
    } else {
        let p = idx.len() as int;
        assert(idx2[p].0 == d);
        assert(idx2[p].1 == seq![n]);
        assert(idx2[p].1.no_duplicates());
        assert(index_wf(idx2));
        if d2 == d {
            assert(has_key(idx2, d));
            assert(key_pos(idx2, d) == p);
            assert forall|m: Seq<char>| dependents_in(idx2, d2).contains(m) <==> m == n by {
                if m == n {
                    assert(seq![n][0] == n);
                }
            }
        } else if has_key(idx, d2) {
            let q = key_pos(idx, d2);
            assert(idx2[q].0 == d2);
            assert(has_key(idx2, d2));
            assert(key_pos(idx2, d2) == q);
        } else {
            assert(!has_key(idx2, d2)) by {
                if has_key(idx2, d2) {
                    let q = key_pos(idx2, d2);
                    assert(idx[q].0 == d2);
                }
            }
        }
    }
}

/// Recording `n` under each name of `deps` gives each of them an entry, adds
/// `n` to each one's dependents and changes nothing else.
pub proof fn lemma_insert_dependent_all(
    idx: IndexView,
    deps: Seq<Seq<char>>,
    n: Seq<char>,
    d2: Seq<char>,
)
    requires
        index_wf(idx),
    ensures
        index_wf(insert_dependent_all(idx, deps, n)),
        has_key(insert_dependent_all(idx, deps, n), d2) <==> has_key(idx, d2) || deps.contains(
            d2,
        ),
        forall|m: Seq<char>|
            dependents_in(insert_dependent_all(idx, deps, n), d2).contains(m) <==> dependents_in(
                idx,
                d2,
            ).contains(m) || (deps.contains(d2) && m == n),
    decreases deps.len(),
{
    if deps.len() > 0 {
        let rest = deps.drop_last();
        lemma_insert_dependent_all(idx, rest, n, d2);
        let mid = insert_dependent_all(idx, rest, n);
        lemma_insert_dependent(mid, deps.last(), n, d2);
        assert(deps.contains(d2) <==> rest.contains(d2) || deps.last() == d2) by {
            if deps.contains(d2) && deps.last() != d2 {
                let j = choose|j: int| 0 <= j < deps.len() && deps[j] == d2;
                assert(rest[j] == d2);
            }
            if rest.contains(d2) {
                let j = choose|j: int| 0 <= j < rest.len() && rest[j] == d2;
                assert(deps[j] == d2);
            }
        }
    }
}

/// Recording `n` again under names that already list it changes nothing.
pub proof fn lemma_insert_dependent_all_listed(idx: IndexView, deps: Seq<Seq<char>>, n: Seq<char>)
    requires
        index_wf(idx),
        forall|j: int|
            0 <= j < deps.len() ==> has_key(idx, #[trigger] deps[j]) && dependents_in(
                idx,
                deps[j],
            ).contains(n),
    ensures
        insert_dependent_all(idx, deps, n) == idx,
    decreases deps.len(),
{
    if deps.len() > 0 {
        lemma_insert_dependent_all_listed(idx, deps.drop_last(), n);
        assert(deps.last() == deps[deps.len() - 1]);
    }
}

/// The reported entry has at least as many dependents as any other entry,
/// and more than every entry before it.
pub proof fn lemma_best_pos(idx: IndexView)
    ensures
        idx.len() == 0 <==> best_pos(idx) < 0,
        idx.len() > 0 ==> 0 <= best_pos(idx) < idx.len(),
        forall|k: int| 0 <= k < idx.len() ==> (#[trigger] idx[k]).1.len() <= idx[best_pos(idx)].1.len(),
        forall|k: int| 0 <= k < best_pos(idx) ==> (#[trigger] idx[k]).1.len() < idx[best_pos(idx)].1.len(),
    decreases idx.len(),
{
    if idx.len() > 0 {
        let rest = idx.drop_last();
        lemma_best_pos(rest);
        let b0 = best_pos(rest);
        let last = idx.len() - 1;
        assert forall|k: int| 0 <= k < rest.len() implies #[trigger] rest[k] == idx[k] by {}
        if b0 < 0 {
            assert(best_pos(idx) == last);
        } else {
            assert(rest[b0] == idx[b0]);
            if idx[last].1.len() > idx[b0].1.len() {
                assert(best_pos(idx) == last);
                assert forall|k: int| 0 <= k < idx.len() implies (#[trigger] idx[k]).1.len()
                    <= idx[best_pos(idx)].1.len() by {
                    if k < last {
                        assert(rest[k] == idx[k]);
                    }
                }
                assert forall|k: int| 0 <= k < best_pos(idx) implies (#[trigger] idx[k]).1.len()
                    < idx[best_pos(idx)].1.len() by {
                    assert(rest[k] == idx[k]);
                }
            } else {
                assert(best_pos(idx) == b0);
                assert forall|k: int| 0 <= k < idx.len() implies (#[trigger] idx[k]).1.len()
                    <= idx[best_pos(idx)].1.len() by {
                    if k < last {
                        assert(rest[k] == idx[k]);
                    }
                }
                assert forall|k: int| 0 <= k < best_pos(idx) implies (#[trigger] idx[k]).1.len()
                    < idx[best_pos(idx)].1.len() by {
                    assert(rest[k] == idx[k]);
                }
            }
        }
    }
}

/// Whether `v` holds a string equal to `s`.
fn contains_string(v: &Vec<String>, s: &String) -> (r: bool)
    ensures
        r == names(v@).contains(s@),
{
    let n = v.len();
    let mut i: usize = 0;
    while i < n
        invariant
            n == v.len(),
            i <= n,
            forall|j: int| 0 <= j < i ==> names(v@)[j] != s@,
        decreases n - i,
    {
        if v[i].eq(s) {
            assert(names(v@)[i as int] == s@);
            return true;
        }
        i += 1;
    }
    false
}

impl DependentsIndex {
    pub open spec fn wf(&self) -> bool {
        index_wf(self@)
    }

    pub fn new() -> (r: DependentsIndex)
        ensures
            r.wf(),
            r@ == Seq::<(Seq<char>, Seq<Seq<char>>)>::empty(),
    {
        let r = DependentsIndex { entries: Vec::new() };
        assert(r@ =~= Seq::<(Seq<char>, Seq<Seq<char>>)>::empty());
        r
    }

    /// Records `name` as a dependent of `dep`.
    pub fn insert(&mut self, dep: &String, name: &String)
        requires
            old(self).wf(),
        ensures
            final(self).wf(),
            final(self)@ == insert_dependent(old(self)@, dep@, name@),
    {
        let ghost idx = self@;
        let n = self.entries.len();
        let mut i: usize = 0;
        while i < n
            invariant
                n == self.entries.len(),
                i <= n,
                self@ == idx,
                idx == old(self)@,
                index_wf(idx),
                forall|j: int| 0 <= j < i ==> idx[j].0 != dep@,
            decreases n - i,
        {
            if self.entries[i].name.eq(dep) {
                assert(idx[i as int].0 == dep@);
                assert(has_key(idx, dep@));
                assert(key_pos(idx, dep@) == i);
                assert(idx[i as int].1 == names(self.entries@[i as int].dependents@));
                if !contains_string(&self.entries[i].dependents, name) {
                    let mut e = self.entries.remove(i);
                    let ghost before = names(e.dependents@);
                    e.dependents.push(name.clone());
                    assert(names(e.dependents@) =~= before.push(name@));
                    self.entries.insert(i, e);
                    assert(self@ =~= idx.update(i as int, (dep@, idx[i as int].1.push(name@))));
                }
                return;
            }
            i += 1;
        }
        let mut ds: Vec<String> = Vec::new();
        ds.push(name.clone());
        assert(names(ds@) =~= seq![name@]);
        self.entries.push(DepEntry { name: dep.clone(), dependents: ds });
        assert(self@ =~= idx.push((dep@, seq![name@])));
    }

    /// Records `name` as a dependent of each dependency of `deps`, in order.
    pub fn insert_all(&mut self, deps: &Vec<String>, name: &String)
        requires
            old(self).wf(),
        ensures
            final(self).wf(),
            final(self)@ == insert_dependent_all(old(self)@, names(deps@), name@),
    {
        let ghost start = self@;
        let n = deps.len();
        let mut i: usize = 0;
        while i < n
            invariant
                n == deps.len(),
                i <= n,
                self.wf(),
                self@ == insert_dependent_all(start, names(deps@).take(i as int), name@),
            decreases n - i,
        {
            assert(names(deps@).take(i + 1).drop_last() =~= names(deps@).take(i as int));
            self.insert(&deps[i], name);
            i += 1;
        }
        assert(names(deps@).take(n as int) =~= names(deps@));
    }

    /// The first dependency with the most dependents, as a leader whose list
    /// is its dependents; the empty leader for an empty index.
    pub fn best(&self) -> (r: Leader)
        ensures
            r@ == best_leader(self@),
    {
        let n = self.entries.len();
        if n == 0 {
            return Leader::new();
        }
        let mut best: usize = 0;
        let mut i: usize = 1;
        assert(self@.take(1).drop_last() =~= self@.take(0));
        assert(self@.take(0) =~= Seq::<(Seq<char>, Seq<Seq<char>>)>::empty());
        assert(best_pos(self@.take(0)) == -1);
        assert(best_pos(self@.take(1)) == 0);
        while i < n
            invariant
                n == self.entries.len(),
                1 <= i <= n,
                best < i,
                best_pos(self@.take(i as int)) == best,
            decreases n - i,
        {
            assert(self@.take(i + 1).drop_last() =~= self@.take(i as int));
            if self.entries[i].dependents.len() > self.entries[best].dependents.len() {
                best = i;
            }
            i += 1;
        }
        assert(self@.take(n as int) =~= self@);
        Leader::from_list(self.entries[best].name.clone(), copy_strings(&self.entries[best].dependents))
    }
}

} // verus!
