//! How many records carry each package name, and the first name to reach the
//! highest count.
use vstd::prelude::*;

verus! {

/// Pairs of a package name and the number of records seen with it.
pub type CountsView = Seq<(Seq<char>, nat)>;

/// The value of a version counter: the counts and the leader with its count.
pub struct VersionsView {
    pub counts: CountsView,
    pub leader: (Seq<char>, nat),
}

struct NameCount {
    name: String,
    count: u64,
}

/// Per-name record counts, in order of first sight, with the running leader.
pub struct VersionCounter {
    entries: Vec<NameCount>,
    leader_name: String,
    leader_count: u64,
}

impl View for VersionCounter {
    type V = VersionsView;

    closed spec fn view(&self) -> VersionsView {
        VersionsView {
            counts: Seq::new(
                self.entries@.len(),
                |i: int| (self.entries@[i].name@, self.entries@[i].count as nat),
            ),
            leader: (self.leader_name@, self.leader_count as nat),
        }
    }
}

/// No name stands twice.
pub open spec fn counts_wf(c: CountsView) -> bool {
    forall|i: int, j: int| 0 <= i < c.len() && 0 <= j < c.len() && i != j ==> c[i].0 != c[j].0
}

/// Whether `n` has been counted.
pub open spec fn has_name(c: CountsView, n: Seq<char>) -> bool {
    exists|i: int| 0 <= i < c.len() && c[i].0 == n
}

/// The position of `n`'s count, where it has one.
pub open spec fn name_pos(c: CountsView, n: Seq<char>) -> int {
    choose|i: int| 0 <= i < c.len() && c[i].0 == n
}

/// The number of records seen with name `n`.
pub open spec fn count_of(c: CountsView, n: Seq<char>) -> nat {
    if has_name(c, n) {
        c[name_pos(c, n)].1
    } else {
        0
    }
}

/// The counts after one more record named `n`.
pub open spec fn counts_step(c: CountsView, n: Seq<char>) -> CountsView {
    if has_name(c, n) {
        c.update(name_pos(c, n), (n, count_of(c, n) + 1))
    } else {
        c.push((n, 1))
    }
}

/// After one more record named `m`, the count of `m` is one more and every
/// other count is as it was.
pub proof fn lemma_counts_step(c: CountsView, m: Seq<char>, n: Seq<char>)
    requires
        counts_wf(c),
    ensures
        counts_wf(counts_step(c, m)),
        count_of(counts_step(c, m), n) == if n == m {
            count_of(c, n) + 1
        } else {
            count_of(c, n)
        },
{
    let c2 = counts_step(c, m);
    if has_name(c, m) {
        let p = name_pos(c, m);
        assert(c2[p].0 == m);
        assert(counts_wf(c2));
        if n == m {
            assert(has_name(c2, m));
            assert(name_pos(c2, m) == p);
        } else if has_name(c, n) {
            let q = name_pos(c, n);
            assert(c2[q].0 == n);
            assert(has_name(c2, n));
            assert(name_pos(c2, n) == q);
        } else {
            assert(!has_name(c2, n)) by {
                if has_name(c2, n) {
                    let q = name_pos(c2, n);
                    assert(c[q].0 == n);
                }
            }
        }
    } else {
        let p = c.len() as int;
        assert(c2[p].0 == m);
        assert(counts_wf(c2));
        if n == m {
            assert(has_name(c2, m));
            assert(name_pos(c2, m) == p);
        } else if has_name(c, n) {
            let q = name_pos(c, n);
            assert(c2[q].0 == n);
            assert(has_name(c2, n));
            assert(name_pos(c2, n) == q);
        } else {
            assert(!has_name(c2, n)) by {
                if has_name(c2, n) {
                    let q = name_pos(c2, n);
                    assert(c[q].0 == n);
                }
            }
        }
    }
}

/// The counter after one more record named `n`: its count goes up by one, and
/// it becomes the leader when that count strictly exceeds the leader's.
pub open spec fn versions_step(v: VersionsView, n: Seq<char>) -> VersionsView {
    let k = count_of(v.counts, n) + 1;
    VersionsView {
        counts: counts_step(v.counts, n),
        leader: if k > v.leader.1 {
            (n, k)
        } else {
            v.leader
        },
    }
}

/// The counter before any record.
pub open spec fn empty_versions() -> VersionsView {
    VersionsView { counts: Seq::empty(), leader: (Seq::empty(), 0) }
}

impl VersionCounter {
    pub open spec fn wf(&self) -> bool {
        counts_wf(self@.counts)
    }

    pub fn new() -> (r: VersionCounter)
        ensures
            r.wf(),
            r@ == empty_versions(),
    {
        let r = VersionCounter { entries: Vec::new(), leader_name: String::new(), leader_count: 0 };
        assert(r@.counts =~= Seq::<(Seq<char>, nat)>::empty());
        r
    }

    /// Counts one more record named `name`.
    pub fn observe(&mut self, name: &String)
        requires
            old(self).wf(),
            count_of(old(self)@.counts, name@) < u64::MAX,
        ensures
            final(self).wf(),
            final(self)@ == versions_step(old(self)@, name@),
    {
        let ghost c = self@.counts;
        let n = self.entries.len();
        let mut i: usize = 0;
        while i < n
            invariant
                n == self.entries.len(),
                i <= n,
                self@ == old(self)@,
                c == old(self)@.counts,
                counts_wf(c),
                count_of(c, name@) < u64::MAX,
                forall|j: int| 0 <= j < i ==> c[j].0 != name@,
            decreases n - i,
        {
            if self.entries[i].name.eq(name) {
                assert(c[i as int].0 == name@);
                assert(has_name(c, name@));
                assert(name_pos(c, name@) == i);
                let mut e = self.entries.remove(i);
                e.count = e.count + 1;
                let k = e.count;
                self.entries.insert(i, e);
                assert(self@.counts =~= c.update(i as int, (name@, count_of(c, name@) + 1)));
                if k > self.leader_count {
                    self.leader_name = name.clone();
                    self.leader_count = k;
                }
                return;
            }
            i += 1;
        }
        assert(!has_name(c, name@));
        self.entries.push(NameCount { name: name.clone(), count: 1 });
        assert(self@.counts =~= c.push((name@, 1)));
        if 1 > self.leader_count {
            self.leader_name = name.clone();
            self.leader_count = 1;
        }
    }

    /// The leading name and its count.
    pub fn leader(&self) -> (r: (String, u64))
        ensures
            r.0@ == self@.leader.0,
            r.1 as nat == self@.leader.1,
    {
        (self.leader_name.clone(), self.leader_count)
    }
}

} // verus!
