//! What holds of the statistics of every corpus.
use vstd::prelude::*;

use crate::dependents::{
    best_leader, best_pos, dependents_in, has_key, index_wf, insert_dependent_all, key_pos,
    lemma_best_pos, lemma_insert_dependent_all, lemma_insert_dependent_all_listed, IndexView,
};
use crate::engine::{
    corpus_stats, empty_stats, failed_lines, ok_records, report_of, stats_after, StatsView,
};
use crate::record::RecordView;

verus! {

/// The names of the records of `s` that list `d` among their dependencies.
pub open spec fn dependents_of(s: Seq<RecordView>, d: Seq<char>) -> Set<Seq<char>> {
    Set::new(|n: Seq<char>| exists|i: int| 0 <= i < s.len() && s[i].name == n && s[i].deps.contains(d))
}

/// The reported dependency count is the largest dependency count of the
/// corpus, held by the first record that reaches it; the same holds of the
/// feature count.
pub proof fn lemma_most_dependencies(s: Seq<RecordView>)
    ensures
        forall|i: int|
            0 <= i < s.len() ==> (#[trigger] s[i]).deps.len() <= corpus_stats(
                s,
            ).most_dependencies.count,
        s.len() > 0 ==> exists|i: int|
            0 <= i < s.len() && s[i].deps.len() == corpus_stats(s).most_dependencies.count,
        corpus_stats(s).most_dependencies.count > 0 ==> exists|i: int|
            0 <= i < s.len() && s[i].name == corpus_stats(s).most_dependencies.name
                && s[i].deps == corpus_stats(s).most_dependencies.items && s[i].deps.len()
                == corpus_stats(s).most_dependencies.count && forall|j: int|
                0 <= j < i ==> (#[trigger] s[j]).deps.len() < s[i].deps.len(),
        forall|i: int|
            0 <= i < s.len() ==> (#[trigger] s[i]).features.len() <= corpus_stats(
                s,
            ).most_features.count,
        s.len() > 0 ==> exists|i: int|
            0 <= i < s.len() && s[i].features.len() == corpus_stats(s).most_features.count,
        corpus_stats(s).most_features.count > 0 ==> exists|i: int|
            0 <= i < s.len() && s[i].name == corpus_stats(s).most_features.name
                && s[i].features == corpus_stats(s).most_features.items && s[i].features.len()
                == corpus_stats(s).most_features.count && forall|j: int|
                0 <= j < i ==> (#[trigger] s[j]).features.len() < s[i].features.len(),
    decreases s.len(),
{
    if s.len() > 0 {
        let rest = s.drop_last();
        let last = s.len() - 1;
        lemma_most_dependencies(rest);
        assert forall|k: int| 0 <= k < rest.len() implies #[trigger] rest[k] == s[k] by {}
        let l0 = corpus_stats(rest).most_dependencies;
        let l = corpus_stats(s).most_dependencies;
        if s[last].deps.len() > l0.count {
            assert(s[last].name == l.name && s[last].deps == l.items);
            assert forall|j: int| 0 <= j < last implies (#[trigger] s[j]).deps.len() < s[last].deps.len() by {
                assert(rest[j] == s[j]);
            }
        } else {
            assert(l == l0);
            if rest.len() == 0 {
                assert(s[last].deps.len() == l.count);
            } else {
                let i = choose|i: int| 0 <= i < rest.len() && rest[i].deps.len() == l0.count;
                assert(s[i].deps.len() == l.count);
            }
            if l.count > 0 {
                let i = choose|i: int|
                    0 <= i < rest.len() && rest[i].name == l0.name && rest[i].deps == l0.items
                        && rest[i].deps.len() == l0.count && forall|j: int|
                        0 <= j < i ==> (#[trigger] rest[j]).deps.len() < rest[i].deps.len();
                assert(s[i] == rest[i]);
                assert forall|j: int| 0 <= j < i implies (#[trigger] s[j]).deps.len() < s[i].deps.len() by {
                    assert(rest[j] == s[j]);
                }
            }
        }
        assert forall|i: int| 0 <= i < s.len() implies (#[trigger] s[i]).deps.len() <= l.count by {
            if i < last {
                assert(rest[i] == s[i]);
            }
        }
        let f0 = corpus_stats(rest).most_features;
        let f = corpus_stats(s).most_features;
        if s[last].features.len() > f0.count {
            assert(s[last].name == f.name && s[last].features == f.items);
            assert forall|j: int| 0 <= j < last implies (#[trigger] s[j]).features.len() < s[last].features.len() by {
                assert(rest[j] == s[j]);
            }
        } else {
            assert(f == f0);
            if rest.len() == 0 {
                assert(s[last].features.len() == f.count);
            } else {
                let i = choose|i: int| 0 <= i < rest.len() && rest[i].features.len() == f0.count;
                assert(s[i].features.len() == f.count);
            }
            if f.count > 0 {
                let i = choose|i: int|
                    0 <= i < rest.len() && rest[i].name == f0.name && rest[i].features == f0.items
                        && rest[i].features.len() == f0.count && forall|j: int|
                        0 <= j < i ==> (#[trigger] rest[j]).features.len() < rest[i].features.len();
                assert(s[i] == rest[i]);
                assert forall|j: int| 0 <= j < i implies (#[trigger] s[j]).features.len() < s[i].features.len() by {
                    assert(rest[j] == s[j]);
                }
            }
        }
        assert forall|i: int| 0 <= i < s.len() implies (#[trigger] s[i]).features.len() <= f.count by {
            if i < last {
                assert(rest[i] == s[i]);
            }
        }
    }
}

/// The index of a corpus has an entry for exactly the names that some record
/// depends on, and lists under each exactly the names of the records that
/// depend on it.
pub proof fn lemma_corpus_dependents(s: Seq<RecordView>, d: Seq<char>)
    ensures
        index_wf(corpus_stats(s).dependents),
        has_key(corpus_stats(s).dependents, d) <==> exists|i: int|
            0 <= i < s.len() && (#[trigger] s[i]).deps.contains(d),
        forall|m: Seq<char>|
            dependents_in(corpus_stats(s).dependents, d).contains(m) <==> dependents_of(
                s,
                d,
            ).contains(m),
    decreases s.len(),
{
    if s.len() == 0 {
        assert(corpus_stats(s).dependents =~= Seq::<(Seq<char>, Seq<Seq<char>>)>::empty());
    } else {
        let rest = s.drop_last();
        let last = s.len() - 1;
        lemma_corpus_dependents(rest, d);
        let idx0 = corpus_stats(rest).dependents;
        lemma_insert_dependent_all(idx0, s[last].deps, s[last].name, d);
        assert(corpus_stats(s).dependents == insert_dependent_all(idx0, s[last].deps, s[last].name));
        assert forall|k: int| 0 <= k < rest.len() implies #[trigger] rest[k] == s[k] by {}
        if has_key(corpus_stats(s).dependents, d) {
            if !s[last].deps.contains(d) {
                let i = choose|i: int| 0 <= i < rest.len() && (#[trigger] rest[i]).deps.contains(d);
                assert(s[i].deps.contains(d));
            }
        }
        if exists|i: int| 0 <= i < s.len() && (#[trigger] s[i]).deps.contains(d) {
            let i = choose|i: int| 0 <= i < s.len() && (#[trigger] s[i]).deps.contains(d);
            if i < last {
                assert(rest[i].deps.contains(d));
            }
        }
        assert forall|m: Seq<char>|
            dependents_in(corpus_stats(s).dependents, d).contains(m) <==> dependents_of(
                s,
                d,
            ).contains(m) by {
            if dependents_of(s, d).contains(m) {
                let i = choose|i: int|
                    0 <= i < s.len() && s[i].name == m && s[i].deps.contains(d);
                if i < last {
                    assert(rest[i].name == m && rest[i].deps.contains(d));
                    assert(dependents_of(rest, d).contains(m));
                }
            }
            if dependents_of(rest, d).contains(m) {
                let i = choose|i: int|
                    0 <= i < rest.len() && rest[i].name == m && rest[i].deps.contains(d);
                assert(s[i].name == m && s[i].deps.contains(d));
            }
        }
    }
}

/// The reported dependency has as many dependents as any name of the corpus
/// has, and what it reports is exactly the set of its dependents.
pub proof fn lemma_most_dependents(s: Seq<RecordView>)
    ensures
        forall|d: Seq<char>|
            #![trigger dependents_of(s, d)]
            dependents_of(s, d).finite() && dependents_of(s, d).len() <= report_of(
                corpus_stats(s),
            ).most_dependents.count,
        report_of(corpus_stats(s)).most_dependents.count > 0 ==> report_of(
            corpus_stats(s),
        ).most_dependents.count == dependents_of(
            s,
            report_of(corpus_stats(s)).most_dependents.name,
        ).len() && report_of(corpus_stats(s)).most_dependents.items.to_set() == dependents_of(
            s,
            report_of(corpus_stats(s)).most_dependents.name,
        ),
{
    let idx = corpus_stats(s).dependents;
    let l = report_of(corpus_stats(s)).most_dependents;
    lemma_corpus_dependents(s, Seq::empty());
    lemma_best_pos(idx);
    let b = best_pos(idx);
    assert forall|d: Seq<char>|
        #![trigger dependents_of(s, d)]
        dependents_of(s, d).finite() && dependents_of(s, d).len() <= l.count by {
        lemma_corpus_dependents(s, d);
        let ds = dependents_in(idx, d);
        assert(ds.to_set() =~= dependents_of(s, d));
        if has_key(idx, d) {
            let q = key_pos(idx, d);
            assert(idx[q].1.no_duplicates());
            ds.unique_seq_to_set();
            assert(idx[q].1.len() <= idx[b].1.len());
        } else {
            assert(ds =~= Seq::<Seq<char>>::empty());
            ds.unique_seq_to_set();
        }
    }
    if l.count > 0 {
        let k = idx[b].0;
        lemma_corpus_dependents(s, k);
        assert(has_key(idx, k));
        assert(key_pos(idx, k) == b);
        assert(dependents_in(idx, k) == l.items);
        assert(l.items.to_set() =~= dependents_of(s, k));
        l.items.unique_seq_to_set();
    }
}

/// A record whose name every one of its dependencies already lists as a
/// dependent, such as a further version of a package seen before, leaves the
/// index of dependents as it was.
pub proof fn lemma_dependent_listed_once(s: Seq<RecordView>, r: RecordView)
    requires
        forall|j: int|
            0 <= j < r.deps.len() ==> dependents_of(s, #[trigger] r.deps[j]).contains(r.name),
    ensures
        corpus_stats(s.push(r)).dependents == corpus_stats(s).dependents,
{
    let idx = corpus_stats(s).dependents;
    assert(s.push(r).drop_last() =~= s);
    assert forall|j: int|
        0 <= j < r.deps.len() implies has_key(idx, #[trigger] r.deps[j]) && dependents_in(
            idx,
            r.deps[j],
        ).contains(r.name) by {
        lemma_corpus_dependents(s, r.deps[j]);
        let i = choose|i: int|
            0 <= i < s.len() && s[i].name == r.name && s[i].deps.contains(r.deps[j]);
        assert(s[i].deps.contains(r.deps[j]));
    }
    lemma_corpus_dependents(s, Seq::empty());
    lemma_insert_dependent_all_listed(idx, r.deps, r.name);
}

/// A malformed line, wherever it stands in a file, changes no record that
/// the file yields and adds exactly one failure.
pub proof fn lemma_malformed_line_ignored(st: StatsView, ls: Seq<Option<RecordView>>, i: int)
    requires
        0 <= i <= ls.len(),
    ensures
        ok_records(ls.insert(i, None)) == ok_records(ls),
        stats_after(st, ok_records(ls.insert(i, None))) == stats_after(st, ok_records(ls)),
        failed_lines(ls.insert(i, None)).len() == failed_lines(ls).len() + 1,
    decreases ls.len(),
{
    let ls2 = ls.insert(i, None);
    if i == ls.len() {
        assert(ls2.drop_last() =~= ls);
        assert(ls2.last() is None);
    } else {
        lemma_malformed_line_ignored(st, ls.drop_last(), i);
        assert(ls2.drop_last() =~= ls.drop_last().insert(i, None));
        assert(ls2.last() == ls.last());
    }
}

/// Feeding the records of one sequence and then those of another gives the
/// statistics of the two in one sequence: files may be fed one at a time.
pub proof fn lemma_stats_after_concat(st: StatsView, a: Seq<RecordView>, b: Seq<RecordView>)
    ensures
        stats_after(stats_after(st, a), b) == stats_after(st, a + b),
    decreases b.len(),
{
    if b.len() == 0 {
        assert(a + b =~= a);
    } else {
        lemma_stats_after_concat(st, a, b.drop_last());
        assert((a + b).drop_last() =~= a + b.drop_last());
        assert((a + b).last() == b.last());
    }
}

/// Two runs over the same records report the same statistics, whether the
/// records come in one sequence or split between files.
pub proof fn lemma_report_deterministic(a: Seq<RecordView>, b: Seq<RecordView>, s: Seq<RecordView>)
    requires
        s == a + b,
    ensures
        report_of(stats_after(corpus_stats(a), b)) == report_of(corpus_stats(s)),
{
    lemma_stats_after_concat(empty_stats(), a, b);
}

} // verus!
