use vstd::prelude::*;

use crate::text::chars_of;

verus! {

broadcast use vstd::seq_lib::group_to_multiset_ensures;

/// A name and how often it was seen.
#[derive(Debug, Clone, PartialEq, Eq)]
pub struct RankedCount {
    pub name: String,
    pub count: u64,
}

/// Whether `a` sorts before `b` in the order of their characters' code
/// points (which is the byte order of their UTF-8 forms).
pub open spec fn name_lt(a: Seq<char>, b: Seq<char>) -> bool
    decreases a.len(),
{
    if b.len() == 0 {
        false
    } else if a.len() == 0 {
        true
    } else if a[0] != b[0] {
        (a[0] as int) < (b[0] as int)
    } else {
        name_lt(a.drop_first(), b.drop_first())
    }
}

/// Something ranked by a count and a name.
pub trait Rankable: Sized {
    /// The count it is ranked by.
    spec fn rank_count(&self) -> u64;

    /// The name that breaks ties.
    spec fn rank_name(&self) -> Seq<char>;

    /// The count it is ranked by.
    fn count_of(&self) -> (r: u64)
        ensures
            r == self.rank_count(),
    ;

    /// The name that breaks ties.
    fn name_of(&self) -> (r: &str)
        ensures
            r@ == self.rank_name(),
    ;
}

impl Rankable for RankedCount {
    open spec fn rank_count(&self) -> u64 {
        self.count
    }

    open spec fn rank_name(&self) -> Seq<char> {
        self.name@
    }

    fn count_of(&self) -> (r: u64) {
        self.count
    }

    fn name_of(&self) -> (r: &str) {
        self.name.as_str()
    }
}

/// Whether `a` ranks before `b`: more frequent first, then by name.
pub open spec fn ranks_before<T: Rankable>(a: T, b: T) -> bool {
    a.rank_count() > b.rank_count() || (a.rank_count() == b.rank_count() && name_lt(
        a.rank_name(),
        b.rank_name(),
    ))
}

/// Whether entries are in rank order: no entry ranks before an earlier one.
pub open spec fn is_ranked<T: Rankable>(entries: Seq<T>) -> bool {
    forall|i: int, j: int| 0 <= i < j < entries.len() ==> !ranks_before(#[trigger] entries[j], #[trigger] entries[i])
}

/// How many of the names equal `name`.
pub open spec fn occurrences(names: Seq<Seq<char>>, name: Seq<char>) -> nat
    decreases names.len(),
{
    if names.len() == 0 {
        0
    } else {
        occurrences(names.drop_last(), name) + if names.last() == name {
            1nat
        } else {
            0nat
        }
    }
}

/// Whether `counts` holds each of the names once, with how often it occurs.
pub open spec fn counts_names(counts: Seq<RankedCount>, names: Seq<Seq<char>>) -> bool {
    &&& forall|i: int, j: int| 0 <= i < j < counts.len() ==> (#[trigger] counts[i]).name@ != (#[trigger] counts[j]).name@
    &&& forall|i: int| 0 <= i < counts.len() ==> (#[trigger] counts[i]).count == occurrences(names, counts[i].name@)
    &&& forall|i: int| 0 <= i < counts.len() ==> occurrences(names, (#[trigger] counts[i]).name@) > 0
    &&& forall|k: int| 0 <= k < names.len() ==> exists|i: int| 0 <= i < counts.len() && (#[trigger] counts[i]).name@ == #[trigger] names[k]
}

/// Whether `a` sorts before `b` by code point.
pub fn name_less(a: &str, b: &str) -> (r: bool)
    ensures
        r == name_lt(a@, b@),
{
    let x = chars_of(a);
    let y = chars_of(b);
    let mut i: usize = 0;
    assert(x@.skip(0) =~= x@);
    assert(y@.skip(0) =~= y@);
    while i < x.len() && i < y.len()
        invariant
            x@ == a@,
            y@ == b@,
            i <= x@.len(),
            i <= y@.len(),
            name_lt(a@, b@) == name_lt(x@.skip(i as int), y@.skip(i as int)),
        decreases x@.len() - i,
    {
        assert(x@.skip(i as int)[0] == x@[i as int]);
        assert(y@.skip(i as int)[0] == y@[i as int]);
        if x[i] != y[i] {
            return x[i] < y[i];
        }
        assert(x@.skip(i as int).drop_first() =~= x@.skip(i + 1));
        assert(y@.skip(i as int).drop_first() =~= y@.skip(i + 1));
        i = i + 1;
    }
    if i == y.len() {
        assert(y@.skip(i as int).len() == 0);
        false
    } else {
        assert(x@.skip(i as int).len() == 0);
        true
    }
}

/// Whether `a` ranks before `b`.
pub fn ranks_ahead<T: Rankable>(a: &T, b: &T) -> (r: bool)
    ensures
        r == ranks_before(*a, *b),
{
    let ca = a.count_of();
    let cb = b.count_of();
    ca > cb || (ca == cb && name_less(a.name_of(), b.name_of()))
}

/// Code-point order is a strict order.
pub proof fn lemma_name_lt_order(a: Seq<char>, b: Seq<char>, c: Seq<char>)
    ensures
        !name_lt(a, a),
        name_lt(a, b) ==> !name_lt(b, a),
        name_lt(a, b) && name_lt(b, c) ==> name_lt(a, c),
        a != b ==> name_lt(a, b) || name_lt(b, a),
    decreases a.len(),
{
    if a.len() > 0 && b.len() > 0 && c.len() > 0 {
        lemma_name_lt_order(a.drop_first(), b.drop_first(), c.drop_first());
    } else if a.len() > 0 && b.len() > 0 {
        lemma_name_lt_order(a.drop_first(), b.drop_first(), b.drop_first());
    } else if a.len() > 0 {
        lemma_name_lt_order(a.drop_first(), a.drop_first(), a.drop_first());
    }
    if a.len() > 0 && b.len() > 0 && a[0] == b[0] && a != b {
        assert(a.drop_first() != b.drop_first()) by {
            if a.drop_first() == b.drop_first() {
                assert(a =~= seq![a[0]] + a.drop_first());
                assert(b =~= seq![b[0]] + b.drop_first());
            }
        }
    }
    if a.len() == 0 && b.len() == 0 {
        assert(a =~= b);
    }
    if a.len() > 0 && b.len() > 0 && a[0] != b[0] {
        assert((a[0] as int) != (b[0] as int));
    }
}

/// The views of names.
pub open spec fn name_views(names: Seq<String>) -> Seq<Seq<char>> {
    names.map(|i: int, s: String| s@)
}

fn find_name(counts: &Vec<RankedCount>, name: &str) -> (r: Option<usize>)
    ensures
        match r {
            Some(i) => i < counts@.len() && counts@[i as int].name@ == name@,
            None => forall|i: int| 0 <= i < counts@.len() ==> (#[trigger] counts@[i]).name@ != name@,
        },
{
    let mut i: usize = 0;
    while i < counts.len()
        invariant
            i <= counts@.len(),
            forall|k: int| 0 <= k < i ==> (#[trigger] counts@[k]).name@ != name@,
        decreases counts@.len() - i,
    {
        if crate::platform::text_eq(counts[i].name.as_str(), name) {
            return Some(i);
        }
        i = i + 1;
    }
    None
}

/// Counts how often each name occurs: one entry per distinct name, in the
/// order names first appear.
pub fn count_names(names: &[String]) -> (r: Vec<RankedCount>)
    ensures
        counts_names(r@, name_views(names@)),
{
    let ghost all = name_views(names@);
    let mut counts: Vec<RankedCount> = Vec::new();
    let mut i: usize = 0;
    while i < names.len()
        invariant
            all == name_views(names@),
            i <= names@.len(),
            counts@.len() <= i,
            counts_names(counts@, all.take(i as int)),
        decreases names@.len() - i,
    {
        let ghost before = counts@;
        let ghost prefix = all.take(i as int);
        let ghost next = all.take(i + 1);
        assert(next.drop_last() =~= prefix);
        assert(next.last() == names@[i as int]@);
        let name = &names[i];
        match find_name(&counts, name.as_str()) {
            Some(k) => {
                let c = counts[k].count;
                assert(c == occurrences(prefix, name@));
                assert(occurrences(prefix, name@) <= prefix.len()) by {
                    lemma_occurrences_bound(prefix, name@);
                }
                let mut entry = counts.remove(k);
                entry.count = c + 1;
                counts.insert(k, entry);
                proof {
                    assert forall|j: int| 0 <= j < counts@.len() && j != k implies (#[trigger] counts@[j]) == before[j] by {}
                    assert forall|j: int| 0 <= j < counts@.len() implies (#[trigger] counts@[j]).count == occurrences(next, counts@[j].name@) by {
                        if j != k {
                            assert(counts@[j] == before[j]);
                        }
                    }
                    assert forall|x: int| 0 <= x < next.len() implies exists|j: int| 0 <= j < counts@.len() && (#[trigger] counts@[j]).name@ == #[trigger] next[x] by {
                        if x < i {
                            assert(next[x] == prefix[x]);
                            let j = choose|j: int| 0 <= j < before.len() && (#[trigger] before[j]).name@ == prefix[x];
                            if j != k {
                                assert(counts@[j] == before[j]);
                            } else {
                                assert(counts@[j].name@ == before[j].name@);
                            }
                            assert(counts@[j].name@ == next[x]);
                        } else {
                            assert(counts@[k as int].name@ == next[x]);
                        }
                    }
                }
            },
            None => {
                counts.push(RankedCount { name: name.clone(), count: 1 });
                proof {
                    assert(occurrences(prefix, name@) == 0) by {
                        if occurrences(prefix, name@) > 0 {
                            lemma_occurs_somewhere(prefix, name@);
                            let x = choose|x: int| 0 <= x < prefix.len() && prefix[x] == name@;
                            let j = choose|j: int| 0 <= j < before.len() && (#[trigger] before[j]).name@ == #[trigger] prefix[x];
                        }
                    }
                    assert forall|j: int| 0 <= j < counts@.len() implies (#[trigger] counts@[j]).count == occurrences(next, counts@[j].name@) by {
                        if j < before.len() {
                            assert(counts@[j] == before[j]);
                        }
                    }
                    assert forall|x: int| 0 <= x < next.len() implies exists|j: int| 0 <= j < counts@.len() && (#[trigger] counts@[j]).name@ == #[trigger] next[x] by {
                        if x < i {
                            assert(next[x] == prefix[x]);
                            let j = choose|j: int| 0 <= j < before.len() && (#[trigger] before[j]).name@ == prefix[x];
                            assert(counts@[j] == before[j]);
                        } else {
                            assert(counts@[before.len() as int].name@ == next[x]);
                        }
                    }
                }
            },
        }
        i = i + 1;
    }
    assert(all.take(i as int) =~= all);
    counts
}

proof fn lemma_occurrences_bound(names: Seq<Seq<char>>, name: Seq<char>)
    ensures
        occurrences(names, name) <= names.len(),
    decreases names.len(),
{
    if names.len() > 0 {
        lemma_occurrences_bound(names.drop_last(), name);
    }
}

proof fn lemma_occurs_somewhere(names: Seq<Seq<char>>, name: Seq<char>)
    requires
        occurrences(names, name) > 0,
    ensures
        exists|x: int| 0 <= x < names.len() && names[x] == name,
    decreases names.len(),
{
    if names.last() != name {
        lemma_occurs_somewhere(names.drop_last(), name);
        let x = choose|x: int| 0 <= x < names.drop_last().len() && names.drop_last()[x] == name;
        assert(names[x] == name);
    } else {
        assert(names[names.len() - 1] == name);
    }
}

/// Sorts entries into rank order: more frequent first, ties by name.
pub fn rank<T: Rankable>(entries: Vec<T>) -> (r: Vec<T>)
    ensures
        is_ranked(r@),
        r@.to_multiset() == entries@.to_multiset(),
{
    let mut sorted: Vec<T> = Vec::new();
    let mut rest = entries;
    let ghost original = rest@;
    while rest.len() > 0
        invariant
            is_ranked(sorted@),
            sorted@.to_multiset().add(rest@.to_multiset()) == original.to_multiset(),
        decreases rest@.len(),
    {
        let ghost before_rest = rest@;
        let item = rest.pop().unwrap();
        assert(before_rest =~= rest@.push(item));
        let mut pos: usize = 0;
        while pos < sorted.len() && !ranks_ahead(&item, &sorted[pos])
            invariant
                pos <= sorted@.len(),
                forall|k: int| 0 <= k < pos ==> !ranks_before(item, #[trigger] sorted@[k]),
            decreases sorted@.len() - pos,
        {
            pos = pos + 1;
        }
        let ghost before = sorted@;
        proof {
            assert forall|k: int| pos <= k < before.len() implies !ranks_before(#[trigger] before[k], item) by {
                if pos < before.len() {
                    assert(ranks_before(item, before[pos as int]));
                    assert(!ranks_before(before[k], before[pos as int]) || k == pos);
                    lemma_name_lt_order(item.rank_name(), before[pos as int].rank_name(), before[k].rank_name());
                    lemma_name_lt_order(before[k].rank_name(), item.rank_name(), before[pos as int].rank_name());
                    lemma_name_lt_order(before[pos as int].rank_name(), before[k].rank_name(), item.rank_name());
                    lemma_name_lt_order(before[k].rank_name(), before[pos as int].rank_name(), item.rank_name());
                    lemma_name_lt_order(item.rank_name(), before[k].rank_name(), before[pos as int].rank_name());
                }
            }
            assert forall|k: int| 0 <= k < pos implies !ranks_before(item, #[trigger] before[k]) by {}
        }
        sorted.insert(pos, item);
        proof {
            assert(sorted@ == before.insert(pos as int, item));
            assert forall|i: int, j: int| 0 <= i < j < sorted@.len() implies !ranks_before(
                #[trigger] sorted@[j],
                #[trigger] sorted@[i],
            ) by {
                if i < pos && j < pos {
                    assert(sorted@[i] == before[i] && sorted@[j] == before[j]);
                } else if i < pos && j == pos {
                    assert(sorted@[i] == before[i]);
                    lemma_name_lt_order(item.rank_name(), before[i].rank_name(), item.rank_name());
                } else if i < pos && j > pos {
                    assert(sorted@[i] == before[i] && sorted@[j] == before[j - 1]);
                } else if i == pos {
                    assert(sorted@[j] == before[j - 1]);
                } else {
                    assert(sorted@[i] == before[i - 1] && sorted@[j] == before[j - 1]);
                }
            }
            vstd::seq_lib::to_multiset_insert(before, pos as int, item);
            vstd::seq_lib::to_multiset_build(rest@, item);
            assert(sorted@.to_multiset().add(rest@.to_multiset()) =~= original.to_multiset());
        }
    }
    assert(rest@.to_multiset() =~= vstd::multiset::Multiset::<T>::empty()) by {
        assert(rest@ =~= Seq::<T>::empty());
    }
    assert(sorted@.to_multiset().add(vstd::multiset::Multiset::<T>::empty()) =~= sorted@.to_multiset());
    sorted
}

/// The `limit` most frequent names with their counts, most frequent first
/// and ties by name: the first `limit` entries of the ranked counts.
pub open spec fn is_top_counts(r: Seq<RankedCount>, names: Seq<Seq<char>>, limit: nat) -> bool {
    exists|counted: Seq<RankedCount>, ranked: Seq<RankedCount>|
        #![trigger counts_names(counted, names), is_ranked::<RankedCount>(ranked)]
        {
            &&& counts_names(counted, names)
            &&& ranked.to_multiset() == counted.to_multiset()
            &&& is_ranked::<RankedCount>(ranked)
            &&& r == ranked.take(
                if limit <= ranked.len() {
                    limit as int
                } else {
                    ranked.len() as int
                },
            )
        }
}

/// The `limit` most frequent names with their counts.
pub fn top_counts(names: &[String], limit: usize) -> (r: Vec<RankedCount>)
    ensures
        is_top_counts(r@, name_views(names@), limit as nat),
{
    let counted = count_names(names);
    let ghost counted_view = counted@;
    let mut ranked = rank(counted);
    let ghost ranked_view = ranked@;
    ranked.truncate(limit);
    assert(counts_names(counted_view, name_views(names@)) && is_ranked::<RankedCount>(ranked_view));
    assert(ranked@ == ranked_view.take(
        if limit <= ranked_view.len() {
            limit as int
        } else {
            ranked_view.len() as int
        },
    ));
    ranked
}

} // verus!
