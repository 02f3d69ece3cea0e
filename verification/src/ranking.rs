//! Ranking of resolvers by their average latency.
//!
//! A ranking lists the entries from fastest to slowest. Entries with the same
//! average keep the order in which they were recorded, so a list of entries
//! has exactly one ranking.

use vstd::prelude::*;

verus! {

/// One resolver with the average latency that was measured for it.
#[derive(Debug, PartialEq, Eq)]
pub struct RankingEntry {
    /// Display name of the resolver.
    pub name: String,
    /// Average latency in nanoseconds.
    pub average_nanos: u64,
}

impl Clone for RankingEntry {
    fn clone(&self) -> (copy: Self)
        ensures
            copy == *self,
    {
        RankingEntry { name: self.name.clone(), average_nanos: self.average_nanos }
    }
}

/// The entries are in order of non-decreasing average latency.
pub open spec fn is_ranked(entries: Seq<RankingEntry>) -> bool {
    forall|i: int, j: int|
        0 <= i < j < entries.len() ==> entries[i].average_nanos <= entries[j].average_nanos
}

/// The test "this entry has the average `average_nanos`".
pub open spec fn has_average(average_nanos: u64) -> spec_fn(RankingEntry) -> bool {
    |entry: RankingEntry| entry.average_nanos == average_nanos
}

/// The entries with the given average, in the order in which they stand.
pub open spec fn with_average(entries: Seq<RankingEntry>, average_nanos: u64) -> Seq<
    RankingEntry,
> {
    entries.filter(has_average(average_nanos))
}

/// `ranked` holds the entries of `entries` from fastest to slowest, and those
/// of equal average in their order in `entries`.
pub open spec fn is_ranking_of(ranked: Seq<RankingEntry>, entries: Seq<RankingEntry>) -> bool {
    &&& is_ranked(ranked)
    &&& forall|average_nanos: u64| #[trigger]
        with_average(ranked, average_nanos) == with_average(entries, average_nanos)
}

/// `slot` is where an entry of the given average is placed in front of a
/// ranking: behind every strictly faster entry and before all others.
spec fn is_slot(ranked: Seq<RankingEntry>, average_nanos: u64, slot: int) -> bool {
    &&& 0 <= slot <= ranked.len()
    &&& forall|k: int| 0 <= k < slot ==> ranked[k].average_nanos < average_nanos
    &&& slot < ranked.len() ==> average_nanos <= ranked[slot].average_nanos
}

/// A ranking with `entry` placed into it: behind every strictly faster entry
/// and before all others.
pub open spec fn settle(entry: RankingEntry, ranked: Seq<RankingEntry>) -> Seq<RankingEntry>
    decreases ranked.len(),
{
    if ranked.len() == 0 || entry.average_nanos <= ranked[0].average_nanos {
        seq![entry] + ranked
    } else {
        seq![ranked[0]] + settle(entry, ranked.drop_first())
    }
}

/// The ranking of `entries`: the last entry ranks alone, and each earlier one
/// is placed in front of the ranking of those behind it.
pub open spec fn ranking_of(entries: Seq<RankingEntry>) -> Seq<RankingEntry>
    decreases entries.len(),
{
    if entries.len() == 0 {
        Seq::empty()
    } else {
        settle(entries[0], ranking_of(entries.drop_first()))
    }
}

/// Placing an entry is inserting it at its slot.
proof fn lemma_settle_inserts(entry: RankingEntry, ranked: Seq<RankingEntry>) -> (slot: int)
    ensures
        is_slot(ranked, entry.average_nanos, slot),
        settle(entry, ranked) == ranked.insert(slot, entry),
    decreases ranked.len(),
{
    if ranked.len() == 0 || entry.average_nanos <= ranked[0].average_nanos {
        0
    } else {
        let rest = ranked.drop_first();
        let inner = lemma_settle_inserts(entry, rest);
        assert forall|k: int| 0 <= k < inner + 1 implies ranked[k].average_nanos
            < entry.average_nanos by {
            if k > 0 {
                assert(ranked[k] == rest[k - 1]);
            }
        }
        inner + 1
    }
}

/// A ranking has one slot for each average.
proof fn lemma_slot_unique(ranked: Seq<RankingEntry>, average_nanos: u64, a: int, b: int)
    requires
        is_slot(ranked, average_nanos, a),
        is_slot(ranked, average_nanos, b),
    ensures
        a == b,
{
}

/// An entry inserted at its slot leaves the ranking in order.
proof fn lemma_insert_keeps_ranked(ranked: Seq<RankingEntry>, entry: RankingEntry, slot: int)
    requires
        is_ranked(ranked),
        is_slot(ranked, entry.average_nanos, slot),
    ensures
        is_ranked(ranked.insert(slot, entry)),
{
}

/// An entry inserted at its slot stands first among the entries of its own
/// average and leaves the entries of every other average as they were.
proof fn lemma_insert_with_average(
    ranked: Seq<RankingEntry>,
    entry: RankingEntry,
    slot: int,
    average_nanos: u64,
)
    requires
        is_slot(ranked, entry.average_nanos, slot),
    ensures
        with_average(ranked.insert(slot, entry), average_nanos) == if entry.average_nanos
            == average_nanos {
            seq![entry] + with_average(ranked, average_nanos)
        } else {
            with_average(ranked, average_nanos)
        },
{
    let test = has_average(average_nanos);
    let front = ranked.subrange(0, slot);
    let back = ranked.subrange(slot, ranked.len() as int);
    assert(ranked =~= front + back);
    front.lemma_filter_push(entry, test);
    if entry.average_nanos == average_nanos {
        front.lemma_all_neg_filter_empty(test);
        assert(front.filter(test).push(entry) + back.filter(test) =~= seq![entry] + (front.filter(
            test,
        ) + back.filter(test)));
    }
}

/// The ranking of any entries is in order of non-decreasing average.
pub proof fn lemma_ranking_is_ranked(entries: Seq<RankingEntry>)
    ensures
        is_ranked(ranking_of(entries)),
    decreases entries.len(),
{
    if entries.len() > 0 {
        let behind = ranking_of(entries.drop_first());
        lemma_ranking_is_ranked(entries.drop_first());
        let slot = lemma_settle_inserts(entries[0], behind);
        lemma_insert_keeps_ranked(behind, entries[0], slot);
    }
}

/// Ranking is stable: the entries of one average stand in the ranking in the
/// order in which they stood before.
pub proof fn lemma_ranking_is_stable(entries: Seq<RankingEntry>, average_nanos: u64)
    ensures
        with_average(ranking_of(entries), average_nanos) == with_average(entries, average_nanos),
    decreases entries.len(),
{
    let test = has_average(average_nanos);
    if entries.len() > 0 {
        let first = entries[0];
        let rest = entries.drop_first();
        let behind = ranking_of(rest);
        lemma_ranking_is_stable(rest, average_nanos);
        let slot = lemma_settle_inserts(first, behind);
        lemma_insert_with_average(behind, first, slot, average_nanos);
        assert(entries =~= seq![first] + rest);
        Seq::<RankingEntry>::empty().lemma_filter_push(first, test);
    }
}

/// Ranking neither drops nor adds nor changes an entry.
pub proof fn lemma_ranking_permutes(entries: Seq<RankingEntry>)
    ensures
        ranking_of(entries).to_multiset() == entries.to_multiset(),
        ranking_of(entries).len() == entries.len(),
    decreases entries.len(),
{
    broadcast use vstd::seq_lib::to_multiset_insert;

    if entries.len() > 0 {
        let first = entries[0];
        let rest = entries.drop_first();
        lemma_ranking_permutes(rest);
        let slot = lemma_settle_inserts(first, ranking_of(rest));
        assert(entries =~= rest.insert(0, first));
    } else {
        assert(ranking_of(entries) =~= entries);
    }
}

/// The ranking holds the entries that it was made of, and no others.
pub proof fn lemma_ranking_same_members(entries: Seq<RankingEntry>, entry: RankingEntry)
    ensures
        ranking_of(entries).contains(entry) <==> entries.contains(entry),
{
    broadcast use vstd::seq_lib::to_multiset_contains;

    lemma_ranking_permutes(entries);
    assert(ranking_of(entries).to_multiset().count(entry) == entries.to_multiset().count(entry));
}

/// `ranking_of` yields a ranking of its argument.
pub proof fn lemma_ranking_of_ranks(entries: Seq<RankingEntry>)
    ensures
        is_ranking_of(ranking_of(entries), entries),
{
    lemma_ranking_is_ranked(entries);
    assert forall|average_nanos: u64| #[trigger]
        with_average(ranking_of(entries), average_nanos) == with_average(
            entries,
            average_nanos,
        ) by {
        lemma_ranking_is_stable(entries, average_nanos);
    }
}

/// The slowest entry of a list in order is not faster than any entry of
/// another list that agrees with it on the entries of each average.
proof fn lemma_last_is_slowest(a: Seq<RankingEntry>, b: Seq<RankingEntry>)
    requires
        a.len() > 0,
        b.len() > 0,
        is_ranked(b),
        with_average(a, a.last().average_nanos) == with_average(b, a.last().average_nanos),
    ensures
        a.last().average_nanos <= b.last().average_nanos,
{
    broadcast use {Seq::lemma_filter_contains, Seq::lemma_filter_contains_rev};

    let key = a.last().average_nanos;
    assert(with_average(a, key).contains(a[a.len() - 1]));
    let j = choose|j: int| 0 <= j < b.len() && b[j] == a.last();
    assert(b[j].average_nanos <= b[b.len() - 1].average_nanos);
}

/// Two lists in order of non-decreasing average which agree on the entries of
/// each average are the same list.
pub proof fn lemma_rankings_agree(a: Seq<RankingEntry>, b: Seq<RankingEntry>)
    requires
        is_ranked(a),
        is_ranked(b),
        forall|average_nanos: u64| #[trigger]
            with_average(a, average_nanos) == with_average(b, average_nanos),
    ensures
        a == b,
    decreases a.len(),
{
    broadcast use {Seq::lemma_filter_len, Seq::lemma_filter_contains, Seq::lemma_filter_push};

    if a.len() == 0 || b.len() == 0 {
        // an entry of one list would have to stand in the other
        if a.len() > 0 {
            assert(with_average(a, a[0].average_nanos).contains(a[0]));
        }
        if b.len() > 0 {
            assert(with_average(b, b[0].average_nanos).contains(b[0]));
            assert(with_average(a, b[0].average_nanos).len() == 0);
        }
    } else {
        let x = a.last();
        let y = b.last();
        let a0 = a.drop_last();
        let b0 = b.drop_last();
        assert(a =~= a0.push(x));
        assert(b =~= b0.push(y));
        // both lists end with the same entry
        lemma_last_is_slowest(a, b);
        lemma_last_is_slowest(b, a);
        let top = x.average_nanos;
        assert(with_average(a0, top).push(x) == with_average(b0, top).push(y));
        assert(x == y) by {
            assert(with_average(a0, top).push(x).last() == x);
        }
        // and agree on what stands before it
        assert forall|average_nanos: u64| #[trigger]
            with_average(a0, average_nanos) == with_average(b0, average_nanos) by {
            assert(with_average(a, average_nanos) == with_average(b, average_nanos));
            if average_nanos == top {
                assert(with_average(a0, top) =~= with_average(a0, top).push(x).drop_last());
            }
        }
        lemma_rankings_agree(a0, b0);
    }
}

/// A list of entries has one ranking only.
pub proof fn lemma_ranking_unique(ranked: Seq<RankingEntry>, entries: Seq<RankingEntry>)
    requires
        is_ranking_of(ranked, entries),
    ensures
        ranked == ranking_of(entries),
{
    lemma_ranking_of_ranks(entries);
    assert forall|average_nanos: u64| #[trigger]
        with_average(ranked, average_nanos) == with_average(
            ranking_of(entries),
            average_nanos,
        ) by {
        assert(with_average(ranking_of(entries), average_nanos) == with_average(
            entries,
            average_nanos,
        ));
    }
    lemma_rankings_agree(ranked, ranking_of(entries));
}

/// Entries that stand in order already are their own ranking.
pub proof fn lemma_ranked_is_fixed(entries: Seq<RankingEntry>)
    requires
        is_ranked(entries),
    ensures
        ranking_of(entries) == entries,
{
    lemma_ranking_unique(entries, entries);
}

/// Ranking a ranking changes nothing: ranking twice is ranking once.
pub proof fn lemma_ranking_idempotent(entries: Seq<RankingEntry>)
    ensures
        ranking_of(ranking_of(entries)) == ranking_of(entries),
{
    lemma_ranking_is_ranked(entries);
    lemma_ranked_is_fixed(ranking_of(entries));
}

/// Finds the place of an entry with the given average in a ranking.
fn find_slot(ranked: &Vec<RankingEntry>, average_nanos: u64) -> (slot: usize)
    ensures
        is_slot(ranked@, average_nanos, slot as int),
{
    let mut slot: usize = 0;
    while slot < ranked.len() && ranked[slot].average_nanos < average_nanos
        invariant
            slot <= ranked@.len(),
            forall|k: int| 0 <= k < slot ==> ranked@[k].average_nanos < average_nanos,
        decreases ranked@.len() - slot,
    {
        slot = slot + 1;
    }
    slot
}

/// Ranks the entries from fastest to slowest. Entries with the same average
/// keep their order, and no entry is lost, added or changed.
pub fn rank(entries: Vec<RankingEntry>) -> (ranked: Vec<RankingEntry>)
    ensures
        ranked@ == ranking_of(entries@),
        is_ranking_of(ranked@, entries@),
        ranked@.to_multiset() == entries@.to_multiset(),
        ranked@.len() == entries@.len(),
{
    let ghost all = entries@;
    let mut rest = entries;
    let mut ranked: Vec<RankingEntry> = Vec::new();
    while rest.len() > 0
        invariant
            rest@.len() <= all.len(),
            rest@ == all.take(rest@.len() as int),
            ranked@ == ranking_of(all.skip(rest@.len() as int)),
        decreases rest@.len(),
    {
        let ghost before = rest@.len() as int;
        let entry = rest.pop().unwrap();
        let slot = find_slot(&ranked, entry.average_nanos);
        proof {
            assert(all.skip(before - 1).drop_first() =~= all.skip(before));
            let settled = lemma_settle_inserts(entry, ranked@);
            lemma_slot_unique(ranked@, entry.average_nanos, settled, slot as int);
        }
        ranked.insert(slot, entry);
    }
    proof {
        assert(all.skip(0) =~= all);
        lemma_ranking_of_ranks(all);
        lemma_ranking_permutes(all);
    }
    ranked
}

} // verus!
