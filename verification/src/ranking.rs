//! The order in which the records of a response are shown: by falling
//! popularity, records of equal popularity in the order in which they arrived.

use crate::search::Package;
use vstd::prelude::*;

verus! {

/// No record stands before one of higher popularity.
pub open spec fn is_ranked(records: Seq<Package>) -> bool {
    forall|i: int, j: int|
        0 <= i < j < records.len() ==> records[i].popularity.rank() >= records[j].popularity.rank()
}

/// The records of popularity rank `rank`, in the order in which `records` holds them.
pub open spec fn of_rank(records: Seq<Package>, rank: int) -> Seq<Package> {
    records.filter(|p: Package| p.popularity.rank() == rank)
}

/// `ranked` holds the records of `arrived` by falling popularity, those of
/// equal popularity in the order of their arrival.
pub open spec fn is_ranking_of(ranked: Seq<Package>, arrived: Seq<Package>) -> bool {
    &&& is_ranked(ranked)
    &&& forall|rank: int| #[trigger] of_rank(ranked, rank) == of_rank(arrived, rank)
}

proof fn lemma_of_rank_none(records: Seq<Package>, rank: int)
    requires
        forall|i: int| 0 <= i < records.len() ==> records[i].popularity.rank() != rank,
    ensures
        of_rank(records, rank) == Seq::<Package>::empty(),
{
    let pred = |p: Package| p.popularity.rank() == rank;
    records.lemma_all_neg_filter_empty(pred);
    assert(records.filter(pred) =~= Seq::<Package>::empty());
}

proof fn lemma_of_rank_last(records: Seq<Package>, rank: int)
    requires
        records.len() > 0,
    ensures
        of_rank(records, rank) == if records.last().popularity.rank() == rank {
            of_rank(records.drop_last(), rank).push(records.last())
        } else {
            of_rank(records.drop_last(), rank)
        },
{
    reveal(Seq::filter);
}

/// A response has one ranking only: two sequences that both hold its records
/// by falling popularity, ties in the order of arrival, are the same sequence.
pub proof fn lemma_ranking_unique(first: Seq<Package>, second: Seq<Package>, arrived: Seq<Package>)
    requires
        is_ranking_of(first, arrived),
        is_ranking_of(second, arrived),
    ensures
        first == second,
{
    assert forall|rank: int| #[trigger] of_rank(first, rank) == of_rank(second, rank) by {
        assert(of_rank(first, rank) == of_rank(arrived, rank));
        assert(of_rank(second, rank) == of_rank(arrived, rank));
    }
    lemma_same_ranks_same_order(first, second);
}

/// A list with a record in it has records of that record's rank.
proof fn lemma_of_rank_some(records: Seq<Package>, at: int)
    requires
        0 <= at < records.len(),
    ensures
        of_rank(records, records[at].popularity.rank()).len() > 0,
    decreases records.len(),
{
    let rank = records[at].popularity.rank();
    lemma_of_rank_last(records, rank);
    if at < records.len() - 1 {
        lemma_of_rank_some(records.drop_last(), at);
    }
}

/// The least rank of a ranked list is that of its last record, so the list
/// has no record of a lower rank.
proof fn lemma_of_rank_below_last(records: Seq<Package>, rank: int)
    requires
        is_ranked(records),
        records.len() > 0,
        rank < records.last().popularity.rank(),
    ensures
        of_rank(records, rank) == Seq::<Package>::empty(),
{
    assert forall|i: int| 0 <= i < records.len() implies records[i].popularity.rank() != rank by {
        assert(records[i].popularity.rank() >= records[records.len() - 1].popularity.rank());
    }
    lemma_of_rank_none(records, rank);
}

proof fn lemma_same_ranks_same_order(first: Seq<Package>, second: Seq<Package>)
    requires
        is_ranked(first),
        is_ranked(second),
        forall|rank: int| #[trigger] of_rank(first, rank) == of_rank(second, rank),
    ensures
        first == second,
    decreases first.len(),
{
    if first.len() == 0 || second.len() == 0 {
        // If one list had a record, the other had one of the same rank.
        if first.len() > 0 {
            let rank = first[0].popularity.rank();
            lemma_of_rank_some(first, 0);
            lemma_of_rank_none(second, rank);
            assert(of_rank(first, rank) == of_rank(second, rank));
        }
        if second.len() > 0 {
            let rank = second[0].popularity.rank();
            lemma_of_rank_some(second, 0);
            lemma_of_rank_none(first, rank);
            assert(of_rank(first, rank) == of_rank(second, rank));
        }
        assert(first =~= second);
    } else {
        let x = first.last();
        let y = second.last();
        let front = first.drop_last();
        let back = second.drop_last();
        let low = x.popularity.rank();
        // Both lists end at the same rank: each has records of the rank at
        // which the other ends, and none below its own.
        assert(y.popularity.rank() == low) by {
            lemma_of_rank_some(first, first.len() - 1);
            lemma_of_rank_some(second, second.len() - 1);
            if low < y.popularity.rank() {
                lemma_of_rank_below_last(second, low);
            }
            if y.popularity.rank() < low {
                lemma_of_rank_below_last(first, y.popularity.rank());
            }
            assert(of_rank(first, low) == of_rank(second, low));
            assert(of_rank(first, y.popularity.rank()) == of_rank(second, y.popularity.rank()));
        }
        // The records of that rank end with the same record, and without it
        // the two lists still hold the same records of every rank.
        assert forall|rank: int| #[trigger] of_rank(front, rank) == of_rank(back, rank) by {
            lemma_of_rank_last(first, rank);
            lemma_of_rank_last(second, rank);
            assert(of_rank(first, rank) == of_rank(second, rank));
            if rank == low {
                assert(of_rank(front, rank) =~= of_rank(front, rank).push(x).drop_last());
                assert(of_rank(back, rank) =~= of_rank(back, rank).push(y).drop_last());
            }
        }
        assert(x == y) by {
            lemma_of_rank_last(first, low);
            lemma_of_rank_last(second, low);
            assert(of_rank(first, low) == of_rank(second, low));
            assert(of_rank(front, low).push(x).last() == x);
            assert(of_rank(back, low).push(y).last() == y);
        }
        assert(is_ranked(front)) by {
            assert forall|i: int, j: int| 0 <= i < j < front.len() implies front[i].popularity.rank()
                >= front[j].popularity.rank() by {
                assert(front[i] == first[i] && front[j] == first[j]);
            }
        }
        assert(is_ranked(back)) by {
            assert forall|i: int, j: int| 0 <= i < j < back.len() implies back[i].popularity.rank()
                >= back[j].popularity.rank() by {
                assert(back[i] == second[i] && back[j] == second[j]);
            }
        }
        lemma_same_ranks_same_order(front, back);
        assert(first =~= front.push(x));
        assert(second =~= back.push(y));
    }
}

/// The same records with the last one first.
fn reversed(list: Vec<Package>) -> (back: Vec<Package>)
    ensures
        back.len() == list.len(),
        forall|i: int| 0 <= i < back.len() ==> back[i] == list[list.len() - 1 - i],
{
    let ghost given = list@;
    let mut list = list;
    let mut back: Vec<Package> = Vec::new();
    while list.len() > 0
        invariant
            list.len() + back.len() == given.len(),
            list@ == given.take(list.len() as int),
            forall|i: int| 0 <= i < back.len() ==> back[i] == given[given.len() - 1 - i],
        decreases list.len(),
    {
        let p = list.pop().unwrap();
        back.push(p);
    }
    back
}

/// Merges two ranked lists into one. Of two equally popular records, one of
/// each list, the one of `first` comes first.
fn merge(first: Vec<Package>, second: Vec<Package>) -> (merged: Vec<Package>)
    requires
        is_ranked(first@),
        is_ranked(second@),
    ensures
        is_ranked(merged@),
        forall|rank: int| #[trigger]
            of_rank(merged@, rank) == of_rank(first@, rank) + of_rank(second@, rank),
        merged@.to_multiset() == first@.to_multiset().add(second@.to_multiset()),
{
    let ghost a = first@;
    let ghost b = second@;
    // What is left of each list, the record that comes next at the end.
    let mut left = reversed(first);
    let mut right = reversed(second);
    let mut merged: Vec<Package> = Vec::new();
    proof {
        assert forall|rank: int| #[trigger]
            of_rank(merged@, rank) == of_rank(a.take(0), rank) + of_rank(b.take(0), rank) by {
            lemma_of_rank_none(Seq::<Package>::empty(), rank);
        }
        assert(merged@.to_multiset() =~= a.take(0).to_multiset().add(b.take(0).to_multiset())) by {
            broadcast use vstd::seq_lib::group_to_multiset_ensures;
        }
    }
    while left.len() > 0 || right.len() > 0
        invariant
            is_ranked(a),
            is_ranked(b),
            is_ranked(merged@),
            left.len() <= a.len(),
            right.len() <= b.len(),
            forall|t: int| 0 <= t < left.len() ==> left[t] == a[a.len() - 1 - t],
            forall|t: int| 0 <= t < right.len() ==> right[t] == b[b.len() - 1 - t],
            forall|t: int, u: int|
                0 <= t < merged.len() && a.len() - left.len() <= u < a.len()
                    ==> merged[t].popularity.rank() >= a[u].popularity.rank(),
            forall|t: int, u: int|
                0 <= t < merged.len() && b.len() - right.len() <= u < b.len()
                    ==> merged[t].popularity.rank() >= b[u].popularity.rank(),
            forall|t: int, u: int|
                0 <= t < b.len() - right.len() && a.len() - left.len() <= u < a.len()
                    ==> b[t].popularity.rank() > a[u].popularity.rank(),
            forall|rank: int| #[trigger]
                of_rank(merged@, rank) == of_rank(a.take(a.len() - left.len()), rank) + of_rank(
                    b.take(b.len() - right.len()),
                    rank,
                ),
            merged@.to_multiset() == a.take(a.len() - left.len()).to_multiset().add(
                b.take(b.len() - right.len()).to_multiset(),
            ),
        decreases left.len() + right.len(),
    {
        let ghost i = a.len() - left.len();
        let ghost j = b.len() - right.len();
        let ghost so_far = merged@;
        let from_first = if right.len() == 0 {
            true
        } else if left.len() == 0 {
            false
        } else {
            !right[right.len() - 1].popularity.outranks(left[left.len() - 1].popularity)
        };
        if from_first {
            let p = left.pop().unwrap();
            merged.push(p);
            proof {
                assert(a.take(i + 1).drop_last() =~= a.take(i));
                assert forall|rank: int| #[trigger]
                    of_rank(merged@, rank) == of_rank(a.take(i + 1), rank) + of_rank(
                        b.take(j),
                        rank,
                    ) by {
                    lemma_of_rank_last(merged@, rank);
                    lemma_of_rank_last(a.take(i + 1), rank);
                    assert(merged@.drop_last() =~= so_far);
                    assert(of_rank(so_far, rank) == of_rank(a.take(i), rank) + of_rank(
                        b.take(j),
                        rank,
                    ));
                    if p.popularity.rank() == rank {
                        lemma_of_rank_none(b.take(j), rank);
                        assert(of_rank(so_far, rank).push(p) =~= of_rank(a.take(i), rank).push(p)
                            + of_rank(b.take(j), rank));
                    }
                }
                assert(merged@.to_multiset() =~= a.take(i + 1).to_multiset().add(
                    b.take(j).to_multiset(),
                )) by {
                    broadcast use vstd::seq_lib::group_to_multiset_ensures;
                    assert(a.take(i + 1) =~= a.take(i).push(p));
                }
            }
        } else {
            let p = right.pop().unwrap();
            merged.push(p);
            proof {
                assert(b.take(j + 1).drop_last() =~= b.take(j));
                assert forall|rank: int| #[trigger]
                    of_rank(merged@, rank) == of_rank(a.take(i), rank) + of_rank(
                        b.take(j + 1),
                        rank,
                    ) by {
                    lemma_of_rank_last(merged@, rank);
                    lemma_of_rank_last(b.take(j + 1), rank);
                    assert(merged@.drop_last() =~= so_far);
                    assert(of_rank(so_far, rank) == of_rank(a.take(i), rank) + of_rank(
                        b.take(j),
                        rank,
                    ));
                    if p.popularity.rank() == rank {
                        assert(of_rank(so_far, rank).push(p) =~= of_rank(a.take(i), rank)
                            + of_rank(b.take(j), rank).push(p));
                    }
                }
                assert(merged@.to_multiset() =~= a.take(i).to_multiset().add(
                    b.take(j + 1).to_multiset(),
                )) by {
                    broadcast use vstd::seq_lib::group_to_multiset_ensures;
                    assert(b.take(j + 1) =~= b.take(j).push(p));
                }
            }
        }
    }
    proof {
        assert(a.take(a.len() as int) =~= a);
        assert(b.take(b.len() as int) =~= b);
    }
    merged
}

/// Orders the records of a response for display: by falling popularity, and
/// where two are equally popular, the one that arrived first stays first.
pub fn rank(results: Vec<Package>) -> (ranked: Vec<Package>)
    ensures
        is_ranking_of(ranked@, results@),
        ranked@.to_multiset() == results@.to_multiset(),
        ranked@.len() == results@.len(),
    decreases results@.len(),
{
    let ghost arrived = results@;
    let mut first = results;
    let total = first.len();
    if total < 2 {
        return first;
    }
    let second = first.split_off(total / 2);
    let ghost early = first@;
    let ghost late = second@;
    let first = rank(first);
    let second = rank(second);
    let ranked = merge(first, second);
    proof {
        assert(arrived =~= early + late);
        assert forall|rank: int| #[trigger] of_rank(ranked@, rank) == of_rank(arrived, rank) by {
            Seq::filter_distributes_over_add(
                early,
                late,
                |p: Package| p.popularity.rank() == rank,
            );
        }
        vstd::seq_lib::lemma_multiset_commutative(early, late);
        ranked@.to_multiset_ensures();
        arrived.to_multiset_ensures();
    }
    ranked
}

} // verus!
