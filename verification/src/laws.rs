//! Proved laws of the ranking engine: determinism of the build, the
//! competition-ranking law, monotonicity, and preservation of size and
//! content.

use vstd::prelude::*;

verus! {

use vstd::multiset::Multiset;
use vstd::seq_lib::lemma_multiset_commutative;
use crate::model::{RankedModel, RecordModel};
use crate::ranking::{
    place_in_order, precedes, rank_at, ranking_of, sort_onto, sorted_by_value, value_sorted,
};

broadcast use
    vstd::seq_lib::group_to_multiset_ensures,
    vstd::multiset::group_multiset_axioms,
;

/// Placing one record keeps every record and adds the new one.
proof fn lemma_place_props(s: Seq<RecordModel>, x: RecordModel)
    ensures
        place_in_order(s, x).len() == s.len() + 1,
        place_in_order(s, x).to_multiset() == s.to_multiset().insert(x),
    decreases s.len(),
{
    if s.len() == 0 {
        assert(place_in_order(s, x) =~= Seq::<RecordModel>::empty().push(x));
        assert(Seq::<RecordModel>::empty().push(x).to_multiset() =~= Seq::<
            RecordModel,
        >::empty().to_multiset().insert(x));
        assert(Seq::<RecordModel>::empty().to_multiset() =~= Multiset::<RecordModel>::empty());
        assert(s.to_multiset() =~= Multiset::<RecordModel>::empty());
    } else if precedes(s[0], x) {
        let tail = s.drop_first();
        lemma_place_props(tail, x);
        let inner = place_in_order(tail, x);
        lemma_multiset_commutative(seq![s[0]], inner);
        lemma_multiset_commutative(seq![s[0]], tail);
        assert(seq![s[0]] + tail =~= s);
        assert(seq![s[0]].to_multiset().add(tail.to_multiset().insert(x)) =~= (seq![
            s[0],
        ] + tail).to_multiset().insert(x));
    } else {
        lemma_multiset_commutative(seq![x], s);
        assert(seq![x].to_multiset() =~= Multiset::<RecordModel>::empty().insert(x));
        assert((seq![x] + s).to_multiset() =~= s.to_multiset().insert(x));
    }
}

/// Placing one record into a sorted sequence keeps it sorted.
proof fn lemma_place_preserves_sorted(s: Seq<RecordModel>, x: RecordModel)
    requires
        value_sorted(s),
    ensures
        value_sorted(place_in_order(s, x)),
    decreases s.len(),
{
    if s.len() == 0 {
    } else if precedes(s[0], x) {
        let tail = s.drop_first();
        assert(value_sorted(tail)) by {
            assert forall|i: int, j: int| 0 <= i < j < tail.len() implies precedes(
                tail[i],
                tail[j],
            ) by {
                assert(tail[i] == s[i + 1]);
                assert(tail[j] == s[j + 1]);
            }
        }
        lemma_place_preserves_sorted(tail, x);
        lemma_place_props(tail, x);
        let inner = place_in_order(tail, x);
        let res = place_in_order(s, x);
        assert(res == seq![s[0]] + inner);
        assert forall|i: int, j: int| 0 <= i < j < res.len() implies precedes(res[i], res[j]) by {
            if i == 0 {
                let e = inner[j - 1];
                assert(inner.contains(e));
                if e == x {
                    assert(precedes(s[0], e));
                } else {
                    assert(inner.to_multiset().count(e) > 0);
                    assert(tail.to_multiset().count(e) > 0);
                    assert(tail.contains(e));
                    let k = choose|k: int| 0 <= k < tail.len() && tail[k] == e;
                    assert(tail[k] == s[k + 1]);
                    assert(precedes(s[0], s[k + 1]));
                }
            } else {
                assert(precedes(inner[i - 1], inner[j - 1]));
            }
        }
    } else {
        let res = place_in_order(s, x);
        assert(res == seq![x] + s);
        assert(precedes(x, s[0]));
        assert forall|i: int, j: int| 0 <= i < j < res.len() implies precedes(res[i], res[j]) by {
            if i == 0 {
                if j == 1 {
                    assert(res[j] == s[0]);
                } else {
                    assert(precedes(s[0], s[j - 1]));
                }
            } else {
                assert(precedes(s[i - 1], s[j - 1]));
            }
        }
    }
}

/// Insertion sort onto a sorted accumulator yields a sorted sequence holding
/// exactly the records of both inputs.
proof fn lemma_sort_onto_props(acc: Seq<RecordModel>, rest: Seq<RecordModel>)
    requires
        value_sorted(acc),
    ensures
        value_sorted(sort_onto(acc, rest)),
        sort_onto(acc, rest).len() == acc.len() + rest.len(),
        sort_onto(acc, rest).to_multiset() == acc.to_multiset().add(rest.to_multiset()),
    decreases rest.len(),
{
    if rest.len() == 0 {
        assert(rest.to_multiset() =~= Multiset::<RecordModel>::empty());
        assert(acc.to_multiset().add(rest.to_multiset()) =~= acc.to_multiset());
    } else {
        let first = rest[0];
        let tail = rest.drop_first();
        lemma_place_props(acc, first);
        lemma_place_preserves_sorted(acc, first);
        lemma_sort_onto_props(place_in_order(acc, first), tail);
        assert(rest.remove(0).to_multiset() == rest.to_multiset().remove(first));
        assert(rest.remove(0) =~= tail);
        assert(rest.contains(first));
        assert(rest.to_multiset().count(first) > 0);
        assert(tail.to_multiset().insert(first) =~= rest.to_multiset());
        assert(acc.to_multiset().insert(first).add(tail.to_multiset()) =~= acc.to_multiset().add(
            rest.to_multiset(),
        ));
    }
}

/// The sorting step is sound: its output is sorted by descending value with
/// the documented identifier tie-break, and holds exactly the input records.
pub proof fn lemma_sorted_by_value_props(records: Seq<RecordModel>)
    ensures
        value_sorted(sorted_by_value(records)),
        sorted_by_value(records).len() == records.len(),
        sorted_by_value(records).to_multiset() == records.to_multiset(),
{
    lemma_sort_onto_props(Seq::<RecordModel>::empty(), records);
    assert(Seq::<RecordModel>::empty().to_multiset() =~= Multiset::<RecordModel>::empty());
    assert(Multiset::<RecordModel>::empty().add(records.to_multiset())
        =~= records.to_multiset());
}

/// A rank is always between 1 and the 1-based position it annotates.
proof fn lemma_rank_at_bounds(s: Seq<RecordModel>, i: int)
    requires
        0 <= i,
    ensures
        1 <= rank_at(s, i) && rank_at(s, i) <= i + 1,
    decreases i,
{
    if i > 0 && s[i].value == s[i - 1].value {
        lemma_rank_at_bounds(s, i - 1);
    }
}

/// Ranks never decrease along the sequence.
proof fn lemma_rank_at_monotone(s: Seq<RecordModel>, i: int, j: int)
    requires
        0 <= i <= j,
    ensures
        rank_at(s, i) <= rank_at(s, j),
    decreases j - i,
{
    if i < j {
        lemma_rank_at_monotone(s, i, j - 1);
        if s[j].value != s[j - 1].value {
            lemma_rank_at_bounds(s, j - 1);
        }
    }
}

/// Determinism and idempotent rebuild: a ranking built from a record
/// sequence is one fully determined sequence, so repeated builds from the
/// same records — whatever state the engine held before — agree exactly in
/// players, values, ranks and order.
pub proof fn lemma_build_deterministic(
    records: Seq<RecordModel>,
    first: Seq<RankedModel>,
    second: Seq<RankedModel>,
)
    requires
        first == ranking_of(records),
        second == ranking_of(records),
    ensures
        first == second,
{
}

/// The competition-ranking law: position 0 ranks 1; a position whose value
/// equals its predecessor's inherits the predecessor's rank; any other
/// position ranks at its own 1-based index.
pub proof fn lemma_rank_law(records: Seq<RecordModel>, i: int)
    requires
        0 <= i < ranking_of(records).len(),
    ensures
        ranking_of(records)[i].record == sorted_by_value(records)[i],
        (i == 0 || ranking_of(records)[i].record.value != ranking_of(records)[i
            - 1].record.value) ==> ranking_of(records)[i].rank == i + 1,
        (i > 0 && ranking_of(records)[i].record.value == ranking_of(records)[i
            - 1].record.value) ==> ranking_of(records)[i].rank == ranking_of(records)[i - 1].rank,
{
    let s = sorted_by_value(records);
    if i == 0 {
        assert(rank_at(s, 0) == 1);
    }
}

/// Monotonicity: along the ranked sequence, ranks never decrease and
/// measured values never increase.
pub proof fn lemma_ranking_monotone(records: Seq<RecordModel>, i: int, j: int)
    requires
        0 <= i <= j < ranking_of(records).len(),
    ensures
        ranking_of(records)[i].rank <= ranking_of(records)[j].rank,
        ranking_of(records)[i].record.value >= ranking_of(records)[j].record.value,
{
    lemma_sorted_by_value_props(records);
    let s = sorted_by_value(records);
    lemma_rank_at_monotone(s, i, j);
    if i < j {
        assert(precedes(s[i], s[j]));
    }
}

/// Size preservation: the ranked sequence is exactly as long as the input.
pub proof fn lemma_size_preserved(records: Seq<RecordModel>)
    ensures
        ranking_of(records).len() == records.len(),
{
    lemma_sorted_by_value_props(records);
}

/// Content preservation: stripped of its ranks, the ranked sequence holds
/// exactly the input records — none dropped, none invented, none duplicated.
pub proof fn lemma_content_preserved(records: Seq<RecordModel>)
    ensures
        ranking_of(records).map_values(|r: RankedModel| r.record).to_multiset()
            == records.to_multiset(),
{
    lemma_sorted_by_value_props(records);
    let s = sorted_by_value(records);
    assert(ranking_of(records).map_values(|r: RankedModel| r.record) =~= s);
}

/// The full window is the whole sequence: paginating with offset 0 and the
/// sequence's own length copies the ranking unchanged.
pub proof fn lemma_full_window(ranking: Seq<RankedModel>)
    ensures
        ranking.subrange(0, ranking.len() as int) == ranking,
{
    assert(ranking.subrange(0, ranking.len() as int) =~= ranking);
}

} // verus!
