//! The ranking engine: building a tie-aware ranked sequence from an
//! unordered record set, and bounded-window reads over it.

use vstd::prelude::*;

verus! {

use crate::model::{
    AggregatedPlayerAttribution, AttributionRecord, RankedAttributionRecord, RankedModel,
    RecordModel,
};

/// The descending display order on records: `a` may stand at or before `b`
/// when `a`'s value is larger, or equal with `a`'s player identifier not
/// after `b`'s. The identifier is the documented deterministic tie-break, so
/// this order is total, and strict on records of distinct players.
pub open spec fn precedes(a: RecordModel, b: RecordModel) -> bool {
    a.value > b.value || (a.value == b.value && a.player.uuid <= b.player.uuid)
}

/// The sequence is sorted by [`precedes`]: descending values, ties in
/// ascending identifier order.
pub open spec fn value_sorted(s: Seq<RecordModel>) -> bool {
    forall|i: int, j: int| 0 <= i < j < s.len() ==> precedes(s[i], s[j])
}

/// Where `x` lands when placed into `s` while keeping [`precedes`] order:
/// after every element that may precede it, before the rest.
pub open spec fn place_in_order(s: Seq<RecordModel>, x: RecordModel) -> Seq<RecordModel>
    decreases s.len(),
{
    if s.len() == 0 {
        seq![x]
    } else if precedes(s[0], x) {
        seq![s[0]] + place_in_order(s.drop_first(), x)
    } else {
        seq![x] + s
    }
}

/// Insertion sort of `rest` into the already sorted `acc`, front to back.
pub open spec fn sort_onto(acc: Seq<RecordModel>, rest: Seq<RecordModel>) -> Seq<RecordModel>
    decreases rest.len(),
{
    if rest.len() == 0 {
        acc
    } else {
        sort_onto(place_in_order(acc, rest[0]), rest.drop_first())
    }
}

/// The unique [`precedes`]-sorted arrangement of `s`: descending by value,
/// ties broken by ascending player identifier.
pub open spec fn sorted_by_value(s: Seq<RecordModel>) -> Seq<RecordModel> {
    sort_onto(Seq::<RecordModel>::empty(), s)
}

/// The competition rank of position `i` in the sorted sequence `s`: position
/// 0 ranks 1; a position whose value equals its predecessor's inherits the
/// predecessor's rank; any other position ranks at its own 1-based index.
pub open spec fn rank_at(s: Seq<RecordModel>, i: int) -> int
    decreases i,
{
    if i <= 0 {
        1
    } else if s[i].value == s[i - 1].value {
        rank_at(s, i - 1)
    } else {
        i + 1
    }
}

/// The sorted sequence `s` annotated with competition ranks.
pub open spec fn ranked_sequence(s: Seq<RecordModel>) -> Seq<RankedModel> {
    Seq::new(s.len(), |i: int| RankedModel { rank: rank_at(s, i), record: s[i] })
}

/// The full ranking produced from an unordered record sequence: sort by
/// descending value (ties by ascending identifier), then assign competition
/// ranks. This pins the engine's output down to a single sequence.
pub open spec fn ranking_of(records: Seq<RecordModel>) -> Seq<RankedModel> {
    ranked_sequence(sorted_by_value(records))
}

/// The views of a sequence of executable records.
pub open spec fn record_models<Attribution: AggregatedPlayerAttribution>(
    s: Seq<AttributionRecord<Attribution>>,
) -> Seq<RecordModel> {
    s.map_values(|r: AttributionRecord<Attribution>| r@)
}

/// Executable form of [`precedes`]: compares the measured values, then the
/// player identifiers.
fn record_precedes<Attribution: AggregatedPlayerAttribution>(
    a: &AttributionRecord<Attribution>,
    b: &AttributionRecord<Attribution>,
) -> (r: bool)
    ensures
        r == precedes(a@, b@),
{
    let av = a.attribution.attribution_value();
    let bv = b.attribution.attribution_value();
    av > bv || (av == bv && a.player.uuid() <= b.player.uuid())
}

/// Removing the front record commutes with taking views.
proof fn lemma_models_tail<Attribution: AggregatedPlayerAttribution>(
    s: Seq<AttributionRecord<Attribution>>,
)
    requires
        s.len() > 0,
    ensures
        record_models(s.remove(0)) == record_models(s).drop_first(),
{
    assert(record_models(s.remove(0)) =~= record_models(s).drop_first());
}

/// Inserting a record commutes with taking views.
proof fn lemma_models_insert<Attribution: AggregatedPlayerAttribution>(
    s: Seq<AttributionRecord<Attribution>>,
    i: int,
    r: AttributionRecord<Attribution>,
)
    requires
        0 <= i <= s.len(),
    ensures
        record_models(s.insert(i, r)) == record_models(s).insert(i, r@),
{
    s.insert_ensures(i, r);
    record_models(s).insert_ensures(i, r@);
    assert(record_models(s.insert(i, r)) =~= record_models(s).insert(i, r@));
}

/// Placing `x` after exactly the first `p` elements — each of which may
/// precede it, while the element at `p` (if any) may not — is what
/// [`place_in_order`] does.
proof fn lemma_place_in_order_at(s: Seq<RecordModel>, x: RecordModel, p: int)
    requires
        0 <= p <= s.len(),
        forall|k: int| 0 <= k < p ==> precedes(s[k], x),
        p < s.len() ==> !precedes(s[p], x),
    ensures
        place_in_order(s, x) == s.insert(p, x),
    decreases s.len(),
{
    if s.len() == 0 {
        assert(place_in_order(s, x) =~= s.insert(0, x));
    } else if p == 0 {
        assert(!precedes(s[0], x));
        assert(seq![x] + s =~= s.insert(0, x));
    } else {
        assert(precedes(s[0], x));
        let tail = s.drop_first();
        assert forall|k: int| 0 <= k < p - 1 implies precedes(tail[k], x) by {
            assert(tail[k] == s[k + 1]);
        }
        assert(p - 1 < tail.len() ==> !precedes(tail[p - 1], x)) by {
            if p - 1 < tail.len() {
                assert(tail[p - 1] == s[p]);
            }
        }
        lemma_place_in_order_at(tail, x, p - 1);
        assert(seq![s[0]] + tail.insert(p - 1, x) =~= s.insert(p, x));
    }
}

/// The full, rebuildable ranked sequence for one measurement kind. Rebuilt
/// wholesale by [`Ranking::hydrate_record_set`]; never partially mutated.
pub struct Ranking<Attribution: AggregatedPlayerAttribution> {
    sorted_ranked_records: Vec<RankedAttributionRecord<Attribution>>,
}

impl<Attribution: AggregatedPlayerAttribution> View for Ranking<Attribution> {
    type V = Seq<RankedModel>;

    closed spec fn view(&self) -> Seq<RankedModel> {
        self.sorted_ranked_records@.map_values(
            |r: RankedAttributionRecord<Attribution>| r@,
        )
    }
}

/// An immutable copy of a contiguous window of a ranking, with no lifecycle
/// tie to the ranking it was cut from.
pub struct RankingSlice<Attribution: AggregatedPlayerAttribution>(
    pub Vec<RankedAttributionRecord<Attribution>>,
);

impl<Attribution: AggregatedPlayerAttribution> View for RankingSlice<Attribution> {
    type V = Seq<RankedModel>;

    open spec fn view(&self) -> Seq<RankedModel> {
        self.0@.map_values(|r: RankedAttributionRecord<Attribution>| r@)
    }
}

impl<Attribution: AggregatedPlayerAttribution> Default for Ranking<Attribution> {
    /// A ranking starts empty.
    fn default() -> (r: Self)
        ensures
            r@ == Seq::<RankedModel>::empty(),
    {
        let empty_records: Vec<RankedAttributionRecord<Attribution>> = Vec::new();
        proof {
            assert(empty_records@.map_values(
                |r: RankedAttributionRecord<Attribution>| r@,
            ) =~= Seq::<RankedModel>::empty());
        }
        Ranking { sorted_ranked_records: empty_records }
    }
}

impl<Attribution: AggregatedPlayerAttribution> Ranking<Attribution> {
    /// Number of ranked records currently held; callers use it to compute
    /// valid pagination windows.
    pub fn len(&self) -> (n: usize)
        ensures
            n == self@.len(),
    {
        self.sorted_ranked_records.len()
    }

    /// Rebuilds the ranking from a full snapshot of attribution records,
    /// replacing any prior state. The records are sorted by descending value
    /// (ties in ascending player-identifier order) and assigned competition
    /// ranks; the result is exactly [`ranking_of`] applied to the input
    /// views. An empty input yields an empty ranking; nothing fails.
    pub fn hydrate_record_set(&mut self, records: Vec<AttributionRecord<Attribution>>)
        requires
            records@.len() <= u32::MAX,
        ensures
            final(self)@ == ranking_of(record_models(records@)),
            final(self)@.len() == records@.len(),
    {
        let ghost input = record_models(records@);
        let mut remaining = records;
        let mut sorted: Vec<AttributionRecord<Attribution>> = Vec::new();
        proof {
            assert(record_models(sorted@) =~= Seq::<RecordModel>::empty());
        }
        while remaining.len() > 0
            invariant
                sorted@.len() + remaining@.len() == input.len(),
                input.len() <= u32::MAX,
                sort_onto(record_models(sorted@), record_models(remaining@))
                    == sorted_by_value(input),
            decreases remaining@.len(),
        {
            let ghost pre_sorted = record_models(sorted@);
            let ghost pre_remaining = record_models(remaining@);
            let ghost before = remaining@;
            let rec = remaining.remove(0);
            let ghost rec_model = rec@;
            proof {
                lemma_models_tail(before);
                assert(rec_model == pre_remaining[0]);
            }
            let mut p: usize = 0;
            while p < sorted.len()
                invariant
                    p <= sorted@.len(),
                    forall|k: int| 0 <= k < p ==> precedes(record_models(sorted@)[k], rec@),
                ensures
                    p <= sorted@.len(),
                    forall|k: int| 0 <= k < p ==> precedes(record_models(sorted@)[k], rec@),
                    p < sorted@.len() ==> !precedes(record_models(sorted@)[p as int], rec@),
                decreases sorted@.len() - p,
            {
                if !record_precedes(&sorted[p], &rec) {
                    break;
                }
                p = p + 1;
            }
            let ghost pre_insert = sorted@;
            sorted.insert(p, rec);
            proof {
                lemma_place_in_order_at(pre_sorted, rec_model, p as int);
                lemma_models_insert(pre_insert, p as int, before[0]);
                assert(record_models(sorted@) == place_in_order(pre_sorted, pre_remaining[0]));
                assert(sort_onto(pre_sorted, pre_remaining) == sort_onto(
                    place_in_order(pre_sorted, pre_remaining[0]),
                    pre_remaining.drop_first(),
                ));
            }
        }
        let ghost sorted_full = record_models(sorted@);
        proof {
            assert(record_models(remaining@) =~= Seq::<RecordModel>::empty());
            assert(sort_onto(sorted_full, record_models(remaining@)) == sorted_full);
            assert(sorted_full == sorted_by_value(input));
        }
        let mut ranked: Vec<RankedAttributionRecord<Attribution>> = Vec::new();
        let mut prev_value: u64 = 0;
        let mut prev_rank: u32 = 1;
        let mut placed: usize = 0;
        while sorted.len() > 0
            invariant
                placed + sorted@.len() == sorted_full.len(),
                sorted_full.len() <= u32::MAX,
                record_models(sorted@) == sorted_full.skip(placed as int),
                ranked@.len() == placed,
                forall|j: int| 0 <= j < placed ==> ranked@[j]@ == (RankedModel {
                    rank: rank_at(sorted_full, j),
                    record: sorted_full[j],
                }),
                placed > 0 ==> prev_value == sorted_full[placed - 1].value,
                placed > 0 ==> prev_rank == rank_at(sorted_full, placed - 1),
            decreases sorted@.len(),
        {
            let ghost before = sorted@;
            let rec = sorted.remove(0);
            proof {
                lemma_models_tail(before);
                assert(rec@ == sorted_full.skip(placed as int)[0]);
                assert(record_models(sorted@) =~= sorted_full.skip(placed + 1));
            }
            let v = rec.attribution.attribution_value();
            let rank: u32 = if placed == 0 {
                1
            } else if v == prev_value {
                prev_rank
            } else {
                (placed as u32) + 1
            };
            proof {
                assert(rank == rank_at(sorted_full, placed as int));
            }
            let ranked_record = RankedAttributionRecord { rank, attribution_record: rec };
            ranked.push(ranked_record);
            prev_value = v;
            prev_rank = rank;
            placed = placed + 1;
        }
        self.sorted_ranked_records = ranked;
        proof {
            assert(self@ =~= ranked_sequence(sorted_full));
        }
    }

    /// Copies the window `[offset, offset + limit)` of the ranked sequence,
    /// preserving ranks and order. An out-of-range window is a caller
    /// contract violation, excluded by the precondition; callers query
    /// [`Ranking::len`] first.
    pub fn paginate(&self, offset: usize, limit: usize) -> (slice: RankingSlice<Attribution>)
        requires
            offset + limit <= self@.len(),
        ensures
            slice@ == self@.subrange(offset as int, offset + limit),
    {
        let total = self.sorted_ranked_records.len();
        proof {
            assert(offset + limit <= total);
        }
        let mut window: Vec<RankedAttributionRecord<Attribution>> = Vec::new();
        let mut taken: usize = 0;
        while taken < limit
            invariant
                taken <= limit,
                offset + limit <= self.sorted_ranked_records@.len(),
                offset + limit <= usize::MAX,
                window@.len() == taken,
                forall|j: int| 0 <= j < taken ==> window@[j] == self.sorted_ranked_records@[
                    offset + j
                ],
            decreases limit - taken,
        {
            let next = self.sorted_ranked_records[offset + taken].clone();
            window.push(next);
            taken = taken + 1;
        }
        let slice = RankingSlice(window);
        proof {
            assert(slice@ =~= self@.subrange(offset as int, offset + limit));
        }
        slice
    }
}

} // verus!
