//! Data model: players, measurement kinds, attribution records and their
//! ghost views.

use vstd::prelude::*;

verus! {

/// Ghost view of a [`Player`]: the identifier and the display label as plain
/// mathematical values.
#[verifier::ext_equal]
pub struct PlayerModel {
    pub uuid: u128,
    pub name: Seq<char>,
}

/// An entity being ranked: a stable unique identifier plus a human-readable
/// label. Only the identifier takes part in ordering; the label is carried
/// through for display.
pub struct Player {
    uuid: u128,
    name: String,
}

impl View for Player {
    type V = PlayerModel;

    closed spec fn view(&self) -> PlayerModel {
        PlayerModel { uuid: self.uuid, name: self.name@ }
    }
}

impl Player {
    pub fn new(uuid: u128, name: String) -> (p: Player)
        ensures
            p@ == (PlayerModel { uuid, name: name@ }),
    {
        Player { uuid, name }
    }

    pub fn uuid(&self) -> (u: u128)
        ensures
            u == self@.uuid,
    {
        self.uuid
    }

    pub fn name(&self) -> (n: &str)
        ensures
            n@ == self@.name,
    {
        self.name.as_str()
    }
}

impl Clone for Player {
    fn clone(&self) -> (p: Self)
        ensures
            p == *self,
    {
        Player { uuid: self.uuid, name: self.name.clone() }
    }
}

/// A measurement kind: a scalar wrapper over a non-negative count, totally
/// ordered by the wrapped integer. Distinct kinds are mutually incomparable
/// at the type level, so a ranking is always computed over exactly one kind.
pub trait AggregatedPlayerAttribution: Sized + Copy {
    /// The wrapped count, as seen by specifications.
    spec fn count(&self) -> u64;

    /// The wrapped count, for executable comparisons.
    fn attribution_value(&self) -> (v: u64)
        ensures
            v == self.count(),
    ;
}

/// Number of blocks broken.
#[derive(Clone, Copy, Debug, PartialEq, Eq, PartialOrd, Ord, Structural)]
pub struct BreakCount(u64);

/// Number of blocks placed.
#[derive(Clone, Copy, Debug, PartialEq, Eq, PartialOrd, Ord, Structural)]
pub struct BuildCount(u64);

/// Play time, in ticks.
#[derive(Clone, Copy, Debug, PartialEq, Eq, PartialOrd, Ord, Structural)]
pub struct PlayTicks(u64);

/// Number of votes cast.
#[derive(Clone, Copy, Debug, PartialEq, Eq, PartialOrd, Ord, Structural)]
pub struct VoteCount(u64);

impl BreakCount {
    pub fn new(count: u64) -> (c: Self)
        ensures
            c.count() == count,
    {
        BreakCount(count)
    }
}

impl AggregatedPlayerAttribution for BreakCount {
    closed spec fn count(&self) -> u64 {
        self.0
    }

    fn attribution_value(&self) -> (v: u64) {
        self.0
    }
}

impl BuildCount {
    pub fn new(count: u64) -> (c: Self)
        ensures
            c.count() == count,
    {
        BuildCount(count)
    }
}

impl AggregatedPlayerAttribution for BuildCount {
    closed spec fn count(&self) -> u64 {
        self.0
    }

    fn attribution_value(&self) -> (v: u64) {
        self.0
    }
}

impl PlayTicks {
    pub fn new(count: u64) -> (c: Self)
        ensures
            c.count() == count,
    {
        PlayTicks(count)
    }
}

impl AggregatedPlayerAttribution for PlayTicks {
    closed spec fn count(&self) -> u64 {
        self.0
    }

    fn attribution_value(&self) -> (v: u64) {
        self.0
    }
}

impl VoteCount {
    pub fn new(count: u64) -> (c: Self)
        ensures
            c.count() == count,
    {
        VoteCount(count)
    }
}

impl AggregatedPlayerAttribution for VoteCount {
    closed spec fn count(&self) -> u64 {
        self.0
    }

    fn attribution_value(&self) -> (v: u64) {
        self.0
    }
}

/// Ghost view of an [`AttributionRecord`]: the player together with the
/// measured count.
#[verifier::ext_equal]
pub struct RecordModel {
    pub player: PlayerModel,
    pub value: u64,
}

/// One `(player, measured value)` pair for a given measurement kind.
pub struct AttributionRecord<Attribution: AggregatedPlayerAttribution> {
    pub player: Player,
    pub attribution: Attribution,
}

impl<Attribution: AggregatedPlayerAttribution> View for AttributionRecord<Attribution> {
    type V = RecordModel;

    open spec fn view(&self) -> RecordModel {
        RecordModel { player: self.player@, value: self.attribution.count() }
    }
}

impl<Attribution: AggregatedPlayerAttribution> Clone for AttributionRecord<Attribution> {
    fn clone(&self) -> (r: Self)
        ensures
            r == *self,
    {
        AttributionRecord { player: self.player.clone(), attribution: self.attribution }
    }
}

/// Ghost view of a [`RankedAttributionRecord`]: the record together with its
/// 1-based competition rank.
#[verifier::ext_equal]
pub struct RankedModel {
    pub rank: int,
    pub record: RecordModel,
}

/// An attribution record annotated with its computed 1-based rank.
pub struct RankedAttributionRecord<Attribution: AggregatedPlayerAttribution> {
    pub rank: u32,
    pub attribution_record: AttributionRecord<Attribution>,
}

impl<Attribution: AggregatedPlayerAttribution> View for RankedAttributionRecord<Attribution> {
    type V = RankedModel;

    open spec fn view(&self) -> RankedModel {
        RankedModel { rank: self.rank as int, record: self.attribution_record@ }
    }
}

impl<Attribution: AggregatedPlayerAttribution> Clone for RankedAttributionRecord<Attribution> {
    fn clone(&self) -> (r: Self)
        ensures
            r == *self,
    {
        RankedAttributionRecord {
            rank: self.rank,
            attribution_record: self.attribution_record.clone(),
        }
    }
}

/// A source of attribution records, implemented by an external data-collection
/// collaborator. The engine only consumes the returned records; nothing is
/// assumed about how they are gathered.
pub trait AttributionRecordProvider<Attribution: AggregatedPlayerAttribution>: Sized {
    fn get_all_attribution_records(self) -> Vec<AttributionRecord<Attribution>>;
}

/// The aggregation period over which records were collected. The engine
/// treats this as an opaque upstream filter: records handed to it are already
/// restricted to one such period.
#[derive(Clone, Copy, Debug, PartialEq, Eq, Structural)]
pub enum AggregationTimeRange {
    All,
    LastOneYear,
    LastOneMonth,
    LastOneWeek,
    LastOneDay,
}

} // verus!
