use ranking_engine::model::{
    AggregatedPlayerAttribution, AggregationTimeRange, AttributionRecord, BreakCount, BuildCount,
    Player, PlayTicks, VoteCount,
};
use ranking_engine::ranking::Ranking;

fn break_record(uuid: u128, name: &str, count: u64) -> AttributionRecord<BreakCount> {
    AttributionRecord { player: Player::new(uuid, name.to_string()), attribution: BreakCount::new(count) }
}

fn ranks_of(ranking: &Ranking<BreakCount>) -> Vec<(u32, u128, u64)> {
    let slice = ranking.paginate(0, ranking.len());
    slice
        .0
        .iter()
        .map(|r| {
            (
                r.rank,
                r.attribution_record.player.uuid(),
                r.attribution_record.attribution.attribution_value(),
            )
        })
        .collect()
}

#[test]
fn competition_ranking_with_ties() {
    let mut ranking: Ranking<BreakCount> = Ranking::default();
    ranking.hydrate_record_set(vec![
        break_record(3, "C", 8),
        break_record(1, "A", 10),
        break_record(5, "E", 5),
        break_record(2, "B", 10),
        break_record(4, "D", 8),
    ]);
    assert_eq!(
        ranks_of(&ranking),
        vec![(1, 1, 10), (1, 2, 10), (3, 3, 8), (3, 4, 8), (5, 5, 5)]
    );
}

#[test]
fn empty_input_yields_empty_ranking() {
    let mut ranking: Ranking<BreakCount> = Ranking::default();
    ranking.hydrate_record_set(vec![]);
    assert_eq!(ranking.len(), 0);
    let slice = ranking.paginate(0, 0);
    assert!(slice.0.is_empty());
}

#[test]
fn single_record_ranking() {
    let mut ranking: Ranking<BreakCount> = Ranking::default();
    ranking.hydrate_record_set(vec![break_record(7, "A", 5)]);
    assert_eq!(ranking.len(), 1);
    let slice = ranking.paginate(0, 1);
    assert_eq!(slice.0.len(), 1);
    assert_eq!(slice.0[0].rank, 1);
    assert_eq!(slice.0[0].attribution_record.player.uuid(), 7);
    assert_eq!(slice.0[0].attribution_record.player.name(), "A");
    assert_eq!(slice.0[0].attribution_record.attribution.attribution_value(), 5);
    let tail = ranking.paginate(1, 0);
    assert!(tail.0.is_empty());
}

#[test]
fn default_ranking_is_empty() {
    let ranking: Ranking<BreakCount> = Ranking::default();
    assert_eq!(ranking.len(), 0);
}

#[test]
fn build_is_deterministic_across_input_orders() {
    let mut first: Ranking<BreakCount> = Ranking::default();
    first.hydrate_record_set(vec![
        break_record(2, "B", 4),
        break_record(1, "A", 4),
        break_record(3, "C", 9),
    ]);
    let mut second: Ranking<BreakCount> = Ranking::default();
    second.hydrate_record_set(vec![
        break_record(3, "C", 9),
        break_record(1, "A", 4),
        break_record(2, "B", 4),
    ]);
    assert_eq!(ranks_of(&first), ranks_of(&second));
    assert_eq!(ranks_of(&first), vec![(1, 3, 9), (2, 1, 4), (2, 2, 4)]);
}

#[test]
fn rebuild_from_same_records_is_idempotent() {
    let records = || {
        vec![
            break_record(1, "A", 3),
            break_record(2, "B", 12),
            break_record(3, "C", 12),
        ]
    };
    let mut ranking: Ranking<BreakCount> = Ranking::default();
    ranking.hydrate_record_set(records());
    let once = ranks_of(&ranking);
    ranking.hydrate_record_set(records());
    assert_eq!(ranks_of(&ranking), once);
}

#[test]
fn rebuild_replaces_prior_state_wholesale() {
    let mut ranking: Ranking<BreakCount> = Ranking::default();
    ranking.hydrate_record_set(vec![break_record(1, "A", 3), break_record(2, "B", 5)]);
    assert_eq!(ranking.len(), 2);
    ranking.hydrate_record_set(vec![break_record(9, "Z", 1)]);
    assert_eq!(ranks_of(&ranking), vec![(1, 9, 1)]);
}

#[test]
fn pagination_returns_exact_window() {
    let mut ranking: Ranking<BreakCount> = Ranking::default();
    ranking.hydrate_record_set(vec![
        break_record(1, "A", 50),
        break_record(2, "B", 40),
        break_record(3, "C", 30),
        break_record(4, "D", 20),
        break_record(5, "E", 10),
    ]);
    let window = ranking.paginate(1, 3);
    let got: Vec<(u32, u128)> = window
        .0
        .iter()
        .map(|r| (r.rank, r.attribution_record.player.uuid()))
        .collect();
    assert_eq!(got, vec![(2, 2), (3, 3), (4, 4)]);
    let full = ranking.paginate(0, ranking.len());
    assert_eq!(full.0.len(), 5);
    let empty_tail = ranking.paginate(5, 0);
    assert!(empty_tail.0.is_empty());
}

#[test]
fn slice_is_independent_of_later_rebuilds() {
    let mut ranking: Ranking<BreakCount> = Ranking::default();
    ranking.hydrate_record_set(vec![break_record(1, "A", 2), break_record(2, "B", 1)]);
    let slice = ranking.paginate(0, 2);
    ranking.hydrate_record_set(vec![break_record(3, "C", 7)]);
    assert_eq!(slice.0.len(), 2);
    assert_eq!(slice.0[0].attribution_record.player.uuid(), 1);
    assert_eq!(slice.0[1].attribution_record.player.uuid(), 2);
}

#[test]
fn ranks_monotone_and_values_non_increasing() {
    let mut ranking: Ranking<BreakCount> = Ranking::default();
    ranking.hydrate_record_set(vec![
        break_record(1, "A", 7),
        break_record(2, "B", 7),
        break_record(3, "C", 7),
        break_record(4, "D", 2),
        break_record(5, "E", 2),
        break_record(6, "F", 1),
    ]);
    let all = ranks_of(&ranking);
    assert_eq!(all.len(), 6);
    for pair in all.windows(2) {
        assert!(pair[0].0 <= pair[1].0);
        assert!(pair[0].2 >= pair[1].2);
    }
    assert_eq!(
        all.iter().map(|r| r.0).collect::<Vec<u32>>(),
        vec![1, 1, 1, 4, 4, 6]
    );
}

#[test]
fn size_is_preserved() {
    let mut ranking: Ranking<BreakCount> = Ranking::default();
    let records: Vec<AttributionRecord<BreakCount>> = (0..25u64)
        .map(|n| break_record(n as u128, "p", n % 5))
        .collect();
    ranking.hydrate_record_set(records);
    assert_eq!(ranking.len(), 25);
}

#[test]
fn each_measurement_kind_ranks_independently() {
    let mut builds: Ranking<BuildCount> = Ranking::default();
    builds.hydrate_record_set(vec![AttributionRecord {
        player: Player::new(1, "A".to_string()),
        attribution: BuildCount::new(11),
    }]);
    assert_eq!(builds.paginate(0, 1).0[0].attribution_record.attribution.attribution_value(), 11);

    let mut ticks: Ranking<PlayTicks> = Ranking::default();
    ticks.hydrate_record_set(vec![AttributionRecord {
        player: Player::new(2, "B".to_string()),
        attribution: PlayTicks::new(600),
    }]);
    assert_eq!(ticks.paginate(0, 1).0[0].attribution_record.attribution.attribution_value(), 600);

    let mut votes: Ranking<VoteCount> = Ranking::default();
    votes.hydrate_record_set(vec![AttributionRecord {
        player: Player::new(3, "C".to_string()),
        attribution: VoteCount::new(2),
    }]);
    assert_eq!(votes.paginate(0, 1).0[0].attribution_record.attribution.attribution_value(), 2);
}

#[test]
fn player_exposes_identifier_and_label() {
    let player = Player::new(42, "steve".to_string());
    assert_eq!(player.uuid(), 42);
    assert_eq!(player.name(), "steve");
    let copy = player.clone();
    assert_eq!(copy.uuid(), 42);
    assert_eq!(copy.name(), "steve");
}

#[test]
fn measurement_kinds_compare_by_wrapped_count() {
    assert_eq!(BreakCount::new(4), BreakCount::new(4));
    assert_ne!(BreakCount::new(4), BreakCount::new(5));
    assert!(BreakCount::new(4) < BreakCount::new(5));
    assert!(PlayTicks::new(100) > PlayTicks::new(99));
    assert_eq!(VoteCount::new(0), VoteCount::new(0));
}

#[test]
fn aggregation_time_ranges_are_distinct() {
    assert_eq!(AggregationTimeRange::All, AggregationTimeRange::All);
    assert_ne!(AggregationTimeRange::All, AggregationTimeRange::LastOneDay);
    assert_ne!(AggregationTimeRange::LastOneWeek, AggregationTimeRange::LastOneMonth);
    assert_ne!(AggregationTimeRange::LastOneYear, AggregationTimeRange::LastOneDay);
}
