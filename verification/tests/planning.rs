use htap_sql::atoms::{
    extract_predicate_atoms, subtree_slots, LeafCandidateId, PredicateAtomId, PredicateMobility,
    PredicateOrigin, PredicatePlacement,
};
use htap_sql::double::Double;
use htap_sql::expr::{BinOp, Expr};
use htap_sql::optimize::optimize;
use htap_sql::query::{BoundQuery, JoinKind, JoinTree, QueryBody, SelectBody, TableSlot};
use htap_sql::reorder::{
    reorder_joins, reorder_joins_unchecked, validate_predicate_conservation, ReorderedSelect,
};
use htap_sql::stats::{
    estimate_row_count, ColumnStats, EstimateSource, StatsLookup, TableStats,
    DEFAULT_EQUALITY_BITS, DEFAULT_RANGE_BITS,
};
use htap_sql::value::{ColumnDef, DataType, Value};

const DEFAULT_EQUALITY_SELECTIVITY: f64 = 0.1;

const DEFAULT_RANGE_SELECTIVITY: f64 = 0.3;

fn estimate_equality_selectivity(
    stats: &StatsLookup,
    table: &str,
    column: usize,
) -> (f64, EstimateSource) {
    let (d, source) = htap_sql::stats::estimate_equality_selectivity(stats, table, column);
    (f64::from_bits(d.bits), source)
}

fn estimate_range_selectivity(
    stats: &StatsLookup,
    table: &str,
    column: usize,
) -> (f64, EstimateSource) {
    let (d, source) = htap_sql::stats::estimate_range_selectivity(stats, table, column);
    (f64::from_bits(d.bits), source)
}

fn estimate_join_cardinality(left: u64, right: u64, left_share: f64, right_share: f64) -> u64 {
    htap_sql::stats::estimate_join_cardinality(
        left,
        right,
        Double { bits: left_share.to_bits() },
        Double { bits: right_share.to_bits() },
    )
}

#[test]
fn default_shares_are_a_tenth_and_three_tenths() {
    assert_eq!(f64::from_bits(DEFAULT_EQUALITY_BITS), DEFAULT_EQUALITY_SELECTIVITY);
    assert_eq!(f64::from_bits(DEFAULT_RANGE_BITS), DEFAULT_RANGE_SELECTIVITY);
}

fn column(slot: usize, column: usize, name: &str) -> Expr {
    Expr::ColumnRef {
        slot,
        column,
        offset: slot,
        name: name.into(),
        data_type: DataType::Int64,
        nullable: false,
    }
}

fn integer(value: i64) -> Expr {
    Expr::Literal(Value::Int64(value))
}

fn eq(left: Expr, right: Expr) -> Expr {
    Expr::BinaryOp {
        op: BinOp::Eq,
        left: Box::new(left),
        right: Box::new(right),
    }
}

fn and(left: Expr, right: Expr) -> Expr {
    Expr::BinaryOp {
        op: BinOp::And,
        left: Box::new(left),
        right: Box::new(right),
    }
}

fn leaf(slot: usize) -> JoinTree {
    JoinTree::Leaf(slot)
}

fn join(kind: JoinKind, left: JoinTree, right: JoinTree, on: Option<Expr>) -> JoinTree {
    JoinTree::Join {
        kind,
        left: Box::new(left),
        right: Box::new(right),
        on,
    }
}

fn select(join_tree: JoinTree, filter: Option<Expr>) -> SelectBody {
    SelectBody {
        slots: Vec::new(),
        join_tree,
        visible_schemas: Vec::new(),
        filter,
        group_by: Vec::new(),
        aggregates: Vec::new(),
        windows: Vec::new(),
        having: None,
        projection: Vec::new(),
        distinct: false,
        correlated_outer_refs: Vec::new(),
    }
}

fn stats_lookup() -> StatsLookup {
    let stats = TableStats {
        analyzed_at_version: 1,
        row_count: 1_000,
        columns: vec![
            ColumnStats {
                null_count: 0,
                distinct_count: Some(100),
                min: Some(Value::Int64(1)),
                max: Some(Value::Int64(1_000)),
            },
            ColumnStats {
                null_count: 0,
                distinct_count: Some(0),
                min: None,
                max: None,
            },
            ColumnStats {
                null_count: 0,
                distinct_count: None,
                min: Some(Value::String("a".into())),
                max: Some(Value::String("z".into())),
            },
        ],
    };

    StatsLookup {
        tables: vec![("orders".to_string(), stats)],
    }
}

#[test]
fn extracts_simple_where_conjuncts() {
    let filter = and(eq(column(0, 0, "a"), integer(1)), eq(column(1, 0, "b"), integer(2)));
    let atoms = extract_predicate_atoms(&select(
        join(JoinKind::Inner, leaf(0), leaf(1), None),
        Some(filter),
    ));

    assert_eq!(atoms.len(), 2);
    assert_eq!(atoms[0].id, PredicateAtomId(0));
    assert_eq!(atoms[0].referenced_slots, vec![0]);
    assert_eq!(atoms[0].origin, PredicateOrigin::Where);
    assert_eq!(
        atoms[0].mobility,
        PredicateMobility::FreelyMovableWithinComponent
    );
    assert_eq!(atoms[1].id, PredicateAtomId(1));
    assert_eq!(atoms[1].referenced_slots, vec![1]);
    assert_eq!(atoms[1].origin, PredicateOrigin::Where);
    assert_eq!(
        atoms[1].mobility,
        PredicateMobility::FreelyMovableWithinComponent
    );
}

#[test]
fn outer_join_on_conjuncts_are_pinned() {
    let on = and(
        eq(column(0, 0, "a.id"), column(1, 0, "b.id")),
        eq(column(1, 1, "b.active"), integer(1)),
    );
    let atoms = extract_predicate_atoms(&select(
        join(JoinKind::Left, leaf(0), leaf(1), Some(on)),
        None,
    ));

    assert_eq!(atoms.len(), 2);
    for (id, atom) in atoms.iter().enumerate() {
        assert_eq!(atom.id, PredicateAtomId(id as u32));
        assert_eq!(atom.origin, PredicateOrigin::On { join_index: 0 });
        assert_eq!(
            atom.mobility,
            PredicateMobility::PinnedToJoin { join_id: 0 }
        );
    }
    assert_eq!(atoms[0].referenced_slots, vec![0, 1]);
    assert_eq!(atoms[1].referenced_slots, vec![1]);
}

#[test]
fn inner_on_predicate_under_null_supplying_side_is_pinned() {
    let inner = join(
        JoinKind::Inner,
        leaf(1),
        leaf(2),
        Some(and(
            eq(column(1, 0, "b.id"), column(2, 0, "c.id")),
            eq(column(1, 1, "b.enabled"), integer(1)),
        )),
    );
    let tree = join(
        JoinKind::Left,
        leaf(0),
        inner,
        Some(eq(column(0, 0, "a.id"), column(1, 0, "b.id"))),
    );

    let atoms = extract_predicate_atoms(&select(tree, None));

    assert_eq!(atoms.len(), 3);
    assert_eq!(atoms[0].origin, PredicateOrigin::On { join_index: 0 });
    assert_eq!(
        atoms[0].mobility,
        PredicateMobility::PinnedToJoin { join_id: 0 }
    );
    assert_eq!(atoms[1].origin, PredicateOrigin::On { join_index: 0 });
    assert_eq!(
        atoms[1].mobility,
        PredicateMobility::PinnedToJoin { join_id: 0 }
    );
}

#[test]
fn where_on_left_join_null_supplying_side_is_post_join_only() {
    let tree = join(
        JoinKind::Left,
        leaf(0),
        leaf(1),
        Some(eq(column(0, 0, "a.id"), column(1, 0, "b.id"))),
    );
    let atoms = extract_predicate_atoms(&select(tree, Some(eq(column(1, 1, "b.x"), integer(5)))));

    assert_eq!(atoms.len(), 2);
    assert_eq!(atoms[0].origin, PredicateOrigin::Where);
    assert_eq!(atoms[0].referenced_slots, vec![1]);
    assert_eq!(atoms[0].mobility, PredicateMobility::PostJoinOnly);
    assert_eq!(atoms[1].origin, PredicateOrigin::On { join_index: 0 });
    assert_eq!(
        atoms[1].mobility,
        PredicateMobility::PinnedToJoin { join_id: 0 }
    );
}

#[test]
fn left_side_left_join_on_predicate_remains_pinned() {
    let on = and(
        eq(column(0, 0, "a.id"), column(1, 0, "b.id")),
        eq(column(0, 1, "a.enabled"), integer(1)),
    );
    let atoms = extract_predicate_atoms(&select(
        join(JoinKind::Left, leaf(0), leaf(1), Some(on)),
        None,
    ));

    assert_eq!(atoms.len(), 2);
    assert_eq!(atoms[1].referenced_slots, vec![0]);
    assert_eq!(atoms[1].origin, PredicateOrigin::On { join_index: 0 });
    assert_eq!(
        atoms[1].mobility,
        PredicateMobility::PinnedToJoin { join_id: 0 }
    );
}

#[test]
fn correlated_where_predicate_is_post_join_only() {
    let predicate = eq(
        column(0, 0, "a.id"),
        Expr::ScalarSubquery {
            index: 0,
            data_type: DataType::Int64,
            correlated: true,
        },
    );
    let atoms = extract_predicate_atoms(&select(leaf(0), Some(predicate)));

    assert_eq!(atoms.len(), 1);
    assert_eq!(atoms[0].id, PredicateAtomId(0));
    assert_eq!(atoms[0].origin, PredicateOrigin::Where);
    assert_eq!(atoms[0].referenced_slots, vec![0]);
    assert_eq!(atoms[0].mobility, PredicateMobility::PostJoinOnly);
}

#[test]
fn predicate_spanning_outer_join_boundary_is_post_join_only() {
    let tree = join(
        JoinKind::Inner,
        join(
            JoinKind::Left,
            leaf(0),
            leaf(1),
            Some(eq(column(0, 0, "a.id"), column(1, 0, "b.id"))),
        ),
        leaf(2),
        None,
    );
    let predicate = eq(column(0, 1, "a.x"), column(1, 1, "b.x"));
    let atoms = extract_predicate_atoms(&select(tree, Some(predicate)));

    assert_eq!(atoms.len(), 2);
    assert_eq!(atoms[0].origin, PredicateOrigin::Where);
    assert_eq!(atoms[0].referenced_slots, vec![0, 1]);
    assert_eq!(atoms[0].mobility, PredicateMobility::PostJoinOnly);
    assert_eq!(atoms[1].origin, PredicateOrigin::On { join_index: 0 });
    assert_eq!(
        atoms[1].mobility,
        PredicateMobility::PinnedToJoin { join_id: 0 }
    );
}

#[test]
fn estimates_row_count_from_statistics() {
    assert_eq!(
        estimate_row_count(&stats_lookup(), "orders").unwrap(),
        (1_000, EstimateSource::Stats)
    );
}

#[test]
fn missing_row_count_is_an_error() {
    let error = estimate_row_count(&StatsLookup::none(), "missing").unwrap_err();
    assert!(error.message().contains("missing"));
}

#[test]
fn estimates_equality_selectivity_from_distinct_count() {
    let (selectivity, source) = estimate_equality_selectivity(&stats_lookup(), "orders", 0);
    assert_eq!(selectivity, 0.01);
    assert_eq!(source, EstimateSource::Stats);
}

#[test]
fn equality_selectivity_uses_defaults_for_unknown_statistics() {
    assert_eq!(
        estimate_equality_selectivity(&StatsLookup::none(), "orders", 0),
        (DEFAULT_EQUALITY_SELECTIVITY, EstimateSource::Default)
    );
    assert_eq!(
        estimate_equality_selectivity(&stats_lookup(), "orders", 99),
        (DEFAULT_EQUALITY_SELECTIVITY, EstimateSource::Default)
    );
    assert_eq!(
        estimate_equality_selectivity(&stats_lookup(), "orders", 2),
        (DEFAULT_EQUALITY_SELECTIVITY, EstimateSource::Default)
    );
}

#[test]
fn equality_selectivity_is_clamped_to_one() {
    assert_eq!(
        estimate_equality_selectivity(&stats_lookup(), "orders", 1),
        (1.0, EstimateSource::Stats)
    );
}

#[test]
fn estimates_supported_range_from_statistics() {
    assert_eq!(
        estimate_range_selectivity(&stats_lookup(), "orders", 0),
        (0.3, EstimateSource::Stats)
    );
}

#[test]
fn range_selectivity_uses_defaults_for_unknown_or_unsupported_statistics() {
    assert_eq!(
        estimate_range_selectivity(&StatsLookup::none(), "orders", 0),
        (DEFAULT_RANGE_SELECTIVITY, EstimateSource::Default)
    );
    assert_eq!(
        estimate_range_selectivity(&stats_lookup(), "orders", 99),
        (DEFAULT_RANGE_SELECTIVITY, EstimateSource::Default)
    );
    assert_eq!(
        estimate_range_selectivity(&stats_lookup(), "orders", 2),
        (DEFAULT_RANGE_SELECTIVITY, EstimateSource::Default)
    );
}

#[test]
fn estimates_join_cardinality() {
    assert_eq!(estimate_join_cardinality(1_000, 500, 0.1, 0.2), 10_000);
    assert_eq!(estimate_join_cardinality(10, 20, 1.0, 1.0), 200);
    assert_eq!(estimate_join_cardinality(0, 20, 1.0, 1.0), 1);
    assert_eq!(estimate_join_cardinality(10, 20, 0.0, 1.0), 1);
}

fn tree_slots(tree: &JoinTree) -> Vec<usize> {
    let mut slots = Vec::new();
    subtree_slots(tree, &mut slots);
    slots.sort_unstable();
    slots
}

#[test]
fn test_predicate_conservation_catches_dropped_predicate() {
    let body = select(
        join(
            JoinKind::Inner,
            leaf(0),
            leaf(1),
            Some(eq(column(0, 0, "a.id"), column(1, 0, "b.a_id"))),
        ),
        None,
    );
    let atoms = extract_predicate_atoms(&body);
    let reordered = ReorderedSelect {
        join_tree: body.join_tree.clone(),
        predicate_placements: Vec::new(),
        join_metadata: Vec::new(),
    };

    assert!(validate_predicate_conservation(&body, &atoms, &reordered).is_err());
}

#[test]
fn predicate_conservation_rejects_hoisting_from_outer_join_null_side() {
    let body = select(
        join(
            JoinKind::Left,
            leaf(0),
            join(
                JoinKind::Inner,
                leaf(1),
                leaf(2),
                Some(eq(column(1, 1, "b.enabled"), integer(1))),
            ),
            Some(eq(column(0, 0, "a.id"), column(1, 0, "b.id"))),
        ),
        None,
    );
    let atoms = extract_predicate_atoms(&body);
    let reordered = ReorderedSelect {
        join_tree: body.join_tree.clone(),
        predicate_placements: vec![
            (atoms[0].id, PredicatePlacement::Join(1)),
            (atoms[1].id, PredicatePlacement::Join(1)),
        ],
        join_metadata: Vec::new(),
    };

    assert!(validate_predicate_conservation(&body, &atoms, &reordered).is_err());
}

#[test]
fn test_predicate_conservation_catches_duplicated_predicate() {
    let body = select(
        join(
            JoinKind::Inner,
            leaf(0),
            leaf(1),
            Some(eq(column(0, 0, "a.id"), column(1, 0, "b.a_id"))),
        ),
        None,
    );
    let atoms = extract_predicate_atoms(&body);
    let placement = (atoms[0].id, PredicatePlacement::Join(0));
    let reordered = ReorderedSelect {
        join_tree: body.join_tree.clone(),
        predicate_placements: vec![placement, placement],
        join_metadata: Vec::new(),
    };

    assert!(validate_predicate_conservation(&body, &atoms, &reordered).is_err());
}

fn join_with_slots<'a>(tree: &'a JoinTree, target_slots: &[usize]) -> Option<&'a JoinTree> {
    let JoinTree::Join { left, right, .. } = tree else {
        return None;
    };

    let mut slots = Vec::new();
    subtree_slots(tree, &mut slots);
    slots.sort_unstable();
    slots.dedup();
    if slots == target_slots {
        return Some(tree);
    }

    join_with_slots(left, target_slots).or_else(|| join_with_slots(right, target_slots))
}

#[test]
fn optimize_keeps_pinned_inner_on_predicate_on_an_inner_join() {
    let mut body = select(
        join(
            JoinKind::Left,
            leaf(0),
            join(
                JoinKind::Inner,
                leaf(1),
                leaf(2),
                Some(eq(column(1, 0, "c.id"), column(2, 0, "k.id"))),
            ),
            Some(eq(column(0, 0, "r.id"), column(1, 0, "c.id"))),
        ),
        None,
    );
    body.slots = vec![
        base_slot_with_columns("r", 1),
        base_slot_with_columns("c", 1),
        base_slot_with_columns("k", 1),
    ];

    let physical = optimize(&bound_query(body), &StatsLookup::none());
    let optimized = physical.select.expect("select query should be optimized");
    let inner_pair =
        join_with_slots(&optimized.join_tree, &[1, 2]).expect("inner pair should remain");

    let JoinTree::Join { kind, on, .. } = inner_pair else {
        panic!("inner pair should be a join");
    };
    assert_eq!(*kind, JoinKind::Inner);
    let condition = on
        .as_ref()
        .expect("inner pair should retain its ON predicate");
    assert!(matches!(
        condition,
        Expr::BinaryOp {
            op: BinOp::Eq,
            left,
            right,
        } if matches!(
            left.as_ref(),
            Expr::ColumnRef {
                slot: 1,
                column: 0,
                ..
            }
        ) && matches!(
            right.as_ref(),
            Expr::ColumnRef {
                slot: 2,
                column: 0,
                ..
            }
        )
    ));
}

#[test]
fn optimize_remaps_columns_when_join_predicate_moves() {
    let mut body = select(
        join(
            JoinKind::Inner,
            join(JoinKind::Cross, leaf(0), leaf(1), None),
            leaf(2),
            Some(eq(column(1, 0, "t1.id"), column(2, 0, "t2.id"))),
        ),
        None,
    );
    body.slots = vec![
        base_slot_with_columns("t0", 2),
        base_slot_with_columns("t1", 2),
        base_slot_with_columns("t2", 2),
    ];

    let original_tree = body.join_tree.clone();
    let physical = optimize(&bound_query(body), &StatsLookup::none());
    let optimized = physical.select.expect("select query should be optimized");

    assert!(!physical.fallback);
    assert_ne!(optimized.join_tree, original_tree);
    assert_eq!(tree_slots(&optimized.join_tree), vec![0, 1, 2]);
}

#[test]
fn test_existing_predicate_conservation_mutation_tests_still_pass() {
    let body = select(
        join(
            JoinKind::Inner,
            leaf(0),
            leaf(1),
            Some(eq(column(0, 0, "a.id"), column(1, 0, "b.a_id"))),
        ),
        None,
    );
    let atoms = extract_predicate_atoms(&body);

    let dropped = ReorderedSelect {
        join_tree: body.join_tree.clone(),
        predicate_placements: Vec::new(),
        join_metadata: Vec::new(),
    };
    assert!(validate_predicate_conservation(&body, &atoms, &dropped).is_err());

    let placement = (atoms[0].id, PredicatePlacement::Join(0));
    let duplicated = ReorderedSelect {
        join_tree: body.join_tree.clone(),
        predicate_placements: vec![placement, placement],
        join_metadata: Vec::new(),
    };
    assert!(validate_predicate_conservation(&body, &atoms, &duplicated).is_err());
}

#[test]
fn outer_join_hoisting_shape_passes_conservation_validation() {
    let body = select(
        join(
            JoinKind::Left,
            leaf(0),
            join(
                JoinKind::Inner,
                leaf(1),
                leaf(2),
                Some(and(
                    eq(column(1, 0, "b.id"), column(2, 0, "c.id")),
                    eq(column(1, 1, "b.enabled"), integer(1)),
                )),
            ),
            Some(eq(column(0, 0, "a.id"), column(1, 0, "b.id"))),
        ),
        None,
    );

    let reordered = reorder_joins(&body, &StatsLookup::none()).expect("reordering should succeed");

    assert!(validate_predicate_conservation(
        &body,
        &extract_predicate_atoms(&body),
        &reordered
    )
    .is_ok());
    assert!(reordered
        .predicate_placements
        .iter()
        .take(2)
        .all(|(_, placement)| *placement == PredicatePlacement::Join(0)));
}

#[test]
fn outer_join_sinking_shape_passes_conservation_validation() {
    let body = select(
        join(
            JoinKind::Inner,
            join(
                JoinKind::Left,
                leaf(0),
                leaf(1),
                Some(eq(column(0, 0, "a.id"), column(1, 0, "b.id"))),
            ),
            leaf(2),
            Some(and(
                eq(column(0, 0, "a.id"), column(2, 0, "c.id")),
                eq(column(0, 1, "a.x"), column(1, 1, "b.x")),
            )),
        ),
        None,
    );

    let reordered = reorder_joins(&body, &StatsLookup::none()).expect("reordering should succeed");

    assert!(validate_predicate_conservation(
        &body,
        &extract_predicate_atoms(&body),
        &reordered
    )
    .is_ok());
    assert!(reordered
        .predicate_placements
        .iter()
        .filter(|(id, _)| *id != PredicateAtomId(0))
        .all(|(_, placement)| *placement == PredicatePlacement::Join(1)));
}

#[test]
fn reorders_four_table_star_without_losing_slots() {
    let tree = join(
        JoinKind::Inner,
        join(
            JoinKind::Inner,
            join(
                JoinKind::Inner,
                leaf(0),
                leaf(1),
                Some(eq(column(0, 0, "c.id"), column(1, 0, "a.c_id"))),
            ),
            leaf(2),
            Some(eq(column(0, 0, "c.id"), column(2, 0, "b.c_id"))),
        ),
        leaf(3),
        Some(eq(column(0, 0, "c.id"), column(3, 0, "d.c_id"))),
    );
    let body = select(tree.clone(), None);
    let reordered = reorder_joins(&body, &StatsLookup::none()).expect("reordering should succeed");

    assert_eq!(tree_slots(&reordered.join_tree), vec![0, 1, 2, 3]);
    assert_eq!(reordered.join_metadata.len(), 3);
    assert_eq!(extract_predicate_atoms(&body).len(), 3);
    assert_eq!(reordered.predicate_placements.len(), 3);
}

#[test]
fn reorders_four_table_chain_and_places_each_join_predicate() {
    let tree = join(
        JoinKind::Inner,
        join(
            JoinKind::Inner,
            join(
                JoinKind::Inner,
                leaf(0),
                leaf(1),
                Some(eq(column(0, 0, "a.id"), column(1, 0, "b.a_id"))),
            ),
            leaf(2),
            Some(eq(column(1, 0, "b.id"), column(2, 0, "c.b_id"))),
        ),
        leaf(3),
        Some(eq(column(2, 0, "c.id"), column(3, 0, "d.c_id"))),
    );
    let body = select(tree, None);
    let reordered = reorder_joins(&body, &StatsLookup::none()).expect("reordering should succeed");

    assert_eq!(tree_slots(&reordered.join_tree), vec![0, 1, 2, 3]);
    assert_eq!(reordered.predicate_placements.len(), 3);
    assert!(reordered
        .predicate_placements
        .iter()
        .all(|(_, placement)| matches!(placement, PredicatePlacement::Join(_))));
}

#[test]
fn disconnected_equi_join_subgraphs_require_a_cross_join() {
    let tree = join(
        JoinKind::Inner,
        join(
            JoinKind::Inner,
            leaf(0),
            leaf(1),
            Some(eq(column(0, 0, "a.id"), column(1, 0, "b.a_id"))),
        ),
        join(
            JoinKind::Inner,
            leaf(2),
            leaf(3),
            Some(eq(column(2, 0, "c.id"), column(3, 0, "d.c_id"))),
        ),
        None,
    );
    let body = select(tree, None);
    let reordered = reorder_joins(&body, &StatsLookup::none()).expect("reordering should succeed");

    assert_eq!(tree_slots(&reordered.join_tree), vec![0, 1, 2, 3]);
    assert!(reordered
        .join_metadata
        .iter()
        .any(|metadata| metadata.kind == JoinKind::Cross));
}

#[test]
fn mixed_cross_and_equi_joins_preserve_all_relations() {
    let tree = join(
        JoinKind::Cross,
        join(
            JoinKind::Inner,
            leaf(0),
            leaf(1),
            Some(eq(column(0, 0, "a.id"), column(1, 0, "b.a_id"))),
        ),
        leaf(2),
        None,
    );
    let body = select(tree, None);
    let reordered = reorder_joins(&body, &StatsLookup::none()).expect("reordering should succeed");

    assert_eq!(tree_slots(&reordered.join_tree), vec![0, 1, 2]);
    assert_eq!(reordered.join_metadata.len(), 2);
    assert_eq!(reordered.predicate_placements.len(), 1);
}

fn bound_query(body: SelectBody) -> BoundQuery {
    BoundQuery {
        body: QueryBody::Select(body),
        order_by: Vec::new(),
        limit: None,
        offset: None,
        subqueries: Vec::new(),
        correlated: false,
        correlated_outer_refs: Vec::new(),
        output_columns: Vec::new(),
    }
}

fn base_slot(table: &str) -> TableSlot {
    TableSlot::Base {
        table: table.into(),
        alias: table.into(),
        columns: Vec::new(),
    }
}

fn base_slot_with_columns(table: &str, width: usize) -> TableSlot {
    TableSlot::Base {
        table: table.into(),
        alias: table.into(),
        columns: (0..width)
            .map(|index| ColumnDef {
                name: format!("c{index}"),
                data_type: DataType::Int64,
                nullable: false,
                primary_key: false,
            })
            .collect(),
    }
}

#[test]
fn optimize_produces_valid_output_for_existing_fixture_shapes() {
    let fixtures = [
        select(leaf(0), Some(eq(column(0, 0, "a"), integer(1)))),
        select(
            join(
                JoinKind::Inner,
                leaf(0),
                leaf(1),
                Some(eq(column(0, 0, "a.id"), column(1, 0, "b.id"))),
            ),
            None,
        ),
        select(
            join(
                JoinKind::Left,
                leaf(0),
                leaf(1),
                Some(eq(column(0, 0, "a.id"), column(1, 0, "b.id"))),
            ),
            Some(eq(column(1, 1, "b.x"), integer(5))),
        ),
    ];

    for body in fixtures {
        let atoms = extract_predicate_atoms(&body);
        let reordered = reorder_joins_unchecked(&body, &StatsLookup::none(), &atoms);
        assert!(validate_predicate_conservation(&body, &atoms, &reordered).is_ok());
    }
}

#[test]
fn optimize_falls_back_when_conservation_validation_fails() {
    let body = select(
        join(
            JoinKind::Inner,
            leaf(0),
            leaf(1),
            Some(eq(
                column(2, 0, "missing.id"),
                column(3, 0, "also_missing.id"),
            )),
        ),
        None,
    );

    let physical = optimize(&bound_query(body.clone()), &StatsLookup::none());

    assert!(physical.fallback);
    assert_eq!(physical.select, Some(body));
}

#[test]
fn select_with_empty_slots_is_not_confused_with_empty_plan() {
    let body = select(leaf(0), None);

    let physical = optimize(&bound_query(body.clone()), &StatsLookup::none());

    assert_eq!(physical.select, Some(body));
    assert!(!physical.fallback);
    assert_eq!(physical.node_estimates.len(), 1);
}

#[test]
fn random_small_select_shapes_pass_conservation_validation() {
    let mut state = 0x5eed_u64;
    for relation_count in 1..=6 {
        for _ in 0..64 {
            let mut tree = leaf(0);
            let mut predicates = Vec::new();

            for slot in 1..relation_count {
                state = state.wrapping_mul(6364136223846793005).wrapping_add(1);
                let connected_to = (state as usize) % slot;
                let predicate = eq(
                    column(connected_to, 0, "left.id"),
                    column(slot, 0, "right.id"),
                );
                predicates.push(predicate.clone());
                tree = join(
                    if state & 1 == 0 {
                        JoinKind::Inner
                    } else {
                        JoinKind::Cross
                    },
                    tree,
                    leaf(slot),
                    (state & 1 == 0).then_some(predicate),
                );
            }

            let filter = predicates.into_iter().reduce(and);
            let body = select(tree, filter);
            let atoms = extract_predicate_atoms(&body);
            let reordered = reorder_joins_unchecked(&body, &StatsLookup::none(), &atoms);
            assert!(validate_predicate_conservation(&body, &atoms, &reordered).is_ok());
        }
    }
}

#[test]
fn pushdown_uses_cost_with_stats_and_first_match_without_stats() {
    let mut body = select(
        leaf(0),
        Some(and(
            eq(column(0, 2, "orders.unknown"), integer(1)),
            eq(column(0, 0, "orders.id"), integer(1)),
        )),
    );
    body.slots.push(base_slot("orders"));
    let query = bound_query(body);

    let with_stats = optimize(&query, &stats_lookup());
    assert_eq!(
        with_stats.pushdown_selections.get(&0),
        Some(&Some(LeafCandidateId(1)))
    );

    let without_stats = optimize(&query, &StatsLookup::none());
    assert_eq!(
        without_stats.pushdown_selections.get(&0),
        Some(&Some(LeafCandidateId(0)))
    );
}

#[test]
fn no_split_is_cheaper() {
    let counted = |rows: u64| TableStats {
        analyzed_at_version: 1,
        row_count: rows,
        columns: Vec::new(),
    };
    let stats = StatsLookup {
        tables: vec![
            ("large".to_string(), counted(1_000)),
            ("small".to_string(), counted(10)),
            ("middling".to_string(), counted(20)),
        ],
    };
    let mut body = select(
        join(
            JoinKind::Cross,
            join(JoinKind::Cross, leaf(0), leaf(1), None),
            leaf(2),
            None,
        ),
        None,
    );
    for table in ["large", "small", "middling"] {
        body.slots.push(base_slot(table));
    }
    // 10 * 20 rows in between cost less than 1000 * 10 or 1000 * 20.
    let reordered = reorder_joins(&body, &stats).expect("reordering should succeed");
    assert_eq!(
        reordered.join_tree,
        join(
            JoinKind::Cross,
            leaf(0),
            join(JoinKind::Cross, leaf(1), leaf(2), None),
            None,
        )
    );
}
