use atom_engine::compute::graph::DependencyGraph;
use atom_engine::compute::simd::{select, spread_one, VectorOps};
use atom_engine::lattice::arena::{ArenaShard, LatticeArena, SHARD_COUNT};
use atom_engine::mdf::molecule::{ColumnSpec, ColumnType, MoleculeSchema};
use atom_engine::scalar::Scalar;

fn num(x: f64) -> Scalar {
    Scalar::from_bits(x.to_bits())
}

fn nums(xs: &[f64]) -> Vec<Scalar> {
    xs.iter().map(|&x| num(x)).collect()
}

fn vals(xs: &[Scalar]) -> Vec<f64> {
    xs.iter().map(|x| f64::from_bits(x.to_bits())).collect()
}

fn position(order: &[String], name: &str) -> usize {
    order.iter().position(|n| n == name).unwrap()
}

#[test]
fn nodes_are_added_once() {
    let mut graph = DependencyGraph::new();
    assert_eq!(graph.find_node("Revenue"), None);
    assert_eq!(graph.add_node("Revenue"), 0);
    assert_eq!(graph.add_node("Tax"), 1);
    assert_eq!(graph.add_node("Revenue"), 0);
    assert_eq!(graph.add_node("Net Income"), 2);
    assert_eq!(graph.find_node("Tax"), Some(1));
    assert_eq!(graph.find_node("tax"), None);
    assert_eq!(graph.node_count(), 3);
    assert_eq!(graph.edge_count(), 0);
    graph.add_dependency("Tax", "Revenue");
    graph.add_dependency("Tax", "Revenue");
    assert_eq!(graph.node_count(), 3);
    assert_eq!(graph.edge_count(), 2);
    let order = graph.resolve_order().unwrap();
    assert_eq!(order.len(), 3);
}

#[test]
fn dependencies_come_first() {
    let mut graph = DependencyGraph::new();
    graph.add_dependency("Net Income", "Tax");
    graph.add_dependency("Tax", "Revenue");
    graph.add_dependency("Net Income", "Revenue");
    let order = graph.resolve_order().unwrap();
    assert_eq!(order, vec!["Revenue", "Tax", "Net Income"]);
}

#[test]
fn every_edge_is_respected() {
    let mut graph = DependencyGraph::new();
    let edges = [
        ("e", "c"),
        ("e", "d"),
        ("d", "b"),
        ("c", "b"),
        ("b", "a"),
        ("f", "a"),
        ("g", "f"),
        ("g", "e"),
        ("d", "b"),
    ];
    for (dependent, dependency) in edges.iter() {
        graph.add_dependency(dependent, dependency);
    }
    graph.add_node("alone");
    let order = graph.resolve_order().unwrap();
    assert_eq!(order.len(), 8);
    for name in ["a", "b", "c", "d", "e", "f", "g", "alone"].iter() {
        assert_eq!(order.iter().filter(|n| n == name).count(), 1);
    }
    for (dependent, dependency) in edges.iter() {
        assert!(position(&order, dependency) < position(&order, dependent));
    }
}

#[test]
fn cycles_are_detected() {
    let mut graph = DependencyGraph::new();
    graph.add_dependency("a", "b");
    graph.add_dependency("b", "c");
    assert!(graph.resolve_order().is_ok());
    graph.add_dependency("c", "a");
    assert_eq!(graph.resolve_order(), Err("Cycle detected in dependency graph!".to_string()));
    let mut own = DependencyGraph::new();
    own.add_dependency("x", "x");
    assert_eq!(own.resolve_order(), Err("Cycle detected in dependency graph!".to_string()));
    assert_eq!(DependencyGraph::new().resolve_order(), Ok(Vec::new()));
}

#[test]
fn a_shard_keeps_cells_in_slots() {
    let mut shard = ArenaShard::new(4);
    assert_eq!(shard.get_cell(7), num(0.0));
    assert_eq!(shard.set_cell(7, num(1.5)), 0);
    assert_eq!(shard.set_cell(9, num(2.5)), 1);
    assert_eq!(shard.set_cell(7, num(3.5)), 0);
    assert_eq!(shard.get_cell(7), num(3.5));
    assert_eq!(shard.get_cell(9), num(2.5));
    assert_eq!(shard.get_cell(8), num(0.0));
    assert_eq!(shard.set_string("note".to_string()), 0);
    assert_eq!(shard.set_string("more".to_string()), 1);
    let mut out = vec![num(9.0)];
    shard.append_values(&mut out);
    assert_eq!(out, nums(&[9.0, 3.5, 2.5]));
}

#[test]
fn an_arena_shards_by_hash() {
    assert_eq!(SHARD_COUNT, 64);
    assert_eq!(LatticeArena::shard_index(0), 0);
    assert_eq!(LatticeArena::shard_index(63), 63);
    assert_eq!(LatticeArena::shard_index(64), 0);
    assert_eq!(LatticeArena::shard_index(u128::MAX), 63);
    let mut arena = LatticeArena::new(1000);
    assert!(arena.get_vector().is_empty());
    assert_eq!(arena.get_cell(5), num(0.0));
    assert_eq!(arena.set_cell(5, num(1.0)), 0);
    assert_eq!(arena.set_cell(69, num(2.0)), 1);
    assert_eq!(arena.set_cell(2, num(3.0)), 0);
    assert_eq!(arena.set_cell(5, num(4.0)), 0);
    assert_eq!(arena.set_cell(u128::MAX, num(5.0)), 0);
    assert_eq!(arena.get_cell(5), num(4.0));
    assert_eq!(arena.get_cell(69), num(2.0));
    assert_eq!(arena.get_cell(2), num(3.0));
    assert_eq!(arena.get_cell(133), num(0.0));
    assert_eq!(arena.get_vector(), nums(&[3.0, 4.0, 2.0, 5.0]));
    assert_eq!(arena.set_string(5, "a".to_string()), 0);
    assert_eq!(arena.set_string(69, "b".to_string()), 1);
    assert_eq!(arena.set_string(6, "c".to_string()), 0);
}

#[test]
fn dates_are_stored_as_numbers() {
    let mut arena = LatticeArena::new(0);
    assert_eq!(arena.set_date(1, 1_700_000_000_000), 0);
    assert_eq!(arena.get_cell(1), num(1_700_000_000_000i64 as f64));
    assert_eq!(arena.set_date(1, -42), 0);
    assert_eq!(arena.get_cell(1), num(-42.0));
    for &n in [0i64, 1, -1, i64::MAX, i64::MIN, (1 << 53) + 1, -(1 << 53) - 1, 123_456_789].iter() {
        assert_eq!(Scalar::from_integer(n).to_bits(), (n as f64).to_bits(), "{}", n);
    }
}

#[test]
fn the_molecule_schema() {
    let schema = MoleculeSchema::schema();
    let column = |name: &str, data_type: ColumnType, nullable: bool| ColumnSpec {
        name: name.to_string(),
        data_type,
        nullable,
    };
    assert_eq!(
        schema,
        vec![
            column("coordinate_hash", ColumnType::Binary, false),
            column("numeric_value", ColumnType::Float64, true),
            column("text_commentary", ColumnType::Utf8, true),
            column("embedding_vector", ColumnType::Binary, true),
            column("date_value", ColumnType::Int64, true),
            column("boolean_value", ColumnType::Boolean, true),
            column("error_value", ColumnType::Utf8, true),
            column("timestamp", ColumnType::Int64, false),
            column("source_system", ColumnType::Utf8, false),
            column("security_mask", ColumnType::UInt64, false),
            column("causality_clock", ColumnType::Binary, true),
            column("is_locked", ColumnType::Boolean, true),
        ]
    );
}

#[test]
fn vectors_combine_element_by_element() {
    let a = nums(&[1.0, 2.0, 3.0, 8.0]);
    let b = nums(&[4.0, 5.0, 6.0, 0.0]);
    assert_eq!(vals(&VectorOps::add(&a, &b)), vec![5.0, 7.0, 9.0, 8.0]);
    assert_eq!(vals(&VectorOps::sub(&a, &b)), vec![-3.0, -3.0, -3.0, 8.0]);
    assert_eq!(vals(&VectorOps::mul(&a, &b)), vec![4.0, 10.0, 18.0, 0.0]);
    assert_eq!(vals(&VectorOps::div(&a, &b)), vec![0.25, 0.4, 0.5, f64::INFINITY]);
    assert_eq!(vals(&VectorOps::add(&a, &b[..2])), vec![5.0, 7.0]);
    assert!(VectorOps::mul(&[], &b).is_empty());
    let long: Vec<f64> = (0..10_000).map(|i| i as f64).collect();
    let doubled = VectorOps::add(&nums(&long), &nums(&long));
    assert_eq!(vals(&doubled), long.iter().map(|x| x * 2.0).collect::<Vec<f64>>());
}

#[test]
fn totals() {
    assert_eq!(vals(&[VectorOps::sum(&nums(&[1.0, 2.0, 3.0, 4.0]))]), vec![10.0]);
    assert_eq!(vals(&[VectorOps::sum(&[])]), vec![0.0]);
    let long: Vec<f64> = (1..=1000).map(|i| i as f64).collect();
    assert_eq!(vals(&[VectorOps::sum(&nums(&long))]), vec![500_500.0]);
}

#[test]
fn selecting_by_lock() {
    let values = nums(&[1.0, 2.0, 3.0, 4.0]);
    let locks = [true, false, true];
    assert_eq!(vals(&select(&values, &locks, true)), vec![1.0, 3.0]);
    assert_eq!(vals(&select(&values, &locks, false)), vec![2.0]);
    assert!(select(&values, &[], true).is_empty());
    assert_eq!(vals(&select(&values[..1], &locks, true)), vec![1.0]);
}

#[test]
fn spreading_a_target() {
    let current = nums(&[10.0, 0.0, 0.0, 5.0]);
    let reference = nums(&[1.0, 1.0, 3.0, 7.0]);
    let locked = [true, false, false, true];
    // 100 - (10 + 5) = 85 is left; the unlocked weights are 1 and 3.
    let spread = VectorOps::proportional_spread(num(100.0), &current, &reference, &locked);
    assert_eq!(vals(&spread), vec![10.0, 21.25, 63.75, 5.0]);
    let by_hand = VectorOps::spread_with_sums(num(85.0), num(4.0), &current, &reference, &locked);
    assert_eq!(spread, by_hand);
    // Unlocked weights that add up to zero give zeros.
    let flat = VectorOps::proportional_spread(num(100.0), &current, &nums(&[1.0, 0.0, 0.0, 1.0]), &locked);
    assert_eq!(vals(&flat), vec![10.0, 0.0, 0.0, 5.0]);
    // The shortest vector decides the length.
    let short = VectorOps::proportional_spread(num(8.0), &current, &reference[..3], &[false, false]);
    assert_eq!(vals(&short), vec![4.0, 4.0]);
    assert_eq!(vals(&[spread_one(num(9.0), num(1.0), true, num(2.0), num(6.0))]), vec![9.0]);
    assert_eq!(vals(&[spread_one(num(9.0), num(1.0), false, num(2.0), num(6.0))]), vec![3.0]);
    assert_eq!(vals(&[spread_one(num(9.0), num(1.0), false, num(-0.0), num(6.0))]), vec![0.0]);
}
