use veronica::domain::NodeId;
use veronica::node_graph::{GraphError, NodeGraph};
use veronica::operator_graph::{
    GraphSnapshot, OperatorGraph, DEFAULT_OPERATOR_NAME, GRAPH_SNAPSHOT_VERSION,
};
use veronica::params::{Operator, OperatorKind, ParamValue, Position};

const GRAPH_SNAPSHOT_PREVIOUS_VERSION: u32 = GRAPH_SNAPSHOT_VERSION - 1;

fn position(x: f64, y: f64) -> Position {
    Position {
        x: x.to_bits(),
        y: y.to_bits(),
    }
}

#[test]
fn evaluation_is_dependency_first() {
    let mut graph = NodeGraph::new();
    graph.add_dependency(NodeId(1), NodeId(2)).unwrap();
    graph.add_dependency(NodeId(2), NodeId(3)).unwrap();
    assert_eq!(
        graph.evaluation_order().unwrap(),
        vec![NodeId(1), NodeId(2), NodeId(3)]
    );
}

#[test]
fn cycle_is_an_error() {
    let mut graph = NodeGraph::new();
    graph.add_dependency(NodeId(1), NodeId(2)).unwrap();
    graph.add_dependency(NodeId(2), NodeId(1)).unwrap();
    assert_eq!(graph.evaluation_order(), Err(GraphError::Cycle));
}

#[test]
fn node_removal_keeps_toposort_coherent() {
    let mut graph = NodeGraph::new();
    graph.add_dependency(NodeId(1), NodeId(2)).unwrap();
    graph.add_dependency(NodeId(2), NodeId(3)).unwrap();
    assert!(graph.remove_node(NodeId(2)));
    assert!(!graph.remove_node(NodeId(2)));
    assert!(!graph.remove_node(NodeId(99)));
    assert_eq!(graph.evaluation_order().unwrap().len(), 2);
    assert!(graph.edges().is_empty());
}

#[test]
fn create_issues_ids_from_one_with_default_name() {
    let mut graph = OperatorGraph::new();
    assert!(graph.is_empty());
    let first = graph
        .create_operator(OperatorKind::Container, None, position(1.0, 2.0))
        .unwrap();
    let second = graph
        .create_operator(OperatorKind::Container, Some(first), position(3.0, 4.0))
        .unwrap();
    assert_eq!(first, NodeId(1));
    assert_eq!(second, NodeId(2));
    assert_eq!(graph.len(), 2);
    let operator = graph.operator(first).unwrap();
    assert_eq!(operator.name, DEFAULT_OPERATOR_NAME);
    assert_eq!(operator.kind, OperatorKind::Container);
    assert_eq!(operator.parent, None);
    assert_eq!(graph.operator(second).unwrap().parent, Some(first));
}

#[test]
fn create_rejects_unknown_parent() {
    let mut graph = OperatorGraph::new();
    assert_eq!(
        graph.create_operator(OperatorKind::Container, Some(NodeId(9)), position(0.0, 0.0)),
        Err(GraphError::UnknownNode(NodeId(9)))
    );
    assert!(graph.is_empty());
}

#[test]
fn move_updates_position_and_rejects_unknown_id() {
    let mut graph = OperatorGraph::new();
    let id = graph
        .create_operator(OperatorKind::Container, None, position(0.0, 0.0))
        .unwrap();
    graph.move_operator(id, position(120.0, 80.0)).unwrap();
    assert_eq!(graph.operator(id).unwrap().position, position(120.0, 80.0));
    assert_eq!(
        graph.move_operator(NodeId(99), position(0.0, 0.0)),
        Err(GraphError::UnknownNode(NodeId(99)))
    );
}

#[test]
fn rename_accepts_names_and_rejects_empty_or_blank() {
    let mut graph = OperatorGraph::new();
    let id = graph
        .create_operator(OperatorKind::Container, None, position(0.0, 0.0))
        .unwrap();
    graph.rename_operator(id, "Hero").unwrap();
    assert_eq!(graph.operator(id).unwrap().name, "Hero");
    assert_eq!(graph.rename_operator(id, ""), Err(GraphError::EmptyName));
    assert_eq!(graph.rename_operator(id, "   "), Err(GraphError::EmptyName));
    assert_eq!(
        graph.rename_operator(NodeId(99), "Hero"),
        Err(GraphError::UnknownNode(NodeId(99)))
    );
    assert_eq!(graph.operator(id).unwrap().name, "Hero");
}

#[test]
fn delete_cascades_the_subtree() {
    let mut graph = OperatorGraph::new();
    let root = graph
        .create_operator(OperatorKind::Container, None, position(0.0, 0.0))
        .unwrap();
    let child = graph
        .create_operator(OperatorKind::Container, Some(root), position(1.0, 1.0))
        .unwrap();
    let grandchild = graph
        .create_operator(OperatorKind::Container, Some(child), position(2.0, 2.0))
        .unwrap();
    let survivor = graph
        .create_operator(OperatorKind::Container, None, position(9.0, 9.0))
        .unwrap();
    graph.delete_operator(root).unwrap();
    assert!(graph.operator(root).is_none());
    assert!(graph.operator(child).is_none());
    assert!(graph.operator(grandchild).is_none());
    assert!(graph.operator(survivor).is_some());
    assert_eq!(graph.len(), 1);
    assert_eq!(
        graph.delete_operator(root),
        Err(GraphError::UnknownNode(root))
    );
}

#[test]
fn restore_rejects_unsupported_version() {
    let mut graph = OperatorGraph::new();
    for version in [1, GRAPH_SNAPSHOT_VERSION + 1] {
        let snapshot = GraphSnapshot {
            version,
            ..GraphSnapshot::default()
        };
        assert_eq!(
            graph.restore(snapshot),
            Err(GraphError::UnsupportedVersion(version))
        );
        assert!(graph.is_empty());
    }
}

#[test]
fn restore_accepts_previous_wire_version() {
    let mut graph = OperatorGraph::new();
    let snapshot = GraphSnapshot {
        version: GRAPH_SNAPSHOT_PREVIOUS_VERSION,
        operators: vec![Operator::new(
            NodeId(1),
            OperatorKind::Cube,
            "Box",
            None,
            position(0.0, 0.0),
        )],
        edges: vec![],
    };
    graph.restore(snapshot).unwrap();
    assert_eq!(graph.len(), 1);
}

#[test]
fn restore_rejects_zero_ids_and_dangling_parents() {
    let mut graph = OperatorGraph::new();
    let zero = GraphSnapshot {
        version: GRAPH_SNAPSHOT_VERSION,
        operators: vec![Operator::new(
            NodeId(0),
            OperatorKind::Container,
            "Zero",
            None,
            position(0.0, 0.0),
        )],
        edges: vec![],
    };
    assert_eq!(graph.restore(zero), Err(GraphError::UnknownNode(NodeId(0))));

    let dangling = GraphSnapshot {
        version: GRAPH_SNAPSHOT_VERSION,
        operators: vec![Operator::new(
            NodeId(1),
            OperatorKind::Container,
            "Orphan",
            Some(NodeId(7)),
            position(0.0, 0.0),
        )],
        edges: vec![],
    };
    assert_eq!(
        graph.restore(dangling),
        Err(GraphError::UnknownNode(NodeId(7)))
    );
    assert!(graph.is_empty());
}

#[test]
fn restore_rejects_duplicate_ids_and_blank_names() {
    let mut graph = OperatorGraph::new();
    let duplicate = GraphSnapshot {
        version: GRAPH_SNAPSHOT_VERSION,
        operators: vec![
            Operator::new(
                NodeId(1),
                OperatorKind::Container,
                "First",
                None,
                position(0.0, 0.0),
            ),
            Operator::new(
                NodeId(1),
                OperatorKind::Container,
                "Second",
                None,
                position(1.0, 1.0),
            ),
        ],
        edges: vec![],
    };
    assert_eq!(
        graph.restore(duplicate),
        Err(GraphError::DuplicateNode(NodeId(1)))
    );

    let blank = GraphSnapshot {
        version: GRAPH_SNAPSHOT_VERSION,
        operators: vec![Operator::new(
            NodeId(1),
            OperatorKind::Container,
            "   ",
            None,
            position(0.0, 0.0),
        )],
        edges: vec![],
    };
    assert_eq!(graph.restore(blank), Err(GraphError::EmptyName));
    assert!(graph.is_empty());
}

#[test]
fn snapshot_orders_operators_by_id() {
    let mut graph = OperatorGraph::new();
    let b = graph
        .create_operator(OperatorKind::Container, None, position(0.0, 0.0))
        .unwrap();
    let a = graph
        .create_operator(OperatorKind::Container, None, position(0.0, 0.0))
        .unwrap();
    graph.delete_operator(a).unwrap();
    let c = graph
        .create_operator(OperatorKind::Container, None, position(0.0, 0.0))
        .unwrap();
    let ids: Vec<u64> = graph.snapshot().operators.iter().map(|o| o.id.0).collect();
    assert_eq!(ids, vec![b.0, c.0]);
}

#[test]
fn f64_positions_survive_snapshot_restore_bit_identical() {
    const TRICKY: [f64; 10] = [
        0.0,
        -0.0,
        1.0,
        -1.0,
        std::f64::consts::PI,
        120.0,
        1e300,
        5e-324,
        2.225_073_858_507_201_4e-308,
        1.797_693_134_862_315_7e308,
    ];
    let mut graph = OperatorGraph::new();
    for (index, value) in TRICKY.iter().enumerate() {
        let parent = if index == 0 {
            None
        } else {
            Some(NodeId(index as u64))
        };
        graph
            .create_operator(OperatorKind::Container, parent, position(*value, -*value))
            .unwrap();
    }
    let before = graph.snapshot();
    let mut revived = OperatorGraph::new();
    revived.restore(before.clone()).unwrap();
    let after = revived.snapshot();
    assert_eq!(before, after);
    for (original, round_tripped) in graph
        .snapshot()
        .operators
        .iter()
        .zip(revived.snapshot().operators.iter())
    {
        assert_eq!(original.position.x, round_tripped.position.x);
        assert_eq!(original.position.y, round_tripped.position.y);
    }
}

#[test]
fn restore_continues_id_sequence_past_max() {
    let mut graph = OperatorGraph::new();
    graph
        .create_operator(OperatorKind::Container, None, position(0.0, 0.0))
        .unwrap();
    graph
        .create_operator(OperatorKind::Container, None, position(0.0, 0.0))
        .unwrap();
    let snapshot = graph.snapshot();
    let mut revived = OperatorGraph::new();
    revived.restore(snapshot).unwrap();
    let next = revived
        .create_operator(OperatorKind::Container, None, position(0.0, 0.0))
        .unwrap();
    assert_eq!(next, NodeId(3));
}

#[test]
fn new_operators_start_with_empty_parameters() {
    let mut graph = OperatorGraph::new();
    let id = graph
        .create_operator(OperatorKind::Container, None, position(0.0, 0.0))
        .unwrap();
    assert!(graph.operator(id).unwrap().parameters.is_empty());
}

#[test]
fn set_parameter_stores_custom_keys_verbatim_values() {
    let mut graph = OperatorGraph::new();
    let id = graph
        .create_operator(OperatorKind::Container, None, position(0.0, 0.0))
        .unwrap();
    graph.set_parameter(id, "label", "  spaced  ").unwrap();
    graph.set_parameter(id, "  padded  ", "v").unwrap();
    let operator = graph.operator(id).unwrap();
    assert_eq!(
        operator.parameters.get("label"),
        Some(&ParamValue::Text("  spaced  ".to_owned()))
    );
    assert_eq!(
        operator.parameters.get("padded"),
        Some(&ParamValue::Text("v".to_owned()))
    );
    assert!(!operator.parameters.contains_key("  padded  "));
}

#[test]
fn set_parameter_name_key_delegates_to_rename() {
    let mut graph = OperatorGraph::new();
    let id = graph
        .create_operator(OperatorKind::Container, None, position(0.0, 0.0))
        .unwrap();
    graph.set_parameter(id, "name", "Hero").unwrap();
    assert_eq!(graph.operator(id).unwrap().name, "Hero");
    graph.set_parameter(id, "  name  ", "Villain").unwrap();
    assert_eq!(graph.operator(id).unwrap().name, "Villain");
    assert_eq!(
        graph.set_parameter(id, "name", "   "),
        Err(GraphError::EmptyName)
    );
    assert_eq!(graph.operator(id).unwrap().name, "Villain");
}

#[test]
fn set_parameter_rejects_blank_keys_and_unknown_ids() {
    let mut graph = OperatorGraph::new();
    let id = graph
        .create_operator(OperatorKind::Container, None, position(0.0, 0.0))
        .unwrap();
    assert_eq!(
        graph.set_parameter(id, "", "v"),
        Err(GraphError::EmptyParameterKey)
    );
    assert_eq!(
        graph.set_parameter(id, "   ", "v"),
        Err(GraphError::EmptyParameterKey)
    );
    assert_eq!(
        graph.set_parameter(NodeId(99), "label", "v"),
        Err(GraphError::UnknownNode(NodeId(99)))
    );
    assert_eq!(
        graph.set_parameter(NodeId(99), "name", "Hero"),
        Err(GraphError::UnknownNode(NodeId(99)))
    );
    assert!(graph.operator(id).unwrap().parameters.is_empty());
}

#[test]
fn set_parameter_value_stores_typed_values_verbatim() {
    let mut graph = OperatorGraph::new();
    let id = graph
        .create_operator(OperatorKind::Container, None, position(0.0, 0.0))
        .unwrap();
    let before = graph.epoch();
    graph
        .set_parameter_value(id, "gain", ParamValue::Float(0.75_f64.to_bits()))
        .unwrap();
    graph
        .set_parameter_value(
            id,
            "  size  ",
            ParamValue::Vec3([2.0_f64.to_bits(), f64::NAN.to_bits(), 1.0_f64.to_bits()]),
        )
        .unwrap();
    graph
        .set_parameter_value(id, "count", ParamValue::Integer(-3))
        .unwrap();
    graph
        .set_parameter_value(id, "visible", ParamValue::Flag(true))
        .unwrap();
    let operator = graph.operator(id).unwrap();
    assert_eq!(
        operator.parameters.get("gain"),
        Some(&ParamValue::Float(0.75_f64.to_bits()))
    );
    assert_eq!(operator.parameters.get("count"), Some(&ParamValue::Integer(-3)));
    assert_eq!(operator.parameters.get("visible"), Some(&ParamValue::Flag(true)));
    assert!(!operator.parameters.contains_key("  size  "));
    if let Some(ParamValue::Vec3(triple)) = operator.parameters.get("size") {
        assert_eq!(triple[0], 2.0_f64.to_bits());
        assert!(f64::from_bits(triple[1]).is_nan());
    } else {
        panic!("size must store as Vec3");
    }
    assert!(graph.epoch() > before);
}

#[test]
fn set_parameter_value_rejects_blank_keys_and_unknown_ids() {
    let mut graph = OperatorGraph::new();
    let id = graph
        .create_operator(OperatorKind::Container, None, position(0.0, 0.0))
        .unwrap();
    let before = graph.epoch();
    assert_eq!(
        graph.set_parameter_value(id, "", ParamValue::Float(1.0_f64.to_bits())),
        Err(GraphError::EmptyParameterKey)
    );
    assert_eq!(
        graph.set_parameter_value(id, "   ", ParamValue::Float(1.0_f64.to_bits())),
        Err(GraphError::EmptyParameterKey)
    );
    assert_eq!(
        graph.set_parameter_value(NodeId(99), "gain", ParamValue::Float(1.0_f64.to_bits())),
        Err(GraphError::UnknownNode(NodeId(99)))
    );
    assert_eq!(graph.epoch(), before);
    assert!(graph.operator(id).unwrap().parameters.is_empty());
}

#[test]
fn set_parameter_value_name_is_always_reserved() {
    let mut graph = OperatorGraph::new();
    let id = graph
        .create_operator(OperatorKind::Container, None, position(0.0, 0.0))
        .unwrap();
    let before = graph.epoch();
    for value in [
        ParamValue::Text("Hero".to_owned()),
        ParamValue::Float(1.0_f64.to_bits()),
        ParamValue::Integer(1),
        ParamValue::Flag(true),
        ParamValue::Vec3([1.0_f64.to_bits(); 3]),
    ] {
        assert_eq!(
            graph.set_parameter_value(id, "name", value),
            Err(GraphError::ReservedParameterKey("name".to_owned()))
        );
    }
    assert_eq!(
        graph.set_parameter_value(NodeId(99), "name", ParamValue::Float(1.0_f64.to_bits())),
        Err(GraphError::UnknownNode(NodeId(99)))
    );
    assert_eq!(graph.epoch(), before);
    assert_eq!(graph.operator(id).unwrap().name, "Container");
    assert!(!graph.operator(id).unwrap().parameters.contains_key("name"));
}

#[test]
fn restore_rejects_blank_parameter_keys() {
    let mut graph = OperatorGraph::new();
    let mut bad = Operator::new(
        NodeId(1),
        OperatorKind::Container,
        "Hero",
        None,
        position(0.0, 0.0),
    );
    bad.parameters
        .insert(String::new(), ParamValue::Text("v".to_owned()));
    let snapshot = GraphSnapshot {
        version: GRAPH_SNAPSHOT_VERSION,
        operators: vec![bad],
        edges: vec![],
    };
    assert_eq!(graph.restore(snapshot), Err(GraphError::EmptyParameterKey));
    assert!(graph.is_empty());

    let mut blank = Operator::new(
        NodeId(1),
        OperatorKind::Container,
        "Hero",
        None,
        position(0.0, 0.0),
    );
    blank
        .parameters
        .insert("   ".to_owned(), ParamValue::Text("v".to_owned()));
    let snapshot = GraphSnapshot {
        version: GRAPH_SNAPSHOT_VERSION,
        operators: vec![blank],
        edges: vec![],
    };
    assert_eq!(graph.restore(snapshot), Err(GraphError::EmptyParameterKey));
    assert!(graph.is_empty());
}

#[test]
fn snapshot_round_trip_carries_parameters_bit_identical() {
    let mut graph = OperatorGraph::new();
    let id = graph
        .create_operator(OperatorKind::Container, None, position(1.0, 2.0))
        .unwrap();
    graph.set_parameter(id, "label", "Hero").unwrap();
    graph.set_parameter(id, "note", "  verbatim  ").unwrap();
    graph
        .set_parameter_value(
            id,
            "size",
            ParamValue::Vec3([1.0_f64.to_bits(), (-0.0_f64).to_bits(), 3.25_f64.to_bits()]),
        )
        .unwrap();
    let before = graph.snapshot();
    let mut revived = OperatorGraph::new();
    revived.restore(before.clone()).unwrap();
    let after = revived.snapshot();
    assert_eq!(before, after);
    assert_eq!(
        revived.operator(id).unwrap().parameters,
        graph.operator(id).unwrap().parameters
    );
    assert!(
        matches!(
            revived.operator(id).unwrap().parameters.get("size"),
            Some(ParamValue::Vec3(_))
        ),
        "size must survive as a triple"
    );
    if let Some(ParamValue::Vec3(triple)) = revived.operator(id).unwrap().parameters.get("size") {
        assert_eq!(triple[1], (-0.0_f64).to_bits());
    }
}

#[test]
fn version_one_snapshots_are_rejected_not_migrated() {
    let stale = GraphSnapshot {
        version: 1,
        operators: vec![Operator::new(
            NodeId(7),
            OperatorKind::Container,
            "Hero",
            None,
            position(120.0, 80.0),
        )],
        edges: vec![],
    };
    assert_eq!(stale.version, 1);
    assert_ne!(stale.version, GRAPH_SNAPSHOT_VERSION);
    let mut graph = OperatorGraph::new();
    assert_eq!(graph.restore(stale), Err(GraphError::UnsupportedVersion(1)));
    assert!(graph.is_empty());
}

#[test]
fn fixture_without_parameters_decodes_to_empty_map() {
    let snapshot = GraphSnapshot {
        version: 2,
        operators: vec![Operator::new(
            NodeId(7),
            OperatorKind::Container,
            "Hero",
            None,
            position(120.0, 80.0),
        )],
        edges: vec![],
    };
    assert_eq!(snapshot.operators.len(), 1);
    assert!(snapshot.operators[0].parameters.is_empty());
    let mut graph = OperatorGraph::new();
    graph.restore(snapshot).unwrap();
    assert!(graph.operator(NodeId(7)).unwrap().parameters.is_empty());
}

#[test]
fn new_graph_starts_at_epoch_zero() {
    assert_eq!(OperatorGraph::new().epoch(), 0);
}

#[test]
fn every_successful_mutation_bumps_epoch_once() {
    let mut graph = OperatorGraph::new();
    let id = graph
        .create_operator(OperatorKind::Container, None, position(0.0, 0.0))
        .unwrap();
    assert_eq!(graph.epoch(), 1);
    graph.move_operator(id, position(1.0, 1.0)).unwrap();
    assert_eq!(graph.epoch(), 2);
    graph.rename_operator(id, "Hero").unwrap();
    assert_eq!(graph.epoch(), 3);
    graph.set_parameter(id, "label", "v").unwrap();
    assert_eq!(graph.epoch(), 4);
    graph.set_parameter(id, "name", "Villain").unwrap();
    assert_eq!(graph.epoch(), 5);
    graph.delete_operator(id).unwrap();
    assert_eq!(graph.epoch(), 6);
}

#[test]
fn failed_mutations_leave_epoch_untouched() {
    let mut graph = OperatorGraph::new();
    assert_eq!(
        graph.create_operator(OperatorKind::Container, Some(NodeId(9)), position(0.0, 0.0)),
        Err(GraphError::UnknownNode(NodeId(9)))
    );
    assert_eq!(graph.epoch(), 0);
    let id = graph
        .create_operator(OperatorKind::Container, None, position(0.0, 0.0))
        .unwrap();
    assert_eq!(graph.epoch(), 1);
    assert_eq!(
        graph.move_operator(NodeId(99), position(0.0, 0.0)),
        Err(GraphError::UnknownNode(NodeId(99)))
    );
    assert_eq!(graph.rename_operator(id, "   "), Err(GraphError::EmptyName));
    assert_eq!(
        graph.set_parameter(id, "   ", "v"),
        Err(GraphError::EmptyParameterKey)
    );
    assert_eq!(
        graph.delete_operator(NodeId(99)),
        Err(GraphError::UnknownNode(NodeId(99)))
    );
    assert_eq!(graph.epoch(), 1);
    let stale = GraphSnapshot {
        version: GRAPH_SNAPSHOT_VERSION + 1,
        ..GraphSnapshot::default()
    };
    assert!(graph.restore(stale).is_err());
    assert_eq!(graph.epoch(), 1);
}

#[test]
fn restore_counts_as_mutation_of_the_receiving_graph() {
    let mut graph = OperatorGraph::new();
    graph
        .create_operator(OperatorKind::Container, None, position(0.0, 0.0))
        .unwrap();
    let snapshot = graph.snapshot();
    graph.restore(snapshot.clone()).unwrap();
    assert_eq!(graph.epoch(), 2);
    let mut fresh = OperatorGraph::new();
    fresh.restore(snapshot).unwrap();
    assert_eq!(fresh.epoch(), 1);
}
