use sshpoll::Node;

#[test]
fn canonical_names_parse() {
    assert!(matches!(Node::from_str("node1"), Ok(Node::Node1)));
    assert!(matches!(Node::from_str("node2"), Ok(Node::Node2)));
    assert!(matches!(Node::from_str("node3"), Ok(Node::Node3)));
    assert!(matches!(Node::from_str("node4"), Ok(Node::Node4)));
}

#[test]
fn numeric_aliases_resolve_to_same_node() {
    assert_eq!(Node::from_str("1").unwrap(), Node::from_str("node1").unwrap());
    assert_eq!(Node::from_str("2").unwrap(), Node::from_str("node2").unwrap());
    assert_eq!(Node::from_str("3").unwrap(), Node::from_str("node3").unwrap());
    assert_eq!(Node::from_str("4").unwrap(), Node::from_str("node4").unwrap());
}

#[test]
fn out_of_range_numeric_input_is_rejected() {
    let err = Node::from_str("0").unwrap_err();
    assert_eq!(err, "Invalid node value: 0");
    let err = Node::from_str("5").unwrap_err();
    assert_eq!(err, "Invalid node value: 5");
}

#[test]
fn garbage_input_is_rejected() {
    assert_eq!(Node::from_str("nodeX").unwrap_err(), "Invalid node value: nodeX");
    assert_eq!(Node::from_str("").unwrap_err(), "Invalid node value: ");
    assert_eq!(Node::from_str("node12").unwrap_err(), "Invalid node value: node12");
}

#[test]
fn display_names() {
    assert_eq!(Node::Node1.as_str(), "node1");
    assert_eq!(Node::Node2.as_str(), "node2");
    assert_eq!(Node::Node3.as_str(), "node3");
    assert_eq!(Node::Node4.as_str(), "node4");
}

#[test]
fn index_round_trip() {
    for v in 0u8..4 {
        assert_eq!(Node::from_u8(v).to_u8(), v);
    }
    assert_eq!(Node::Node1.to_u8(), 0);
    assert_eq!(Node::Node4.to_u8(), 3);
}
