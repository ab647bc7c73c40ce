use bloodorchid::channels::{process_message, retry_decision, ChannelConfig, Message, RetryDecision};
use bloodorchid::structural::{Node, StringMap, StructuralFactoryImpl, ValidationError};

fn props(pairs: &[(&str, &str)]) -> StringMap {
    let mut m = StringMap::new();
    for (k, v) in pairs {
        m.insert(k.to_string(), v.to_string());
    }
    m
}

#[test]
fn factory_roundtrip() {
    let mut factory = StructuralFactoryImpl::new();
    let node = Node::new("node1".to_string(), None);

    let created = factory.create(node).unwrap();
    assert_eq!(created.id, "node1");

    let queried = factory.query("node1").unwrap();
    assert!(queried.is_some());
    assert_eq!(queried.unwrap().id, "node1");
}

#[test]
fn factory_hierarchy() {
    let mut factory = StructuralFactoryImpl::new();
    factory.create(Node::new("parent".to_string(), None)).unwrap();
    factory.create(Node::new("child".to_string(), Some("parent".to_string()))).unwrap();

    let child_query = factory.query("child").unwrap().unwrap();
    assert_eq!(child_query.parent_id.as_deref(), Some("parent"));
}

#[test]
fn factory_update_sets_property() {
    let mut factory = StructuralFactoryImpl::new();
    factory.create(Node::new("node1".to_string(), None)).unwrap();

    let updated = factory
        .update("node1", |mut n: Node| {
            n.properties.insert("key".into(), "value".into());
            n
        })
        .unwrap();
    assert_eq!(updated.properties.get("key").unwrap(), "value");

    let query_res = factory.query("node1").unwrap().unwrap();
    assert_eq!(query_res.properties.get("key").unwrap(), "value");
}

#[test]
fn factory_validation() {
    let mut factory = StructuralFactoryImpl::new();
    match factory.create(Node::new("".to_string(), None)) {
        Err(ValidationError::InvalidId(m)) => assert_eq!(m, "Node ID cannot be empty"),
        other => panic!("unexpected {:?}", other),
    }
    match factory.create(Node::new("self".to_string(), Some("self".to_string()))) {
        Err(ValidationError::HierarchyError(m)) => assert_eq!(m, "Node cannot be its own parent"),
        other => panic!("unexpected {:?}", other),
    }
    assert!(factory.query("self").unwrap().is_none());
}

#[test]
fn factory_deletion() {
    let mut factory = StructuralFactoryImpl::new();
    factory.create(Node::new("delete_me".to_string(), None)).unwrap();
    assert!(factory.query("delete_me").unwrap().is_some());

    factory.delete("delete_me").unwrap();
    assert!(factory.query("delete_me").unwrap().is_none());
    match factory.delete("delete_me") {
        Err(ValidationError::InvalidId(m)) => assert_eq!(m, "Node delete_me not found"),
        other => panic!("unexpected {:?}", other),
    }
}

#[test]
fn factory_refuses_duplicates_and_unknown_updates() {
    let mut factory = StructuralFactoryImpl::new();
    factory.create(Node::new("a".to_string(), None)).unwrap();
    let err = factory.create(Node::new("a".to_string(), Some("b".to_string()))).unwrap_err();
    assert_eq!(err.message(), "Invalid node ID: Node a already exists");
    assert_eq!(factory.query("a").unwrap().unwrap().parent_id, None);
    let err = factory.update("zzz", |n: Node| n).unwrap_err();
    assert_eq!(err.message(), "Invalid node ID: Node zzz not found");
}

#[test]
fn factory_update_that_breaks_validity_keeps_old_node() {
    let mut factory = StructuralFactoryImpl::new();
    factory.create(Node::new("a".to_string(), None)).unwrap();
    let err = factory
        .update("a", |mut n: Node| {
            n.parent_id = Some("a".to_string());
            n
        })
        .unwrap_err();
    assert_eq!(err.message(), "Hierarchy violation: Node cannot be its own parent");
    assert_eq!(factory.query("a").unwrap().unwrap().parent_id, None);
}

#[test]
fn node_validate_and_messages() {
    assert!(Node::new("x".to_string(), Some("y".to_string())).validate().is_ok());
    let e = Node::new("".to_string(), None).validate().unwrap_err();
    assert_eq!(e.message(), "Invalid node ID: Node ID cannot be empty");
    assert_eq!(ValidationError::MissingField("f".to_string()).message(), "Missing required field: f");
    let n = Node::new("n".to_string(), None);
    assert_eq!(n.version, 0);
    assert!(n.metadata.get("k").is_none());
}

#[test]
fn string_map_insert_get_merge() {
    let mut m = props(&[("a", "1"), ("b", "2")]);
    assert_eq!(m.insert("a".to_string(), "3".to_string()), Some("1".to_string()));
    assert_eq!(m.get("a").map(|s| s.as_str()), Some("3"));
    assert_eq!(m.get("b").map(|s| s.as_str()), Some("2"));
    assert!(m.get("c").is_none());
    let other = props(&[("c", "4"), ("b", "5")]);
    m.merge_from(&other);
    assert_eq!(m.get("b").map(|s| s.as_str()), Some("5"));
    assert_eq!(m.get("c").map(|s| s.as_str()), Some("4"));
    assert_eq!(m.get("a").map(|s| s.as_str()), Some("3"));
}

#[test]
fn messages_drive_the_store() {
    let mut factory = StructuralFactoryImpl::new();
    assert_eq!(process_message(&mut factory, Message::Create(Node::new("agent1_node".to_string(), None))), Ok(()));
    assert_eq!(process_message(&mut factory, Message::Query("agent1_node".to_string())), Ok(()));
    assert!(factory.query("agent1_node").unwrap().is_some());

    let update = Message::Update("agent1_node".to_string(), props(&[("color", "red")]));
    assert_eq!(process_message(&mut factory, update), Ok(()));
    let node = factory.query("agent1_node").unwrap().unwrap();
    assert_eq!(node.properties.get("color").unwrap(), "red");

    assert_eq!(
        process_message(&mut factory, Message::Create(Node::new("agent1_node".to_string(), None))),
        Err("Invalid node ID: Node agent1_node already exists".to_string())
    );
    assert_eq!(process_message(&mut factory, Message::Delete("agent1_node".to_string())), Ok(()));
    assert_eq!(
        process_message(&mut factory, Message::Delete("agent1_node".to_string())),
        Err("Invalid node ID: Node agent1_node not found".to_string())
    );
    assert_eq!(
        process_message(&mut factory, Message::Update("gone".to_string(), StringMap::new())),
        Err("Invalid node ID: Node gone not found".to_string())
    );
}

#[test]
fn retry_follows_the_schedule() {
    let intervals = vec![100, 250, 500];
    assert_eq!(retry_decision(0, &intervals, Ok(())), RetryDecision::Done);
    assert_eq!(retry_decision(0, &intervals, Err("boom".to_string())), RetryDecision::RetryAfter(100));
    assert_eq!(retry_decision(2, &intervals, Err("boom".to_string())), RetryDecision::RetryAfter(500));
    assert_eq!(
        retry_decision(3, &intervals, Err("boom".to_string())),
        RetryDecision::GiveUp("Failed after 3 retries: boom".to_string())
    );
    assert_eq!(
        retry_decision(0, &Vec::new(), Err("x".to_string())),
        RetryDecision::GiveUp("Failed after 0 retries: x".to_string())
    );
}

#[test]
fn channel_config_holds_settings() {
    let c = ChannelConfig { capacity: 1024, retry_ms: vec![100, 250], serialization: "json".to_string() };
    assert_eq!(c.capacity, 1024);
    assert_eq!(c.retry_ms.len(), 2);
}
