use names_service::{
    get_conn, get_names, names_reply, prepare_data, seed_list, Name, ServiceError, Shared,
};

fn seed_records() -> Vec<Name> {
    vec![
        Name { id: 1, name: "yes".to_string() },
        Name { id: 2, name: "hi".to_string() },
        Name { id: 3, name: "no".to_string() },
        Name { id: 4, name: "wtf".to_string() },
    ]
}

fn encode(names: &[Name]) -> String {
    let mut items = Vec::new();
    for n in names {
        let mut obj = serde_json::Map::new();
        obj.insert("id".to_string(), serde_json::Value::from(n.id));
        obj.insert("name".to_string(), serde_json::Value::from(n.name.clone()));
        items.push(serde_json::Value::Object(obj));
    }
    serde_json::to_string(&serde_json::Value::Array(items)).unwrap()
}

#[test]
fn seed_list_is_in_insertion_order() {
    assert_eq!(seed_list(), vec!["yes", "hi", "no", "wtf"]);
}

#[test]
fn startup_yields_seed_set() {
    let store = Shared::new().unwrap();
    assert_eq!(store.query_all().unwrap(), seed_records());
}

#[test]
fn repeated_reads_are_identical() {
    let store = Shared::new().unwrap();
    let first = store.query_all().unwrap();
    for _ in 0..10 {
        assert_eq!(store.query_all().unwrap(), first);
    }
    assert_eq!(first, seed_records());
}

#[test]
fn clones_share_one_store() {
    let store = Shared::new().unwrap();
    let other = store.clone();
    assert_eq!(other.query_all().unwrap(), store.query_all().unwrap());
}

#[test]
fn many_handles_read_identical_bodies() {
    let store = Shared::new().unwrap();
    let handles: Vec<Shared> = (0..100).map(|_| store.clone()).collect();
    let bodies: Vec<String> = handles
        .iter()
        .rev()
        .map(|s| encode(&s.query_all().unwrap()))
        .collect();
    for b in &bodies {
        assert_eq!(b, &bodies[0]);
    }
    assert_eq!(bodies.len(), 100);
}

#[test]
fn fresh_connection_has_no_table() {
    let conn = get_conn().unwrap();
    assert_eq!(get_names(&conn), Err(ServiceError::QueryFailure));
}

#[test]
fn read_after_failed_read_succeeds() {
    let mut conn = get_conn().unwrap();
    assert_eq!(get_names(&conn), Err(ServiceError::QueryFailure));
    prepare_data(&mut conn).unwrap();
    assert_eq!(get_names(&conn).unwrap(), seed_records());
    assert_eq!(get_names(&conn).unwrap(), seed_records());
}

#[test]
fn second_initialization_fails() {
    let mut conn = get_conn().unwrap();
    assert_eq!(prepare_data(&mut conn), Ok(()));
    assert_eq!(prepare_data(&mut conn), Err(ServiceError::StartupFailure));
    assert_eq!(get_names(&conn).unwrap(), seed_records());
}

#[test]
fn names_reply_success() {
    let store = Shared::new().unwrap();
    let body = encode(&store.query_all().unwrap());
    let reply = names_reply(Ok(body));
    assert_eq!(reply.status, 200);
    assert!(reply.json);
    assert_eq!(
        reply.body,
        r#"[{"id":1,"name":"yes"},{"id":2,"name":"hi"},{"id":3,"name":"no"},{"id":4,"name":"wtf"}]"#
    );
}

#[test]
fn names_reply_query_failure() {
    let reply = names_reply(Err(ServiceError::QueryFailure));
    assert_eq!(reply.status, 500);
    assert!(!reply.json);
    assert_eq!(reply.body, "");
}

#[test]
fn names_reply_serialization_failure() {
    let reply = names_reply(Err(ServiceError::SerializationFailure));
    assert_eq!(reply.status, 500);
    assert!(!reply.json);
    assert!(reply.body.is_empty());
}
