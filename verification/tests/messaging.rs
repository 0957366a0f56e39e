use vector_db::msg::Msg;

fn s(t: &str) -> String {
    t.to_string()
}

#[test]
fn first_message_creates_connection() {
    let mut m = Msg::new();
    let r = m.send_message(s("alice"), s("bob"), s("hi"), 5);
    assert_eq!(r, Some(()));
    assert_eq!(m.connection_id, 1);
    assert_eq!(m.message_id, 1);
    assert_eq!(m.connections.len(), 1);
    assert_eq!(m.connections[0].id, 0);
    assert_eq!(m.connections[0].account1, "alice");
    assert_eq!(m.connections[0].account2, "bob");
    assert_eq!(m.connections[0].created_at, 5);
    assert!(!m.connections[0].completed);
    assert_eq!(m.message_log.len(), 1);
    assert_eq!(m.message_log[0].id, 0);
    assert_eq!(m.message_log[0].connection_id, 0);
    assert_eq!(m.message_log[0].sender, "bob");
    assert_eq!(m.message_log[0].body, "hi");
    assert_eq!(m.message_log[0].created_at, 5);
}

#[test]
fn reply_reuses_connection_in_either_direction() {
    let mut m = Msg::new();
    m.send_message(s("alice"), s("bob"), s("hi"), 1);
    // Same pair, reversed roles: no second connection.
    m.send_message(s("bob"), s("alice"), s("hello"), 2);
    assert_eq!(m.connections.len(), 1);
    assert_eq!(m.message_log.len(), 2);
    assert_eq!(m.message_log[1].connection_id, 0);
    assert_eq!(m.message_log[1].sender, "alice");
    // A different pair gets its own connection.
    m.send_message(s("carol"), s("bob"), s("hey"), 3);
    assert_eq!(m.connections.len(), 2);
    assert_eq!(m.message_log[2].connection_id, 1);
}

#[test]
fn get_messages_returns_only_the_pairs_conversation() {
    let mut m = Msg::new();
    m.send_message(s("alice"), s("bob"), s("one"), 1);
    m.send_message(s("carol"), s("bob"), s("two"), 2);
    m.send_message(s("bob"), s("alice"), s("three"), 3);
    let ab = m.get_messages(s("alice"), s("bob"));
    assert_eq!(ab.len(), 2);
    assert_eq!(ab[0].body, "one");
    assert_eq!(ab[1].body, "three");
    let cb = m.get_messages(s("bob"), s("carol"));
    assert_eq!(cb.len(), 1);
    assert_eq!(cb[0].body, "two");
    let none = m.get_messages(s("alice"), s("carol"));
    assert!(none.is_empty());
}

#[test]
fn check_connection_sees_both_orders() {
    let mut m = Msg::new();
    assert!(!m.check_connection(s("alice"), s("bob")));
    m.send_message(s("alice"), s("bob"), s("hi"), 1);
    assert!(m.check_connection(s("alice"), s("bob")));
    assert!(m.check_connection(s("bob"), s("alice")));
    assert!(!m.check_connection(s("alice"), s("carol")));
}

#[test]
fn completion_flag_lifecycle() {
    let mut m = Msg::new();
    m.send_message(s("alice"), s("bob"), s("hi"), 1);
    assert!(!m.is_complete(s("bob"), s("alice")));
    assert!(!m.set_connection_completed(9));
    assert!(m.set_connection_completed(0));
    assert!(m.is_complete(s("bob"), s("alice")));
    assert!(m.is_complete(s("alice"), s("bob")));
    // An unrelated pair stays incomplete (and unknown pairs report false).
    assert!(!m.is_complete(s("alice"), s("carol")));
}

#[test]
fn get_all_connections_filters_by_endpoint() {
    let mut m = Msg::new();
    m.send_message(s("alice"), s("bob"), s("one"), 1);
    m.send_message(s("carol"), s("bob"), s("two"), 2);
    m.send_message(s("carol"), s("dave"), s("three"), 3);
    let bobs = m.get_all_connections(s("bob"));
    assert_eq!(bobs.len(), 2);
    assert_eq!(bobs[0].id, 0);
    assert_eq!(bobs[1].id, 1);
    let carols = m.get_all_connections(s("carol"));
    assert_eq!(carols.len(), 2);
    assert_eq!(carols[0].id, 1);
    assert_eq!(carols[1].id, 2);
    let eves = m.get_all_connections(s("eve"));
    assert!(eves.is_empty());
}
