use ws_relay::handlers::{
    client_msg, is_heartbeat, publish_handler, register_handler, unregister_handler, ws_handler,
    Event, Inbound, RegisterRequest, Step, TopicsRequest,
};
use ws_relay::registry::{has_topic, Registry};
use ws_relay::token::make_token;

const PREFIX: &str = "ws://127.0.0.1:8080/ws/";

fn register(reg: &mut Registry<u32>, user_id: usize) -> String {
    let resp = register_handler(reg, &RegisterRequest { user_id }).expect("serials left");
    assert!(resp.url.starts_with(PREFIX));
    resp.url[PREFIX.len()..].to_string()
}

fn publish(reg: &Registry<u32>, topic: &str, user_id: Option<usize>) -> Vec<String> {
    publish_handler(
        reg,
        &Event { topic: topic.to_string(), user_id, message: "hello".to_string() },
    )
}

fn text(t: &str, topics: Option<Vec<&str>>) -> Inbound {
    Inbound::Text {
        text: t.to_string(),
        request: topics.map(|ts| TopicsRequest {
            topics: ts.into_iter().map(|s| s.to_string()).collect(),
        }),
    }
}

#[test]
fn tokens_are_pairwise_distinct() {
    let mut reg: Registry<u32> = Registry::new();
    let mut seen: Vec<String> = Vec::new();
    for i in 0..200 {
        let t = register(&mut reg, i % 3);
        assert!(!seen.contains(&t));
        seen.push(t.clone());
        if i % 2 == 0 {
            unregister_handler(&mut reg, &t);
        }
    }
    assert_eq!(reg.len(), 100);
}

#[test]
fn token_has_serial_and_random_part() {
    let mut reg: Registry<u32> = Registry::new();
    let first = register(&mut reg, 1);
    let second = register(&mut reg, 1);
    assert!(first.starts_with("0-"));
    assert!(second.starts_with("1-"));
    assert_eq!(first.len(), 2 + 32);
    assert!(first[2..].chars().all(|c| c.is_ascii_hexdigit()));
    assert_ne!(first[2..], second[2..]);
}

#[test]
fn make_token_writes_digits_least_significant_first() {
    assert_eq!(make_token(0, "x"), "0-x");
    assert_eq!(make_token(120, "abc"), "021-abc");
    assert_eq!(make_token(u64::MAX, ""), "51615590737044764481-");
}

#[test]
fn new_client_is_pending_with_default_topic() {
    let mut reg: Registry<u32> = Registry::new();
    let t = register(&mut reg, 5);
    let c = reg.get(&t).expect("registered");
    assert_eq!(c.user_id, 5);
    assert_eq!(c.topics, vec!["cats".to_string()]);
    assert!(c.sender.is_none());
    assert!(reg.sender_of(&t).is_none());
}

#[test]
fn unknown_token_is_rejected() {
    let mut reg: Registry<u32> = Registry::new();
    let t = register(&mut reg, 1);
    assert!(!ws_handler(&mut reg, &"nope".to_string(), 9));
    assert_eq!(reg.len(), 1);
    assert!(reg.get(&t).unwrap().sender.is_none());
}

#[test]
fn second_open_is_rejected() {
    let mut reg: Registry<u32> = Registry::new();
    let t = register(&mut reg, 1);
    assert!(ws_handler(&mut reg, &t, 10));
    assert_eq!(reg.sender_of(&t), Some(&10));
    assert!(!ws_handler(&mut reg, &t, 11));
    assert_eq!(reg.sender_of(&t), Some(&10));
    assert_eq!(reg.len(), 1);
}

#[test]
fn topics_update_replaces() {
    let mut reg: Registry<u32> = Registry::new();
    let t = register(&mut reg, 1);
    assert!(ws_handler(&mut reg, &t, 1));
    assert_eq!(publish(&reg, "cats", None), vec![t.clone()]);
    assert_eq!(client_msg(&mut reg, &t, text("{\"topics\":[\"dogs\"]}", Some(vec!["dogs"]))), Step::Continue);
    assert!(publish(&reg, "cats", None).is_empty());
    assert_eq!(publish(&reg, "dogs", None), vec![t.clone()]);
    assert_eq!(client_msg(&mut reg, &t, text("{\"topics\":[]}", Some(vec![]))), Step::Continue);
    assert!(publish(&reg, "dogs", None).is_empty());
    assert!(reg.get(&t).unwrap().topics.is_empty());
}

#[test]
fn publish_filters_by_subscriber() {
    let mut reg: Registry<u32> = Registry::new();
    let a = register(&mut reg, 1);
    let b = register(&mut reg, 2);
    let c = register(&mut reg, 1);
    assert!(ws_handler(&mut reg, &a, 1));
    assert!(ws_handler(&mut reg, &b, 2));
    assert!(ws_handler(&mut reg, &c, 3));
    assert_eq!(publish(&reg, "cats", Some(1)), vec![a.clone(), c.clone()]);
    assert_eq!(publish(&reg, "cats", Some(2)), vec![b.clone()]);
    assert!(publish(&reg, "cats", Some(3)).is_empty());
    assert_eq!(publish(&reg, "cats", None), vec![a, b, c]);
    assert!(publish(&reg, "birds", None).is_empty());
}

#[test]
fn pending_clients_are_not_reached() {
    let mut reg: Registry<u32> = Registry::new();
    let pending = register(&mut reg, 1);
    let active = register(&mut reg, 1);
    assert!(ws_handler(&mut reg, &active, 1));
    assert_eq!(publish(&reg, "cats", None), vec![active.clone()]);
    assert_eq!(publish(&reg, "cats", Some(1)), vec![active]);
    assert!(reg.get(&pending).is_some());
}

#[test]
fn closed_connection_is_removed() {
    let mut reg: Registry<u32> = Registry::new();
    let t = register(&mut reg, 1);
    assert!(ws_handler(&mut reg, &t, 1));
    assert_eq!(client_msg(&mut reg, &t, Inbound::Closed), Step::Stop);
    assert!(reg.get(&t).is_none());
    assert!(publish(&reg, "cats", None).is_empty());
}

#[test]
fn failed_or_non_text_connection_is_removed() {
    let mut reg: Registry<u32> = Registry::new();
    let a = register(&mut reg, 1);
    let b = register(&mut reg, 1);
    assert!(ws_handler(&mut reg, &a, 1));
    assert!(ws_handler(&mut reg, &b, 2));
    assert_eq!(client_msg(&mut reg, &a, Inbound::Failed), Step::Stop);
    assert_eq!(client_msg(&mut reg, &b, Inbound::NonText), Step::Stop);
    assert_eq!(reg.len(), 0);
}

#[test]
fn ping_changes_nothing() {
    let mut reg: Registry<u32> = Registry::new();
    let t = register(&mut reg, 1);
    assert!(ws_handler(&mut reg, &t, 1));
    assert_eq!(client_msg(&mut reg, &t, text("ping", None)), Step::Continue);
    assert_eq!(client_msg(&mut reg, &t, text("ping\n", None)), Step::Continue);
    // a heartbeat is never taken as a topics request
    assert_eq!(client_msg(&mut reg, &t, text("ping", Some(vec!["dogs"]))), Step::Continue);
    assert_eq!(reg.get(&t).unwrap().topics, vec!["cats".to_string()]);
    assert_eq!(publish(&reg, "cats", None), vec![t]);
}

#[test]
fn heartbeat_is_exact() {
    assert!(is_heartbeat(&"ping".to_string()));
    assert!(is_heartbeat(&"ping\n".to_string()));
    assert!(!is_heartbeat(&"ping\n\n".to_string()));
    assert!(!is_heartbeat(&"Ping".to_string()));
    assert!(!is_heartbeat(&" ping".to_string()));
    assert!(!is_heartbeat(&"".to_string()));
}

#[test]
fn undecodable_text_is_ignored() {
    let mut reg: Registry<u32> = Registry::new();
    let t = register(&mut reg, 1);
    assert!(ws_handler(&mut reg, &t, 1));
    assert_eq!(client_msg(&mut reg, &t, text("not json", None)), Step::Continue);
    assert_eq!(reg.get(&t).unwrap().topics, vec!["cats".to_string()]);
}

#[test]
fn update_for_unknown_token_is_ignored() {
    let mut reg: Registry<u32> = Registry::new();
    let t = register(&mut reg, 1);
    reg.update_topics(&"gone".to_string(), vec!["dogs".to_string()]);
    assert_eq!(reg.get(&t).unwrap().topics, vec!["cats".to_string()]);
    assert_eq!(client_msg(&mut reg, &"gone".to_string(), Inbound::Closed), Step::Stop);
    assert_eq!(reg.len(), 1);
}

#[test]
fn unregister_is_idempotent_and_keeps_nothing_routed() {
    let mut reg: Registry<u32> = Registry::new();
    let t = register(&mut reg, 1);
    assert!(ws_handler(&mut reg, &t, 1));
    unregister_handler(&mut reg, &t);
    unregister_handler(&mut reg, &t);
    unregister_handler(&mut reg, &"never".to_string());
    assert_eq!(reg.len(), 0);
    assert!(publish(&reg, "cats", None).is_empty());
    assert!(!ws_handler(&mut reg, &t, 2));
}

#[test]
fn has_topic_checks_membership() {
    let ts = vec!["a".to_string(), "bb".to_string()];
    assert!(has_topic(&ts, &"bb".to_string()));
    assert!(!has_topic(&ts, &"b".to_string()));
    assert!(!has_topic(&Vec::new(), &"a".to_string()));
}

#[test]
fn end_to_end_session() {
    let mut reg: Registry<u32> = Registry::new();
    let t = register(&mut reg, 42);
    assert!(ws_handler(&mut reg, &t, 7));
    assert!(reg.sender_of(&t).is_some());
    assert_eq!(reg.get(&t).unwrap().topics, vec!["cats".to_string()]);
    assert_eq!(publish(&reg, "cats", None), vec![t.clone()]);
    assert_eq!(client_msg(&mut reg, &t, text("{\"topics\":[\"dogs\"]}", Some(vec!["dogs"]))), Step::Continue);
    assert!(publish(&reg, "cats", None).is_empty());
    assert_eq!(publish(&reg, "dogs", None), vec![t.clone()]);
    assert!(publish(&reg, "dogs", Some(7)).is_empty());
    assert_eq!(publish(&reg, "dogs", Some(42)), vec![t.clone()]);
    assert_eq!(client_msg(&mut reg, &t, Inbound::Closed), Step::Stop);
    assert!(publish(&reg, "dogs", None).is_empty());
}
