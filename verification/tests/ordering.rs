use core::cmp::Ordering;
use dtchat_backend::endpoint::{Endpoint, EndpointProto};
use dtchat_backend::message::{
    insert_with_strategy, relative_cmp, sort_with_strategy, standard_cmp, ChatMessage, Content,
    MessageStatus, SortStrategy,
};
use dtchat_backend::time::DTChatTime;

fn msg(uuid: &str, sender: &str, send_ms: i64, receive_ms: Option<i64>) -> ChatMessage {
    ChatMessage {
        uuid: uuid.to_string(),
        sender_uuid: sender.to_string(),
        room_uuid: "room".to_string(),
        content: Content::Text(format!("payload of {}", uuid)),
        send_time: DTChatTime::from_timestamp_millis(send_ms).unwrap(),
        send_completed: None,
        predicted_arrival_time: None,
        receive_time: receive_ms.map(|ms| DTChatTime::from_timestamp_millis(ms).unwrap()),
        status: MessageStatus::Sending,
        source_endpoint: Endpoint { proto: EndpointProto::Tcp, endpoint: "h:1".to_string() },
    }
}

fn reverse(o: Ordering) -> Ordering {
    match o {
        Ordering::Less => Ordering::Greater,
        Ordering::Equal => Ordering::Equal,
        Ordering::Greater => Ordering::Less,
    }
}

#[test]
fn standard_cmp_orders_by_send_time() {
    let a = msg("a", "p1", 10, None);
    let b = msg("b", "p2", 20, None);
    assert_eq!(standard_cmp(&a, &b), Ordering::Less);
    assert_eq!(standard_cmp(&b, &a), Ordering::Greater);
}

#[test]
fn standard_cmp_breaks_ties_by_receive_time() {
    let a = msg("a", "p1", 10, Some(30));
    let b = msg("b", "p2", 10, Some(20));
    assert_eq!(standard_cmp(&a, &b), Ordering::Greater);
    let c = msg("c", "p3", 10, Some(30));
    assert_eq!(standard_cmp(&a, &c), Ordering::Equal);
}

#[test]
fn standard_cmp_is_antisymmetric() {
    let cases = [
        (msg("a", "p1", 10, None), msg("b", "p2", 20, Some(5))),
        (msg("c", "p1", 10, Some(9)), msg("d", "p2", 10, Some(11))),
        (msg("e", "p1", 7, Some(7)), msg("f", "p2", 7, Some(7))),
    ];
    for (x, y) in cases.iter() {
        assert_eq!(standard_cmp(x, y), reverse(standard_cmp(y, x)));
    }
}

#[test]
fn relative_cmp_anchors_own_messages_at_receive_time() {
    // The viewer's own message was sent first but acknowledged after the
    // other's send instant: the canonical order and the viewer's order flip.
    let own = msg("own", "viewer", 10, Some(100));
    let other = msg("other", "remote", 50, None);
    assert_eq!(standard_cmp(&own, &other), Ordering::Less);
    assert_eq!(relative_cmp(&own, &other, "viewer"), Ordering::Greater);
    // For an unrelated viewer both messages anchor at their send instants.
    assert_eq!(relative_cmp(&own, &other, "nobody"), Ordering::Less);
}

#[test]
fn insert_with_strategy_keeps_order_and_is_stable() {
    let mut timeline = vec![msg("a", "p", 10, None), msg("b", "p", 30, None)];
    insert_with_strategy(&mut timeline, msg("c", "p", 20, None), SortStrategy::Standard);
    let uuids: Vec<&str> = timeline.iter().map(|m| m.uuid.as_str()).collect();
    assert_eq!(uuids, vec!["a", "c", "b"]);
    // An equal key lands after the messages already there.
    insert_with_strategy(&mut timeline, msg("d", "p", 20, None), SortStrategy::Standard);
    let uuids: Vec<&str> = timeline.iter().map(|m| m.uuid.as_str()).collect();
    assert_eq!(uuids, vec!["a", "c", "d", "b"]);
}

#[test]
fn sort_with_strategy_standard() {
    let mut timeline = vec![
        msg("late", "p", 90, None),
        msg("early", "p", 10, None),
        msg("mid", "p", 40, None),
    ];
    sort_with_strategy(&mut timeline, SortStrategy::Standard);
    let uuids: Vec<&str> = timeline.iter().map(|m| m.uuid.as_str()).collect();
    assert_eq!(uuids, vec!["early", "mid", "late"]);
}

#[test]
fn sort_with_strategy_relative() {
    // Sorted for the viewer, their own acknowledged message moves last.
    let mut timeline = vec![msg("own", "viewer", 10, Some(100)), msg("other", "remote", 50, None)];
    sort_with_strategy(&mut timeline, SortStrategy::Relative("viewer".to_string()));
    let uuids: Vec<&str> = timeline.iter().map(|m| m.uuid.as_str()).collect();
    assert_eq!(uuids, vec!["other", "own"]);
}
