use nullxes::notif::{
    accent_for, build_notif, capabilities, last_items, notify, push_capped, record_for,
    server_information, timeout_from_expire, toast_body_line, urgency_byte, urgency_from_hint,
    Accent, Delivery, Notif, NotifIds, ToastStack, Urgency, HISTORY_KEEP, MAX_VISIBLE,
};

fn message(id: u32, summary: &str, timeout_ms: u32) -> Notif {
    build_notif(
        id,
        "app".to_string(),
        String::new(),
        summary.to_string(),
        "body".to_string(),
        Vec::new(),
        None,
        timeout_ms as i32,
    )
}

#[test]
fn close_request_is_recognised() {
    let c = Notif::close_for(7);
    assert_eq!(c.id, 7);
    assert!(c.is_close_request());
    assert_eq!(c.timeout_ms, 1);
    assert_eq!(c.urgency, Urgency::Low);
    assert!(!message(7, "hello", 1).is_close_request());
}

#[test]
fn ids_ascend_from_one_and_honour_replaces_id() {
    let mut ids = NotifIds::new();
    assert_eq!(ids.allocate(0), 1);
    assert_eq!(ids.allocate(0), 2);
    assert_eq!(ids.allocate(42), 42);
    assert_eq!(ids.allocate(0), 3);
}

#[test]
fn notify_builds_the_notification() {
    let mut ids = NotifIds::new();
    let n = notify(
        &mut ids,
        "mail".to_string(),
        0,
        "icon".to_string(),
        "New mail".to_string(),
        "from bob".to_string(),
        vec!["default".to_string()],
        Some(2),
        -1,
    );
    assert_eq!(n.id, 1);
    assert_eq!(n.app_name, "mail");
    assert_eq!(n.summary, "New mail");
    assert_eq!(n.urgency, Urgency::Critical);
    assert_eq!(n.timeout_ms, 5000);
    assert_eq!(n.actions, vec!["default".to_string()]);
}

#[test]
fn urgency_hint_and_timeout() {
    assert_eq!(urgency_from_hint(Some(0)), Urgency::Low);
    assert_eq!(urgency_from_hint(Some(1)), Urgency::Normal);
    assert_eq!(urgency_from_hint(Some(2)), Urgency::Critical);
    assert_eq!(urgency_from_hint(Some(9)), Urgency::Normal);
    assert_eq!(urgency_from_hint(None), Urgency::Normal);
    assert_eq!(timeout_from_expire(-1), 5000);
    assert_eq!(timeout_from_expire(0), 0);
    assert_eq!(timeout_from_expire(1234), 1234);
}

#[test]
fn capabilities_and_server_information() {
    assert_eq!(
        capabilities(),
        vec!["body", "body-markup", "actions", "icon-static", "persistence"]
    );
    let (name, vendor, version, spec) = server_information("0.1.0");
    assert_eq!(name, "NX-NOTIF");
    assert_eq!(vendor, "NULLXES");
    assert_eq!(version, "0.1.0");
    assert_eq!(spec, "1.2");
}

#[test]
fn history_records_and_cap() {
    let n = message(3, "s", 10);
    let r = record_for(&n, 99);
    assert_eq!(r.id, 3);
    assert_eq!(r.app, "app");
    assert_eq!(r.summary, "s");
    assert_eq!(r.body, "body");
    assert_eq!(r.urgency, 1);
    assert_eq!(r.received, 99);
    assert_eq!(urgency_byte(Urgency::Low), 0);
    assert_eq!(urgency_byte(Urgency::Critical), 2);

    let mut cache: Vec<u32> = Vec::new();
    for i in 0..300u32 {
        push_capped(&mut cache, i);
    }
    assert_eq!(cache.len(), HISTORY_KEEP);
    assert_eq!(cache[0], 44);
    assert_eq!(cache[HISTORY_KEEP - 1], 299);

    let all: Vec<u32> = (0..300).collect();
    let tail = last_items(all);
    assert_eq!(tail.len(), 256);
    assert_eq!(tail[0], 44);
    let few = last_items(vec![1, 2, 3]);
    assert_eq!(few, vec![1, 2, 3]);
}

#[test]
fn at_most_five_toasts_and_the_rest_wait() {
    let mut stack = ToastStack::new();
    for id in 1..=7u32 {
        let (replaced, shown) = stack.enqueue(message(id, "x", 1000), 0);
        assert_eq!(replaced, None);
        if id <= 5 {
            assert_eq!(shown.len(), 1);
            assert_eq!(shown[0].position, (id - 1) as usize);
            assert_eq!(shown[0].top_margin, 16 + (id as i32 - 1) * 100);
        } else {
            assert!(shown.is_empty());
        }
    }
    assert_eq!(stack.visible_len(), MAX_VISIBLE);
    assert_eq!(stack.visible_notif(4).id, 5);
}

#[test]
fn same_id_replaces_in_place() {
    let mut stack = ToastStack::new();
    stack.enqueue(message(1, "a", 1000), 0);
    stack.enqueue(message(2, "b", 1000), 0);
    let (replaced, shown) = stack.enqueue(message(1, "c", 1000), 500);
    assert_eq!(replaced, Some(0));
    assert!(shown.is_empty());
    assert_eq!(stack.visible_len(), 2);
    assert_eq!(stack.visible_notif(0).summary, "c");
    // The replaced toast lives 1000 ms from its replacement.
    let (closed, kept) = stack.tick_timeouts(1000);
    assert_eq!(closed, vec![2]);
    assert_eq!(kept, vec![true, false]);
    let (closed, _) = stack.tick_timeouts(1500);
    assert_eq!(closed, vec![1]);
    assert_eq!(stack.visible_len(), 0);
}

#[test]
fn sticky_timeout_lives_one_millisecond() {
    let mut stack = ToastStack::new();
    stack.enqueue(message(1, "a", 0), 10);
    let (closed, kept) = stack.tick_timeouts(10);
    assert!(closed.is_empty());
    assert_eq!(kept, vec![true]);
    let (closed, _) = stack.tick_timeouts(11);
    assert_eq!(closed, vec![1]);
}

#[test]
fn close_request_removes_visible_toast() {
    let mut stack = ToastStack::new();
    stack.enqueue(message(1, "a", 1000), 0);
    stack.enqueue(message(2, "b", 1000), 0);
    match stack.receive(Notif::close_for(2), 0) {
        Delivery::Closed(pos) => assert_eq!(pos, Some(1)),
        Delivery::Enqueued(..) => panic!("close request was enqueued"),
    }
    assert_eq!(stack.visible_len(), 1);
    match stack.receive(Notif::close_for(9), 0) {
        Delivery::Closed(pos) => assert_eq!(pos, None),
        Delivery::Enqueued(..) => panic!("close request was enqueued"),
    }
    match stack.receive(message(3, "c", 10), 0) {
        Delivery::Enqueued(replaced, shown) => {
            assert_eq!(replaced, None);
            assert_eq!(shown.len(), 1);
            assert_eq!(shown[0].position, 1);
        }
        Delivery::Closed(_) => panic!("notification was taken for a close request"),
    }
    assert_eq!(stack.remove_at(0), 1);
    assert_eq!(stack.visible_len(), 1);
}

#[test]
fn body_line_and_accent() {
    assert_eq!(toast_body_line("first\nsecond"), "first");
    assert_eq!(toast_body_line("dos line\r\nnext"), "dos line");
    assert_eq!(toast_body_line("no newline\r"), "no newline\r");
    assert_eq!(toast_body_line(""), "");
    let long: String = "x".repeat(100);
    assert_eq!(toast_body_line(&long).chars().count(), 70);
    let mut n = message(1, "s", 1);
    n.urgency = Urgency::Critical;
    assert_eq!(accent_for(&n), Accent::Destructive);
    n.urgency = Urgency::Low;
    assert_eq!(accent_for(&n), Accent::Disabled);
}
