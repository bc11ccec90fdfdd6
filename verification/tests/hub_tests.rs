use data_service::hub::{Hub, RecvOutcome};

fn expect_msg(r: RecvOutcome<i32>) -> i32 {
    match r {
        RecvOutcome::Msg(v) => v,
        RecvOutcome::Lagged => panic!("unexpected lag"),
        RecvOutcome::Empty => panic!("unexpected empty queue"),
        RecvOutcome::Gone => panic!("unexpected dead handle"),
    }
}

#[test]
fn hub_fans_out_identical_sequences() {
    let mut hub: Hub<i32> = Hub::new(8);
    let a = hub.subscribe();
    let b = hub.subscribe();
    hub.publish(&10);
    hub.publish(&20);
    hub.publish(&30);
    let seen_a = vec![
        expect_msg(hub.recv(a)),
        expect_msg(hub.recv(a)),
        expect_msg(hub.recv(a)),
    ];
    let seen_b = vec![
        expect_msg(hub.recv(b)),
        expect_msg(hub.recv(b)),
        expect_msg(hub.recv(b)),
    ];
    assert_eq!(seen_a, vec![10, 20, 30]);
    assert_eq!(seen_a, seen_b);
    assert!(matches!(hub.recv(a), RecvOutcome::Empty));
    assert!(matches!(hub.recv(b), RecvOutcome::Empty));
}

#[test]
fn hub_no_replay_before_subscription() {
    let mut hub: Hub<i32> = Hub::new(8);
    hub.publish(&1);
    let s = hub.subscribe();
    assert!(matches!(hub.recv(s), RecvOutcome::Empty));
    hub.publish(&2);
    assert_eq!(expect_msg(hub.recv(s)), 2);
}

#[test]
fn hub_drops_oldest_and_flags_lag() {
    let mut hub: Hub<i32> = Hub::new(2);
    let slow = hub.subscribe();
    let fast = hub.subscribe();
    hub.publish(&1);
    assert_eq!(expect_msg(hub.recv(fast)), 1);
    hub.publish(&2);
    hub.publish(&3);
    assert_eq!(expect_msg(hub.recv(fast)), 2);
    assert_eq!(expect_msg(hub.recv(fast)), 3);
    // The slow subscriber lost the oldest message; it is told once, then
    // reads the surviving suffix. The fast subscriber saw everything.
    assert!(matches!(hub.recv(slow), RecvOutcome::Lagged));
    assert_eq!(expect_msg(hub.recv(slow)), 2);
    assert_eq!(expect_msg(hub.recv(slow)), 3);
    assert!(matches!(hub.recv(slow), RecvOutcome::Empty));
}

#[test]
fn hub_publish_without_subscribers_is_noop() {
    let mut hub: Hub<i32> = Hub::new(4);
    hub.publish(&7);
    let s = hub.subscribe();
    assert!(matches!(hub.recv(s), RecvOutcome::Empty));
}

#[test]
fn hub_unsubscribe_retires_handle() {
    let mut hub: Hub<i32> = Hub::new(4);
    let s = hub.subscribe();
    hub.unsubscribe(s);
    assert!(matches!(hub.recv(s), RecvOutcome::Gone));
    hub.publish(&5);
    assert!(matches!(hub.recv(s), RecvOutcome::Gone));
}
