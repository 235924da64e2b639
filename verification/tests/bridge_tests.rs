use utilities::bridge::{Delivery, Subscription};

#[test]
fn active_subscription_delivers_and_skips() {
    let mut sub = Subscription::subscribe(String::from("events"));
    assert!(sub.is_active());
    assert_eq!(sub.channel().as_str(), "events");
    assert!(matches!(sub.on_message(Some(41u32)), Delivery::Deliver(41)));
    // A payload that failed to decode is skipped; the subscription lives on.
    assert!(matches!(sub.on_message(None::<u32>), Delivery::Skip));
    assert!(sub.is_active());
    assert!(matches!(sub.on_message(Some(42u32)), Delivery::Deliver(42)));
}

#[test]
fn no_delivery_after_unsubscribe() {
    let mut sub = Subscription::subscribe(String::from("events"));
    assert!(matches!(sub.on_message(Some(1u32)), Delivery::Deliver(1)));
    sub.unsubscribe();
    assert!(!sub.is_active());
    // Publishing continues: nothing more is delivered to this subscriber.
    assert!(matches!(sub.on_message(Some(2u32)), Delivery::Stopped));
    assert!(matches!(sub.on_message(Some(3u32)), Delivery::Stopped));
    assert!(matches!(sub.on_message(None::<u32>), Delivery::Stopped));
    assert!(!sub.is_active());
}

#[test]
fn connection_loss_stops_delivery() {
    let mut sub = Subscription::subscribe(String::from("events"));
    sub.connection_lost();
    assert!(!sub.is_active());
    assert!(matches!(sub.on_message(Some(1u32)), Delivery::Stopped));
}
