use std::time::Duration;
use tira::notification::{Notification, NotificationKind, ENTER_NANOS, EXIT_NANOS, TTL_NANOS};

#[test]
fn notification_expires_after_three_seconds() {
    let mut notification = Notification::success("Copied", "KAN-1");

    notification.tick(Duration::from_secs(2));
    assert!(!notification.is_expired());

    notification.tick(Duration::from_secs(1));
    assert!(notification.is_expired());
}

#[test]
fn notification_slides_in_holds_then_slides_out() {
    let mut notification = Notification::success("Copied", "KAN-1");

    assert!(notification.is_animating());
    assert_eq!(notification.slide_offset(50), 52);

    notification.tick(Duration::from_nanos(ENTER_NANOS as u64));
    assert!(!notification.is_animating());
    assert_eq!(notification.slide_offset(50), 0);

    notification.tick(Duration::from_nanos((TTL_NANOS - ENTER_NANOS - EXIT_NANOS) as u64));
    assert!(notification.is_animating());
    assert_eq!(notification.slide_offset(50), 0);
}

#[test]
fn error_notifications_keep_their_text() {
    let notification = Notification::error("Failed", "boom");
    assert_eq!(notification.kind(), NotificationKind::Error);
    assert_eq!(notification.title(), "Failed");
    assert_eq!(notification.message(), "boom");
}

#[test]
fn slide_offsets_ease_in_and_out() {
    let mut n = Notification::success("a", "b");
    n.tick_nanos(90_000_000);
    assert_eq!(n.slide_offset(50), 7);
    n.tick_nanos(TTL_NANOS - 90_000_000 - 150_000_000);
    assert_eq!(n.slide_offset(50), 7);
    n.tick_nanos(150_000_000);
    assert!(n.is_expired());
    assert_eq!(n.slide_offset(50), 52);
}
