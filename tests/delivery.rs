use calendarbot::dispatch::{Delivery, Reply};

#[test]
fn prior_message_is_edited() {
    let d = Delivery::begin(Some(41));
    assert_eq!(d, Delivery::Editing { message_id: 41 });
    let d = d.advance(Reply::Accepted { message_id: 41 });
    assert_eq!(d, Delivery::Delivered { message_id: 41 });
    assert!(d.is_finished());
    assert_eq!(d.delivered_message(), Some(41));
}

#[test]
fn refused_edit_falls_back_to_one_new_message() {
    let d = Delivery::begin(Some(41));
    let d = d.advance(Reply::Refused);
    assert_eq!(d, Delivery::Creating);
    assert!(!d.is_finished());
    let d = d.advance(Reply::Accepted { message_id: 77 });
    assert_eq!(d, Delivery::Delivered { message_id: 77 });
    assert_eq!(d.delivered_message(), Some(77));
    assert_ne!(d.delivered_message(), Some(41));
    assert_eq!(d.advance(Reply::Accepted { message_id: 99 }), d);
}

#[test]
fn first_notification_is_posted() {
    let d = Delivery::begin(None);
    assert_eq!(d, Delivery::Creating);
    assert_eq!(d.advance(Reply::Accepted { message_id: 5 }), Delivery::Delivered { message_id: 5 });
}

#[test]
fn failed_post_ends_the_delivery() {
    let d = Delivery::begin(Some(3)).advance(Reply::Refused).advance(Reply::Refused);
    assert_eq!(d, Delivery::Failed);
    assert!(d.is_finished());
    assert_eq!(d.delivered_message(), None);
    assert_eq!(d.advance(Reply::Accepted { message_id: 8 }), Delivery::Failed);
}
