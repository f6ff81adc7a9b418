use terminux::ssh::{EventOutbox, SshEvent};

fn data(text: &str) -> SshEvent {
    SshEvent::Data(text.as_bytes().to_vec())
}

#[test]
fn a_reader_sees_what_is_published_after_it_began() {
    let mut outbox = EventOutbox::new();
    assert_eq!(outbox.len(), 0);
    outbox.publish(SshEvent::Connected);
    outbox.publish(data("before"));
    let mut reader = outbox.subscribe();
    assert_eq!(outbox.next(&mut reader), None);
    outbox.publish(data("one"));
    outbox.publish_all(vec![data("two"), SshEvent::Error("lost".to_string())]);
    outbox.publish(SshEvent::Disconnected);
    assert_eq!(outbox.len(), 6);
    assert_eq!(outbox.next(&mut reader), Some(data("one")));
    assert_eq!(outbox.next(&mut reader), Some(data("two")));
    assert_eq!(outbox.next(&mut reader), Some(SshEvent::Error("lost".to_string())));
    assert_eq!(outbox.next(&mut reader), Some(SshEvent::Disconnected));
    assert_eq!(outbox.next(&mut reader), None);
    assert_eq!(outbox.next(&mut reader), None);
}

#[test]
fn every_reader_sees_every_event() {
    let mut outbox = EventOutbox::new();
    let mut first = outbox.subscribe();
    outbox.publish(SshEvent::Connected);
    let mut second = outbox.subscribe();
    outbox.publish(data("a"));
    outbox.publish(data("b"));

    assert_eq!(outbox.next(&mut first), Some(SshEvent::Connected));
    assert_eq!(outbox.next(&mut first), Some(data("a")));
    assert_eq!(outbox.next(&mut second), Some(data("a")));
    assert_eq!(outbox.next(&mut second), Some(data("b")));
    assert_eq!(outbox.next(&mut second), None);
    assert_eq!(outbox.next(&mut first), Some(data("b")));
    assert_eq!(outbox.next(&mut first), None);

    let mut late = outbox.subscribe();
    assert_eq!(outbox.next(&mut late), None);
    outbox.publish(SshEvent::Disconnected);
    assert_eq!(outbox.next(&mut late), Some(SshEvent::Disconnected));
    assert_eq!(outbox.next(&mut first), Some(SshEvent::Disconnected));
    assert_eq!(outbox.next(&mut second), Some(SshEvent::Disconnected));
}

#[test]
fn a_reader_of_a_longer_outbox_reads_nothing_from_a_shorter_one() {
    let mut long = EventOutbox::new();
    long.publish_all(vec![data("1"), data("2"), data("3")]);
    let mut reader = long.subscribe();
    let mut short = EventOutbox::new();
    short.publish(data("x"));
    assert_eq!(short.next(&mut reader), None);
    assert_eq!(reader, long.subscribe());
    short.publish_all(Vec::new());
    assert_eq!(short.len(), 1);
}
