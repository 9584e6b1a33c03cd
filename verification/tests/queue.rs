use net::{Event, EventQueue};

#[test]
fn queue_works() {
    let mut q = EventQueue::default();

    // Put three in
    q.push(Event::Received(0, "Hello world!".as_bytes().to_vec()));
    q.push(Event::Received(1, "Hello world!!".as_bytes().to_vec()));
    q.push(Event::Received(2, "Hello world!!!".as_bytes().to_vec()));

    let out = q.pop_all();

    // Get three out
    assert!(out.len() == 3);

    // Now get nothing out
    assert!(q.pop_all().is_empty());
}

#[test]
fn queue_hands_over_in_order() {
    let mut q = EventQueue::default();
    q.push(Event::Open(4));
    q.push(Event::Received(4, vec![1, 2, 3]));
    q.push(Event::Closed(4));
    assert_eq!(q.len(), 3);

    let out = q.pop_all();
    assert_eq!(out.len(), 3);
    assert!(matches!(out[0], Event::Open(4)));
    match &out[1] {
        Event::Received(id, payload) => {
            assert_eq!(*id, 4);
            assert_eq!(payload, &vec![1u8, 2, 3]);
        }
        other => panic!("unexpected event {:?}", other),
    }
    assert!(matches!(out[2], Event::Closed(4)));
    assert_eq!(q.len(), 0);
}

#[test]
fn second_drain_is_empty() {
    let mut q = EventQueue::default();
    q.push(Event::Open(0));
    assert_eq!(q.pop_all().len(), 1);
    assert!(q.pop_all().is_empty());
    assert!(q.pop_all().is_empty());
}

#[test]
fn drain_of_empty_queue_is_empty() {
    let mut q = EventQueue::default();
    assert!(q.pop_all().is_empty());
}

#[test]
fn queue_takes_events_after_a_drain() {
    let mut q = EventQueue::default();
    q.push(Event::Open(1));
    let _ = q.pop_all();
    q.push(Event::Closed(1));
    let out = q.pop_all();
    assert_eq!(out.len(), 1);
    assert!(matches!(out[0], Event::Closed(1)));
}

#[test]
fn event_names_its_connection() {
    assert_eq!(Event::Open(3).id(), 3);
    assert_eq!(Event::Closed(5).id(), 5);
    assert_eq!(Event::Received(7, vec![]).id(), 7);
}
