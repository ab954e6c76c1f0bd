use star_engine::accessor::{Access, Read, Resource, Write};
use star_engine::event::BoxedEvent;
use star_engine::events::{Events, EventsIterator};
use star_engine::notifier::NotifierQueue;

fn ev(id: u64, priority: u64, tag: u8) -> BoxedEvent {
    BoxedEvent { id, priority, payload: vec![tag] }
}

fn tags(v: &[BoxedEvent]) -> Vec<u8> {
    v.iter().map(|e| e.payload[0]).collect()
}

#[test]
fn drain_orders_by_priority_then_push_order() {
    let mut events = Events::new();
    events.push(ev(1, 1, b'a'));
    events.push(ev(1, 5, b'b'));
    events.push(ev(1, 3, b'c'));
    events.push(ev(1, 5, b'd'));
    events.push(ev(1, 1, b'e'));
    let out = events.drain();
    assert_eq!(tags(&out), b"bdcae".to_vec());
    assert!(events.is_empty());
}

#[test]
fn iter_sorts_in_place_and_keeps_events() {
    let mut events = Events::new();
    events.push(ev(1, 0, b'x'));
    events.push(ev(1, 9, b'y'));
    assert_eq!(tags(events.iter()), b"yx".to_vec());
    assert_eq!(events.len(), 2);
    events.push(ev(1, 9, b'z'));
    assert_eq!(tags(events.iter()), b"yzx".to_vec());
}

#[test]
fn merge_resorts_both() {
    let mut a = Events::new();
    a.push(ev(1, 2, b'a'));
    a.push(ev(1, 7, b'b'));
    let mut b = Events::new();
    b.push(ev(1, 7, b'c'));
    b.push(ev(1, 2, b'd'));
    a.merge(b);
    assert_eq!(tags(&a.drain()), b"bcad".to_vec());
}

#[test]
fn empty_container_drains_nothing() {
    let mut events = Events::new();
    assert!(events.drain().is_empty());
    assert_eq!(events.len(), 0);
}

#[test]
fn equal_priorities_keep_push_order() {
    let mut events = Events::new();
    for t in 0..10u8 {
        events.push(ev(1, 4, t));
    }
    assert_eq!(tags(&events.drain()), (0..10u8).collect::<Vec<u8>>());
}

#[test]
fn largest_priority_comes_first() {
    let mut events = Events::new();
    events.push(ev(1, 0, b'a'));
    events.push(ev(1, u64::MAX, b'b'));
    assert_eq!(tags(&events.drain()), b"ba".to_vec());
}

#[test]
fn from_vec_is_sorted_on_read() {
    let mut events = Events::from_vec(vec![ev(1, 1, b'a'), ev(1, 2, b'b')]);
    assert_eq!(tags(events.iter()), b"ba".to_vec());
}

#[test]
fn notifier_queue_pops_highest_first_ties_in_insertion_order() {
    // A(priority 5), B(priority 1), C(priority 5) pop as A, C, B
    let mut q = NotifierQueue::new();
    q.push(ev(1, 5, b'A'));
    q.push(ev(1, 1, b'B'));
    q.push(ev(1, 5, b'C'));
    assert_eq!(q.pop_event().unwrap().payload, vec![b'A']);
    assert_eq!(q.pop_event().unwrap().payload, vec![b'C']);
    assert_eq!(q.pop_event().unwrap().payload, vec![b'B']);
    assert!(q.pop_event().is_none());
}

#[test]
fn notifier_queue_push_between_pops() {
    let mut q = NotifierQueue::new();
    q.push(ev(1, 3, b'a'));
    q.push(ev(1, 3, b'b'));
    assert_eq!(q.pop_event().unwrap().payload, vec![b'a']);
    q.push(ev(1, 4, b'c'));
    q.push(ev(1, 3, b'd'));
    assert_eq!(q.pop_event().unwrap().payload, vec![b'c']);
    assert_eq!(q.pop_event().unwrap().payload, vec![b'b']);
    assert_eq!(q.pop_event().unwrap().payload, vec![b'd']);
    assert_eq!(q.len(), 0);
}

#[test]
fn notifier_queue_empty_pop_is_none() {
    let mut q = NotifierQueue::new();
    assert!(q.pop_event().is_none());
    assert!(q.iter().is_empty());
}

#[test]
fn notifier_queue_iter_resolves_pending_sort() {
    let mut q = NotifierQueue::new();
    q.push(ev(1, 1, b'a'));
    q.push(ev(1, 5, b'b'));
    q.push(ev(1, 5, b'c'));
    assert_eq!(tags(q.iter()), b"bca".to_vec());
    // iterating shows what successive pops take
    assert_eq!(q.pop_event().unwrap().payload, vec![b'b']);
    assert_eq!(q.pop_event().unwrap().payload, vec![b'c']);
    assert_eq!(q.pop_event().unwrap().payload, vec![b'a']);
}

#[test]
fn events_iterator_yields_accepted_only() {
    struct Hit;
    impl star_engine::event::Event for Hit {
        const ID: u64 = 7;
        fn priority(&self) -> u64 {
            self.priority_of()
        }
        fn priority_of(&self) -> u64 {
            0
        }
        fn encode(&self) -> Vec<u8> {
            Vec::new()
        }
        fn decode(payload: &Vec<u8>) -> Self {
            Self::decoded(payload)
        }
        fn decoded(_payload: &Vec<u8>) -> Self {
            Hit
        }
    }
    let v = vec![ev(7, 0, b'a'), ev(8, 0, b'b'), ev(7, 0, b'c'), ev(9, 0, b'd')];
    let mut it: EventsIterator<Hit> = EventsIterator::new(&v);
    assert_eq!(it.next().unwrap().payload, vec![b'a']);
    assert_eq!(it.next().unwrap().payload, vec![b'c']);
    assert!(it.next().is_none());
    assert!(it.next().is_none());
}

struct Tagged {
    tag: u8,
    level: u64,
}

impl star_engine::event::Event for Tagged {
    const ID: u64 = 3;
    fn priority(&self) -> u64 {
        self.priority_of()
    }
    fn priority_of(&self) -> u64 {
        self.level
    }
    fn encode(&self) -> Vec<u8> {
        vec![self.tag]
    }
    fn decode(payload: &Vec<u8>) -> Self {
        Self::decoded(payload)
    }
    fn decoded(payload: &Vec<u8>) -> Self {
        Tagged { tag: payload[0], level: 0 }
    }
}

#[test]
fn typed_pushes_are_erased_and_ordered() {
    let mut events = Events::default();
    events.push_event(Tagged { tag: b'a', level: 1 });
    events.push_event(Tagged { tag: b'b', level: 2 });
    let out = events.drain();
    assert_eq!(tags(&out), b"ba".to_vec());
    assert!(out.iter().all(|e| e.id == 3));
    let mut q = NotifierQueue::default();
    q.push_event(Tagged { tag: b'c', level: 0 });
    q.push_event(Tagged { tag: b'd', level: 8 });
    assert_eq!(q.pop_event().unwrap().payload, vec![b'd']);
    assert_eq!(q.pop_event().unwrap().payload, vec![b'c']);
}

#[test]
fn filtered_view_walks_consumption_order() {
    let mut events = Events::new();
    events.push(ev(3, 1, b'a'));
    events.push(ev(4, 9, b'b'));
    events.push(ev(3, 5, b'c'));
    let mut view = events.filtered::<Tagged>();
    assert_eq!(view.next().unwrap().payload, vec![b'c']);
    assert_eq!(view.next().unwrap().payload, vec![b'a']);
    assert!(view.next().is_none());
}

struct Other;

impl star_engine::event::Event for Other {
    const ID: u64 = 4;
    fn priority(&self) -> u64 {
        0
    }
    fn priority_of(&self) -> u64 {
        0
    }
    fn encode(&self) -> Vec<u8> {
        vec![b'o']
    }
    fn decode(payload: &Vec<u8>) -> Self {
        Self::decoded(payload)
    }
    fn decoded(_payload: &Vec<u8>) -> Self {
        Other
    }
}

#[test]
fn each_typed_view_sees_exactly_its_event() {
    let mut q = NotifierQueue::new();
    q.push_event(Tagged { tag: b'x', level: 0 });
    q.push_event(Other);
    let held = q.iter();
    let mut xs: EventsIterator<Tagged> = EventsIterator::new(held);
    assert_eq!(xs.next().unwrap().payload, vec![b'x']);
    assert!(xs.next().is_none());
    let mut ys: EventsIterator<Other> = EventsIterator::new(held);
    assert_eq!(ys.next().unwrap().payload, vec![b'o']);
    assert!(ys.next().is_none());
}

#[test]
fn event_containers_are_resources() {
    assert_ne!(<Events as Resource>::ID, <NotifierQueue as Resource>::ID);
    assert_eq!(<Read<Events> as Access>::reads(), vec![<Events as Resource>::ID]);
    assert_eq!(<Write<NotifierQueue> as Access>::writes(), vec![<NotifierQueue as Resource>::ID]);
}
