use star_engine::event::{
    downcast_event, downcast_event_ref, force_downcast_event, force_downcast_event_ref, id, is,
    BoxedEvent, Event, EventFilter, EventID,
};

#[derive(Debug, Clone, PartialEq)]
struct Attack {
    damage: u32,
    from: u64,
    to: u64,
}

#[derive(Debug, Clone, PartialEq)]
struct Heal {
    amount: u32,
}

#[derive(Debug, Clone, PartialEq)]
struct Spawn;

fn take_u32(b: &[u8], at: usize) -> u32 {
    u32::from_le_bytes([b[at], b[at + 1], b[at + 2], b[at + 3]])
}

fn take_u64(b: &[u8], at: usize) -> u64 {
    let mut w = [0u8; 8];
    w.copy_from_slice(&b[at..at + 8]);
    u64::from_le_bytes(w)
}

impl Event for Attack {
    const ID: EventID = 1;
    fn priority(&self) -> u64 {
        self.priority_of()
    }
    fn priority_of(&self) -> u64 {
        5
    }
    fn encode(&self) -> Vec<u8> {
        let mut v = Vec::new();
        v.extend_from_slice(&self.damage.to_le_bytes());
        v.extend_from_slice(&self.from.to_le_bytes());
        v.extend_from_slice(&self.to.to_le_bytes());
        v
    }
    fn decode(payload: &Vec<u8>) -> Self {
        Self::decoded(payload)
    }
    fn decoded(payload: &Vec<u8>) -> Self {
        Attack { damage: take_u32(payload, 0), from: take_u64(payload, 4), to: take_u64(payload, 12) }
    }
}

impl Event for Heal {
    const ID: EventID = 2;
    fn priority(&self) -> u64 {
        self.priority_of()
    }
    fn priority_of(&self) -> u64 {
        0
    }
    fn encode(&self) -> Vec<u8> {
        self.amount.to_le_bytes().to_vec()
    }
    fn decode(payload: &Vec<u8>) -> Self {
        Self::decoded(payload)
    }
    fn decoded(payload: &Vec<u8>) -> Self {
        Heal { amount: take_u32(payload, 0) }
    }
}

impl Event for Spawn {
    const ID: EventID = 3;
    fn priority(&self) -> u64 {
        self.priority_of()
    }
    fn priority_of(&self) -> u64 {
        1
    }
    fn encode(&self) -> Vec<u8> {
        Vec::new()
    }
    fn decode(payload: &Vec<u8>) -> Self {
        Self::decoded(payload)
    }
    fn decoded(_payload: &Vec<u8>) -> Self {
        Spawn
    }
}

#[test]
fn id_is_per_type() {
    assert_eq!(id::<Attack>(), 1);
    assert_eq!(id::<Heal>(), 2);
    assert_ne!(id::<Attack>(), id::<Heal>());
}

#[test]
fn boxing_keeps_identity_and_priority() {
    let b = BoxedEvent::new(Attack { damage: 7, from: 1, to: 2 });
    assert_eq!(b.id, 1);
    assert_eq!(b.priority, 5);
    assert_eq!(b.payload.len(), 20);
}

#[test]
fn downcast_round_trip_keeps_fields() {
    let original = Attack { damage: 12, from: 3, to: 9 };
    let b = BoxedEvent::new(original.clone());
    match downcast_event::<Attack>(b) {
        Ok(a) => assert_eq!(a, original),
        Err(_) => panic!("downcast to the erased type failed"),
    }
}

#[test]
fn downcast_mismatch_returns_event_unchanged() {
    let b = BoxedEvent::new(Heal { amount: 40 });
    let payload = b.payload.clone();
    match downcast_event::<Attack>(b) {
        Ok(_) => panic!("downcast to another type succeeded"),
        Err(back) => {
            assert_eq!(back.id, 2);
            assert_eq!(back.priority, 0);
            assert_eq!(back.payload, payload);
            // the caller still owns it and can try the right type
            assert_eq!(downcast_event::<Heal>(back).ok(), Some(Heal { amount: 40 }));
        }
    }
}

#[test]
fn downcast_ref_borrows() {
    let b = BoxedEvent::new(Attack { damage: 1, from: 2, to: 3 });
    assert_eq!(downcast_event_ref::<Attack>(&b).ok(), Some(Attack { damage: 1, from: 2, to: 3 }));
    assert!(downcast_event_ref::<Heal>(&b).is_err());
    // still usable afterwards
    assert_eq!(b.id, 1);
}

#[test]
fn force_downcasts() {
    let b = BoxedEvent::new(Heal { amount: 9 });
    assert_eq!(force_downcast_event_ref::<Heal>(&b), Heal { amount: 9 });
    assert_eq!(force_downcast_event::<Heal>(b), Heal { amount: 9 });
}

#[test]
fn filters_single_and_tuples() {
    let a = BoxedEvent::new(Attack { damage: 1, from: 0, to: 0 });
    let h = BoxedEvent::new(Heal { amount: 1 });
    let s = BoxedEvent::new(Spawn);
    assert!(is::<Attack>(&a));
    assert!(!is::<Attack>(&h));
    assert!(is::<(Attack, Heal)>(&h));
    assert!(!is::<(Attack, Heal)>(&s));
    assert!(is::<(Attack, Heal, Spawn)>(&s));
    assert!(is::<(Heal, Heal, Heal, Spawn)>(&s));
    assert!(!is::<(Heal, Heal, Heal, Heal)>(&a));
    assert!(is::<(Heal, Heal, Heal, Heal, Attack)>(&a));
    assert!(<(Attack, Spawn) as EventFilter>::has_type(3));
    assert!(!<(Attack, Spawn) as EventFilter>::has_type(2));
}

#[test]
fn filter_ids_list_every_member() {
    assert_eq!(<Attack as EventFilter>::ids(), vec![1]);
    assert_eq!(<(Attack, Heal) as EventFilter>::ids(), vec![1, 2]);
    assert_eq!(<(Attack, Heal, Spawn) as EventFilter>::ids(), vec![1, 2, 3]);
    assert_eq!(<(Spawn, Heal, Attack, Heal) as EventFilter>::ids(), vec![3, 2, 1, 2]);
    assert_eq!(<(Heal, Heal, Heal, Heal, Attack) as EventFilter>::ids(), vec![2, 2, 2, 2, 1]);
}
