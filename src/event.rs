//! What an event is: a priority, a stable identity shared by every value of
//! its concrete type, and a checked way back from the erased form.
use vstd::prelude::*;

verus! {

/// The routing key of an event: one value per concrete event type.
pub type EventID = u64;

/// A concrete event type.
///
/// The erased form of an event keeps its identity, its priority and an
/// encoding of its fields; `decode` is the way back to the concrete value.
/// `ID` must differ from the `ID` of every other event type of the program:
/// a downcast decodes any event with that identity as a value of this type.
pub trait Event: Sized {
    /// The identity shared by every value of this type.
    const ID: EventID;

    /// The priority of this value: the higher, the sooner it is dispatched.
    spec fn priority_of(&self) -> u64;

    /// The value whose encoding is `payload`.
    spec fn decoded(payload: &Vec<u8>) -> Self;

    fn priority(&self) -> (r: u64)
        ensures
            r == self.priority_of(),
    ;

    /// Encodes the fields, so that decoding gives this value back.
    fn encode(&self) -> (payload: Vec<u8>)
        ensures
            Self::decoded(&payload) == *self,
    ;

    /// The value whose encoding is `payload`; only called on the payload of
    /// an event with this type's identity.
    fn decode(payload: &Vec<u8>) -> (r: Self)
        ensures
            r == Self::decoded(payload),
    ;
}

/// An event with its concrete type erased: its identity, its priority and
/// the encoding of its fields.
pub struct BoxedEvent {
    pub id: EventID,
    pub priority: u64,
    pub payload: Vec<u8>,
}

impl BoxedEvent {
    /// Erases the type of `event`.
    pub fn new<E: Event>(event: E) -> (b: BoxedEvent)
        ensures
            erases::<E>(b, event),
    {
        let payload = event.encode();
        BoxedEvent { id: E::ID, priority: event.priority(), payload }
    }
}

/// `b` is `event` with its type erased: the identity of `E`, the priority
/// of `event`, and a payload that decodes to `event`.
pub open spec fn erases<E: Event>(b: BoxedEvent, event: E) -> bool {
    &&& b.id == E::ID
    &&& b.priority == event.priority_of()
    &&& E::decoded(&b.payload) == event
}

/// Whether `event` is a value of `E`, so that a downcast to `E` succeeds.
pub open spec fn is_event_of<E: Event>(event: BoxedEvent) -> bool {
    event.id == E::ID
}

/// Downcasting gives back what was erased: an event erased from `value`
/// downcasts to `E` as `value` itself, field for field, and an event whose
/// identity is not `E`'s downcasts to itself, unchanged, still owned by the
/// caller.
pub proof fn lemma_downcast_round_trip<E: Event>(value: E, erased: BoxedEvent, other: BoxedEvent)
    requires
        erases::<E>(erased, value),
        other.id != E::ID,
    ensures
        downcast_result::<E>(erased) == Ok::<E, BoxedEvent>(value),
        downcast_result::<E>(other) == Err::<E, BoxedEvent>(other),
{
}

/// What a downcast of `event` to `E` gives: the value its payload encodes
/// when its identity is `E`'s, else the event itself.
pub open spec fn downcast_result<E: Event>(event: BoxedEvent) -> Result<E, BoxedEvent> {
    if is_event_of::<E>(event) {
        Ok(E::decoded(&event.payload))
    } else {
        Err(event)
    }
}

/// The `EventID` of the event type `E`.
pub fn id<E: Event>() -> (r: EventID)
    ensures
        r == E::ID,
{
    E::ID
}

/// Whether the identity of `event` is accepted by the filter `F`.
pub fn is<F: EventFilter>(event: &BoxedEvent) -> (r: bool)
    ensures
        r == F::spec_has_type(event.id),
{
    F::has_type(event.id)
}

/// Turns `event` back into a value of `E`: the value its payload encodes
/// when its identity is `E`'s; otherwise the event itself, unchanged, so
/// that the caller still owns it.
pub fn downcast_event<E: Event>(event: BoxedEvent) -> (r: Result<E, BoxedEvent>)
    ensures
        r == downcast_result::<E>(event),
{
    if event.id != E::ID {
        return Err(event);
    }
    Ok(E::decode(&event.payload))
}

/// Reads the fields of `event` as a value of `E` without taking the event;
/// hands back the reference when its identity is not `E`'s.
pub fn downcast_event_ref<E: Event>(event: &BoxedEvent) -> (r: Result<E, &BoxedEvent>)
    ensures
        is_event_of::<E>(*event) ==> r == Ok::<E, &BoxedEvent>(E::decoded(&event.payload)),
        !is_event_of::<E>(*event) ==> r == Err::<E, &BoxedEvent>(event),
{
    if event.id != E::ID {
        return Err(event);
    }
    Ok(E::decode(&event.payload))
}

/// Turns `event` back into a value of `E`; the caller has already checked
/// that the event is one.
pub fn force_downcast_event<E: Event>(event: BoxedEvent) -> (r: E)
    requires
        is_event_of::<E>(event),
    ensures
        r == E::decoded(&event.payload),
{
    E::decode(&event.payload)
}

/// Reads the fields of `event` as a value of `E`; the caller has already
/// checked that the event is one.
pub fn force_downcast_event_ref<E: Event>(event: &BoxedEvent) -> (r: E)
    requires
        is_event_of::<E>(*event),
    ensures
        r == E::decoded(&event.payload),
{
    E::decode(&event.payload)
}

/// A predicate over event identities: one event type, or a tuple of up to
/// five, accepting an identity when any member has it.
pub trait EventFilter {
    spec fn spec_has_type(event_id: EventID) -> bool;

    fn has_type(event_id: EventID) -> (r: bool)
        ensures
            r == Self::spec_has_type(event_id),
    ;

    /// The identities accepted, as a filter set for a notifier.
    fn ids() -> (r: Vec<EventID>)
        ensures
            forall|event_id: EventID| #[trigger] r@.contains(event_id) == Self::spec_has_type(event_id),
    ;
}

impl<A: Event> EventFilter for A {
    open spec fn spec_has_type(event_id: EventID) -> bool {
        event_id == A::ID
    }

    fn has_type(event_id: EventID) -> (r: bool) {
        A::ID == event_id
    }

    fn ids() -> (r: Vec<EventID>) {
        let r = vec![A::ID];
        proof {
            assert forall|event_id: EventID| #[trigger] r@.contains(event_id) == Self::spec_has_type(event_id) by {
            if event_id == A::ID {
                assert(r@[0] == event_id);
            }
            }
        }
        r
    }
}

impl<A: Event, B: Event> EventFilter for (A, B) {
    open spec fn spec_has_type(event_id: EventID) -> bool {
        event_id == A::ID || event_id == B::ID
    }

    fn has_type(event_id: EventID) -> (r: bool) {
        A::ID == event_id || B::ID == event_id
    }

    fn ids() -> (r: Vec<EventID>) {
        let r = vec![A::ID, B::ID];
        proof {
            assert forall|event_id: EventID| #[trigger] r@.contains(event_id) == Self::spec_has_type(event_id) by {
            if event_id == A::ID {
                assert(r@[0] == event_id);
            }
            if event_id == B::ID {
                assert(r@[1] == event_id);
            }
            }
        }
        r
    }
}

impl<A: Event, B: Event, C: Event> EventFilter for (A, B, C) {
    open spec fn spec_has_type(event_id: EventID) -> bool {
        event_id == A::ID || event_id == B::ID || event_id == C::ID
    }

    fn has_type(event_id: EventID) -> (r: bool) {
        A::ID == event_id || B::ID == event_id || C::ID == event_id
    }

    fn ids() -> (r: Vec<EventID>) {
        let r = vec![A::ID, B::ID, C::ID];
        proof {
            assert forall|event_id: EventID| #[trigger] r@.contains(event_id) == Self::spec_has_type(event_id) by {
            if event_id == A::ID {
                assert(r@[0] == event_id);
            }
            if event_id == B::ID {
                assert(r@[1] == event_id);
            }
            if event_id == C::ID {
                assert(r@[2] == event_id);
            }
            }
        }
        r
    }
}

impl<A: Event, B: Event, C: Event, D: Event> EventFilter for (A, B, C, D) {
    open spec fn spec_has_type(event_id: EventID) -> bool {
        event_id == A::ID || event_id == B::ID || event_id == C::ID
            || event_id == D::ID
    }

    fn has_type(event_id: EventID) -> (r: bool) {
        A::ID == event_id || B::ID == event_id || C::ID == event_id || D::ID == event_id
    }

    fn ids() -> (r: Vec<EventID>) {
        let r = vec![A::ID, B::ID, C::ID, D::ID];
        proof {
            assert forall|event_id: EventID| #[trigger] r@.contains(event_id) == Self::spec_has_type(event_id) by {
            if event_id == A::ID {
                assert(r@[0] == event_id);
            }
            if event_id == B::ID {
                assert(r@[1] == event_id);
            }
            if event_id == C::ID {
                assert(r@[2] == event_id);
            }
            if event_id == D::ID {
                assert(r@[3] == event_id);
            }
            }
        }
        r
    }
}

impl<A: Event, B: Event, C: Event, D: Event, E: Event> EventFilter for (A, B, C, D, E) {
    open spec fn spec_has_type(event_id: EventID) -> bool {
        event_id == A::ID || event_id == B::ID || event_id == C::ID
            || event_id == D::ID || event_id == E::ID
    }

    fn has_type(event_id: EventID) -> (r: bool) {
        A::ID == event_id || B::ID == event_id || C::ID == event_id || D::ID == event_id
            || E::ID == event_id
    }

    fn ids() -> (r: Vec<EventID>) {
        let r = vec![A::ID, B::ID, C::ID, D::ID, E::ID];
        proof {
            assert forall|event_id: EventID| #[trigger] r@.contains(event_id) == Self::spec_has_type(event_id) by {
            if event_id == A::ID {
                assert(r@[0] == event_id);
            }
            if event_id == B::ID {
                assert(r@[1] == event_id);
            }
            if event_id == C::ID {
                assert(r@[2] == event_id);
            }
            if event_id == D::ID {
                assert(r@[3] == event_id);
            }
            if event_id == E::ID {
                assert(r@[4] == event_id);
            }
            }
        }
        r
    }
}

} // verus!
