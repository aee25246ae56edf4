//! The envelope every domain event travels in.
use vstd::prelude::*;

use crate::actor::{ActorContext, ActorContextView};
use crate::primitives::ids::{CommandId, EventId, PrefixedIdView};
use crate::primitives::label::opt_id_view;
use crate::primitives::time::UtcTime;
use crate::text::owned;

verus! {

/// The abstract value of an envelope around a payload of view `P`.
pub struct EventEnvelopeView<P> {
    pub event_id: PrefixedIdView,
    pub command_id: Option<PrefixedIdView>,
    pub idempotency_key: Option<Seq<char>>,
    pub actor: ActorContextView,
    pub occurred_at: int,
    pub payload: P,
}

/// A payload with who, when and under which identifiers it happened.
#[derive(Debug, Eq, PartialEq)]
pub struct EventEnvelope<E> {
    event_id: EventId,
    command_id: Option<CommandId>,
    idempotency_key: Option<String>,
    actor: ActorContext,
    occurred_at: UtcTime,
    payload: E,
}

pub open spec fn opt_text_view(s: Option<String>) -> Option<Seq<char>> {
    match s {
        Some(t) => Some(t@),
        None => None,
    }
}

impl<E: View> View for EventEnvelope<E> {
    type V = EventEnvelopeView<E::V>;

    closed spec fn view(&self) -> EventEnvelopeView<E::V> {
        EventEnvelopeView {
            event_id: self.event_id@,
            command_id: opt_id_view(self.command_id),
            idempotency_key: opt_text_view(self.idempotency_key),
            actor: self.actor@,
            occurred_at: self.occurred_at@,
            payload: self.payload@,
        }
    }
}

impl<E> EventEnvelope<E> {
    /// The payload itself, not its view.
    pub closed spec fn payload_value(self) -> E {
        self.payload
    }
}

impl<E: View + Clone> Clone for EventEnvelope<E> {
    /// Copies every field; the payload is copied by its own `clone`.
    fn clone(&self) -> (r: Self)
        ensures
            r@.event_id == self@.event_id,
            r@.command_id == self@.command_id,
            r@.idempotency_key == self@.idempotency_key,
            r@.actor == self@.actor,
            r@.occurred_at == self@.occurred_at,
            cloned(self.payload_value(), r.payload_value()),
    {
        EventEnvelope {
            event_id: self.event_id.clone(),
            command_id: match &self.command_id {
                Some(c) => Some(c.clone()),
                None => None,
            },
            idempotency_key: match &self.idempotency_key {
                Some(k) => Some(k.clone()),
                None => None,
            },
            actor: self.actor.clone(),
            occurred_at: self.occurred_at,
            payload: self.payload.clone(),
        }
    }
}

impl<E: View> EventEnvelope<E> {
    pub fn new(event_id: EventId, actor: ActorContext, occurred_at: UtcTime, payload: E) -> (r: Self)
        ensures
            r@ == (EventEnvelopeView {
                event_id: event_id@,
                command_id: None,
                idempotency_key: None,
                actor: actor@,
                occurred_at: occurred_at@,
                payload: payload@,
            }),
    {
        EventEnvelope { event_id, command_id: None, idempotency_key: None, actor, occurred_at, payload }
    }

    pub fn with_command_id(self, command_id: CommandId) -> (r: Self)
        ensures
            r@ == (EventEnvelopeView { command_id: Some(command_id@), ..self@ }),
    {
        EventEnvelope { command_id: Some(command_id), ..self }
    }

    pub fn with_idempotency_key(self, idempotency_key: &str) -> (r: Self)
        ensures
            r@ == (EventEnvelopeView { idempotency_key: Some(idempotency_key@), ..self@ }),
    {
        EventEnvelope { idempotency_key: Some(owned(idempotency_key)), ..self }
    }

    pub fn event_id(&self) -> (r: &EventId)
        ensures
            r@ == self@.event_id,
    {
        &self.event_id
    }

    pub fn actor(&self) -> (r: &ActorContext)
        ensures
            r@ == self@.actor,
    {
        &self.actor
    }

    pub fn occurred_at(&self) -> (r: UtcTime)
        ensures
            r@ == self@.occurred_at,
    {
        self.occurred_at
    }

    pub fn payload(&self) -> (r: &E)
        ensures
            r@ == self@.payload,
    {
        &self.payload
    }

    pub fn into_payload(self) -> (r: E)
        ensures
            r@ == self@.payload,
    {
        self.payload
    }
}

} // verus!
