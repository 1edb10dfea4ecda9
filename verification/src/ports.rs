//! What the client core needs from its surroundings that it does not await.
use vstd::prelude::*;
use crate::error::CoreResult;
use crate::event::DomainEvent;

verus! {

/// Somewhere to publish domain events.
pub trait EventSink: Send + Sync {
    fn publish(&self, event: DomainEvent) -> CoreResult<()>;
}

} // verus!
