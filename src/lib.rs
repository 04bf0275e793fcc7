//! Transactional outbox: events, their durable rows, and the decisions of the
//! worker that dispatches pending events to handlers.
use vstd::prelude::*;

pub mod event;
pub mod headers;
pub mod outbox;
pub mod state;
pub mod trace;
pub mod worker;

verus! {

} // verus!
