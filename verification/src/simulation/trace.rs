use vstd::prelude::*;

use crate::game::engine::event::GameEvent;

verus! {

/// A public event as a trace keeps it: the turn in which it happened and how many decisions
/// came before it.
#[derive(Debug, Clone, Copy, PartialEq, Eq, Structural)]
pub struct EventRecord {
    pub turn: u32,
    pub decisions_before: usize,
    pub event: GameEvent,
}

} // verus!
