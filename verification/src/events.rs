//! The bot's gateway event handler. Its decisions are methods of `Handler`:
//! `reaction_add` (in `reaction`) and `voice_state_update` (in `watch`).

use vstd::prelude::*;

verus! {

/// The handler of gateway events (reactions, voice-state changes).
pub struct Handler;

} // verus!
