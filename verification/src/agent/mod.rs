//! Surface-agnostic agent turn logic: consent, events and the topic-resolve
//! state updates of one turn.

pub mod consent;
pub mod events;
pub mod host;
pub mod launch;
pub mod serve;
pub mod turn;
