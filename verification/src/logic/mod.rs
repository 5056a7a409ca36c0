//! Declarative when/if/then logic: the shared variable store and the
//! conditions and crossings a reaction fires on.

pub mod vars;
pub mod rules;
pub mod actions;
pub mod save;
