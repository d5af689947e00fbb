//! A reactive state-management core: a single-writer, many-reader state
//! container whose value changes only through a pure message-to-state
//! mapping, together with the wiring that turns upstream value changes into
//! dispatched messages and that derives memoized, change-deduplicated views.
//!
//! The reactive runtime itself (cells, effects, lifetime scopes and their
//! synchronous propagation) is modelled here as explicit single-threaded
//! data: a scope arena, a write counter on the state cell, and propagation
//! functions whose contracts state exactly when a binding dispatches and
//! when a selector notifies its observers.

pub mod binding;
pub mod handler;
pub mod scope;
pub mod selector;
