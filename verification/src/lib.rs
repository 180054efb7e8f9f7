//! Prerequisite-gated tasks.
//!
//! A task is a callable body with an optional numeric prerequisite. Each call
//! supplies an *order*; the body runs when the order has reached the
//! prerequisite, and the call yields the neutral result `0` otherwise.
//!
//! Two disciplines drive a registry of tasks. Under self-gating every task is
//! called with its place in the registry as its order and decides for itself.
//! Under filtering the executor first picks the tasks whose prerequisite
//! admits the order of the round, then calls each survivor with its place
//! among the survivors. Both run the same tasks for the same order.
//!
//! * [`gate`] holds the gating relation itself.
//! * [`plain`] holds tasks whose bodies are ordinary callables over two integers.
//! * [`scratch`] holds the shared scratch buffer and the derivation of indices into it.
//! * [`body`] holds the interface of bodies that work on the scratch buffer.
//! * [`task`] holds the four task designs over such bodies.
//! * [`executor`] holds the executor that filters a registry before it invokes it.
//! * [`registry`] builds the registries that the drivers walk.

pub mod gate;
pub mod plain;
pub mod scratch;
pub mod body;
pub mod task;
pub mod executor;
pub mod registry;
