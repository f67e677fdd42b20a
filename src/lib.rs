//! Generates message-handler bindings for the methods of an actor type.
//!
//! The pipeline classifies each method's annotations into a handler directive,
//! maps the method's parameters onto the incoming message, and emits the
//! trait implementations that wire the method into the actor framework.

pub mod model;
pub mod text;
pub mod mapper;
pub mod classifier;
pub mod emitter;
pub mod scope;
pub mod processor;
pub mod laws;
