//! Core of a GenICam-style camera control runtime: binary marshalling of
//! register values, value and cache stores, a node graph with integer and
//! enumeration features, register access through a device under a caching
//! mode, the variable environment of formulas, and the decisions of the
//! register-memory event handler.

pub mod error;
pub mod codec;
pub mod store;
pub mod cache;
pub mod interner;
pub mod elem_type;
pub mod node;
pub mod integer;
pub mod enumeration;
pub mod register_base;
pub mod register;
pub mod text;
pub mod variable;
pub mod formula_env;
pub mod memory_event;
