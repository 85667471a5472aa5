//! The FinTS protocol: wire syntax, data element rendering and messages.

pub mod builder;
pub mod datatype;
pub mod message;
pub mod model;
pub mod parser;
pub mod wire;

pub use parser::{load_protocol_spec, ProtocolSpec};
pub use wire::{WireField, WireMessage, WireSegment};
