//! A bounded, ordered path of up to four junctions, addressing a location
//! within a hierarchical namespace.
//!
//! The path supports structural access and mutation from both ends, fallible
//! growth, prepending with ascend/descend cancellation, four flavours of
//! iteration, and a compact wire format behind a versioned envelope.

pub mod codec;
pub mod iterators;
pub mod junction;
pub mod multi_location;
pub mod versioned;
