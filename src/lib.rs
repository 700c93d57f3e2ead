//! Management of zFCP storage controllers: the controller → WWPN → LUN
//! hierarchy, the engine that activates its members, and the aggregator that
//! merges hardware-change notifications into one labelled stream.
pub mod aggregator;
pub mod engine;
pub mod error;
pub mod model;
