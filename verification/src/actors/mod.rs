//! The mind's actor planes: the topology they form, the traces requests leave, and
//! the path each request takes through them.

pub mod config;
pub mod manifest;
pub mod pipeline;
pub mod store;
pub mod subscription;
pub mod trace;

pub use manifest::{ActorManifest, ActorResidency, ManifestEdge, ManifestEntry};
pub use trace::{ActorTrace, TraceAction, TraceEvent, TraceNode};
