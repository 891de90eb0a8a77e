//! The mind of Persona: role claims over paths, the activity that roles report, a
//! memory and work graph of items, a typed graph of thoughts and relations, and the
//! actor planes that every request passes through.

pub mod activity;
pub mod actors;
pub mod claim;
pub mod command;
pub mod contract;
pub mod envelope;
pub mod error;
pub mod graph;
pub mod ids;
pub mod memory;
pub mod path;
pub mod role;
pub mod tables;
pub mod text;
pub mod transport;

pub use activity::ActivityLedger;
pub use actors::pipeline::{MindCore, RootReply as MindRootReply};
pub use claim::{ClaimLedger, ClaimScope, ClaimState};
pub use command::MindCommand;
pub use envelope::MindEnvelope;
pub use error::Error;
pub use memory::{MemoryState, StoreLocation};
pub use role::PersonaRole;
pub use tables::{StoredActivity, StoredClaim};
pub use text::{MindTextReply, MindTextRequest};
pub use transport::{MindDaemon, MindDaemonEndpoint, MindFrameCodec};
