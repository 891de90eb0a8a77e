//! The mind's errors.

use vstd::prelude::*;

use crate::contract::{RelationKind, ThoughtKind};

verus! {

#[derive(Debug, Clone, PartialEq, Eq)]
pub enum Error {
    ActorCall(String),
    ActorSpawn(String),
    ActorJoin(String),
    Io(String),
    /// The system clock reads a time before the Unix epoch.
    SystemTime,
    SignalFrame(String),
    Nota(String),
    Sema(String),
    UnexpectedFrame(String),
    FrameTooLarge { found: usize, limit: usize },
    MissingCommandInput,
    UnknownCommandLineOption { option: String },
    MissingCommandLineOptionValue { option: String },
    InvalidCommandLineArgument { argument: String },
    MissingSocketPath,
    MissingActorName,
    MissingStorePath,
    WrongRequestArgumentCount { count: usize },
    /// A path that does not begin with `/` where an absolute path is required.
    RelativeWirePath { path: String },
    /// An empty task token.
    EmptyTaskToken,
    /// An empty claim or activity reason.
    EmptyScopeReason,
    MindGraphThoughtKindMismatch { declared: ThoughtKind, actual: ThoughtKind },
    MindGraphMissingRecord { record: String },
    MindGraphRelationKindMismatch { kind: RelationKind, source: ThoughtKind, target: ThoughtKind },
}


} // verus!
