//! A request together with the actor that sent it.

use vstd::prelude::*;

use crate::contract::MindRequest;

verus! {

/// One public operation: the sending actor's name and its request. The actor is
/// supplied by the mind's infrastructure, not by the request payload.
#[derive(Debug, Clone, PartialEq, Eq)]
pub struct MindEnvelope {
    pub actor: String,
    pub request: MindRequest,
}

impl MindEnvelope {
    pub fn new(actor: String, request: MindRequest) -> (envelope: Self)
        ensures
            envelope.actor == actor,
            envelope.request == request,
    {
        MindEnvelope { actor, request }
    }

    pub fn actor(&self) -> (actor: &String)
        ensures
            *actor == self.actor,
    {
        &self.actor
    }

    pub fn request(&self) -> (request: &MindRequest)
        ensures
            *request == self.request,
    {
        &self.request
    }
}

} // verus!
