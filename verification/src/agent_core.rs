//! Responses of the agent's execution endpoint.
use vstd::prelude::*;

verus! {

/// The answer to an execution request.
pub struct ExecuteResponse {
    pub node_id: String,
    pub executed: bool,
    pub message: String,
}

} // verus!
