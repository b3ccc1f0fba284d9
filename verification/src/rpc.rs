//! The RPC services of the server. Their methods are bound to the transport
//! outside this library; the services carry no state of their own.

use vstd::prelude::*;

verus! {

/// The `agent` namespace: reports from agents and queries of their data.
pub struct AgentRpcImpl;

/// The `metadata` namespace: names and tags of agents.
pub struct MetadataRpcImpl;

/// The `token` namespace: reading and creating tokens.
pub struct TokenRpcImpl;

} // verus!
