use vstd::prelude::*;

verus! {

/// Errors surfaced by the node's coordination core.
///
/// Transient failures of the outside world (chain RPC down, peer
/// unreachable) never appear here: the async shell around the library
/// retries those and logs them. These variants are the data-validation
/// and construction-time errors that the core's own rules produce.
#[derive(Clone, Copy, Debug, PartialEq, Eq, Structural)]
pub enum NodeError {
    /// An adapter chain was registered under a chain id already in use.
    RepeatedChainId,
    /// A committer request named a chain this node does not serve.
    InvalidChainId,
    /// The group is not usable yet: DKG incomplete or no share held.
    GroupNotReady,
    /// An account string could not be read as a 20-byte address.
    InvalidAddress,
    /// The sender is not a member of the current group.
    MemberNotExisted,
    /// This node is not a designated committer of the current group.
    NotCommitter,
    /// A partial signature failed the check against the sending
    /// member's partial public key.
    PartialSignatureVerifyFailed,
    /// No signature-result entry exists for the given task index.
    CommitterCacheNotExisted,
    /// A randomness task with this index is already cached.
    TaskAlreadyExisted,
    /// A subscriber was handed to the event queue under a topic it
    /// does not handle.
    SubscriberOnWrongTopic,
}

pub type NodeResult<T> = Result<T, NodeError>;

} // verus!
