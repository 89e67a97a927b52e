//! How the bot reads the indexers' state before renewing, and how it
//! reacts to a failed renewal run.

use vstd::prelude::*;
use crate::text::contains_text;

verus! {

/// What probing one indexer port gave.
pub enum ProbeOutcome {
    /// The connection could not be made: the port is skipped.
    ConnectFailed,
    /// The status request failed.
    StatusFailed,
    /// The indexer's current and head blocks, when it knows them.
    Status { current_block: Option<u64>, head_block: Option<u64> },
}

/// The verdict on one port.
#[derive(PartialEq, Eq, Structural, Clone, Copy, Debug)]
pub enum ProbeVerdict {
    /// This port does not hold the renewals back: probe the next one.
    NextPort,
    /// The indexers are not ready: stop probing and wait.
    NotReady,
}

pub open spec fn probe_verdict_spec(o: ProbeOutcome) -> ProbeVerdict {
    match o {
        ProbeOutcome::ConnectFailed => ProbeVerdict::NextPort,
        ProbeOutcome::StatusFailed => ProbeVerdict::NotReady,
        ProbeOutcome::Status { current_block, head_block } => match (current_block, head_block) {
            (Some(c), Some(h)) => if c < h {
                ProbeVerdict::NotReady
            } else {
                ProbeVerdict::NextPort
            },
            _ => ProbeVerdict::NextPort,
        },
    }
}

/// A port holds the renewals back when its status cannot be read or its
/// current block is behind its head block; an unreachable port is skipped.
pub fn probe_verdict(o: &ProbeOutcome) -> (r: ProbeVerdict)
    ensures
        r == probe_verdict_spec(*o),
{
    match o {
        ProbeOutcome::ConnectFailed => ProbeVerdict::NextPort,
        ProbeOutcome::StatusFailed => ProbeVerdict::NotReady,
        ProbeOutcome::Status { current_block, head_block } => match (current_block, head_block) {
            (Some(c), Some(h)) => if *c < *h {
                ProbeVerdict::NotReady
            } else {
                ProbeVerdict::NextPort
            },
            _ => ProbeVerdict::NextPort,
        },
    }
}

/// The indexers are ready when no probed port holds the renewals back.
pub fn indexers_ready(outcomes: &Vec<ProbeOutcome>) -> (r: bool)
    ensures
        r == forall|i: int| 0 <= i < outcomes@.len() ==> probe_verdict_spec(#[trigger] outcomes@[i])
            == ProbeVerdict::NextPort,
{
    let mut i: usize = 0;
    while i < outcomes.len()
        invariant
            i <= outcomes@.len(),
            forall|j: int| 0 <= j < i ==> probe_verdict_spec(#[trigger] outcomes@[j]) == ProbeVerdict::NextPort,
        decreases outcomes.len() - i,
    {
        if probe_verdict(&outcomes[i]) == ProbeVerdict::NotReady {
            return false;
        }
        i = i + 1;
    }
    true
}

/// A Starknet block status.
#[derive(PartialEq, Eq, Structural, Clone, Copy, Debug)]
pub enum BlockStatus {
    Pending,
    AcceptedOnL2,
    AcceptedOnL1,
    Rejected,
}

/// `check_block_status`: the indexer has caught up when the block is
/// accepted on L2 or pending; a block that cannot be read counts as not
/// caught up.
pub fn block_caught_up(status: Option<BlockStatus>) -> (r: bool)
    ensures
        r == (status == Some(BlockStatus::AcceptedOnL2) || status == Some(BlockStatus::Pending)),
{
    match status {
        Some(BlockStatus::AcceptedOnL2) => true,
        Some(BlockStatus::Pending) => true,
        _ => false,
    }
}

pub open spec fn rate_limited_text() -> Seq<char> {
    seq!['r', 'e', 'q', 'u', 'e', 's', 't', ' ', 'r', 'a', 't', 'e', ' ', 'l', 'i', 'm', 'i', 't',
        'e', 'd']
}

/// After a failed renewal run the bot tries again later when the node
/// rate-limited it, and stops otherwise.
pub fn retry_after_failure(message: &str) -> (r: bool)
    ensures
        r == contains_text(message@, rate_limited_text()),
{
    let text = crate::text::chars_of(message);
    let pattern_str = "request rate limited";
    proof {
        reveal_strlit("request rate limited");
    }
    let pattern = crate::text::chars_of(pattern_str);
    assert(pattern@ =~= rate_limited_text());
    crate::text::contains(&text, &pattern)
}

/// `serde_json::from_str::<Value>` accepts the text: it is one JSON value.
pub uninterp spec fn status_is_json(raw: Seq<char>) -> bool;

/// `value["last_block"].as_u64()` on the JSON value of the text.
pub uninterp spec fn status_last_block(raw: Seq<char>) -> Option<u64>;

/// `serde_json::from_str::<Value>` on the indexer's readiness reply, then
/// `["last_block"].as_u64()` (indexing a missing key or a non-object gives
/// `Null`, which is no `u64`). `None` when the text is not JSON. Which texts
/// are JSON and what the field holds are named, not stated.
#[verifier::external_body]
fn last_block_of_status(raw: &str) -> (r: Option<Option<u64>>)
    ensures
        r is Some <==> status_is_json(raw@),
        r matches Some(x) ==> x == status_last_block(raw@),
{
    match serde_json::from_str::<serde_json::Value>(raw) {
        Ok(value) => Some(value["last_block"].as_u64()),
        Err(_) => None,
    }
}

/// Why the readiness reply gave no block number.
#[derive(PartialEq, Eq, Structural, Clone, Copy, Debug)]
pub enum StatusReplyError {
    /// The reply is not JSON.
    NotJson,
    /// The reply has no `last_block` that fits in a `u64`.
    NoLastBlock,
}

/// `get_status_from_endpoint`: the indexer's last block, read from the raw
/// text of its readiness reply.
pub fn indexer_last_block(raw: &str) -> (r: Result<u64, StatusReplyError>)
    ensures
        !status_is_json(raw@) ==> r == Err::<u64, StatusReplyError>(StatusReplyError::NotJson),
        status_is_json(raw@) && status_last_block(raw@) is None ==> r == Err::<u64, StatusReplyError>(
            StatusReplyError::NoLastBlock,
        ),
        status_is_json(raw@) && status_last_block(raw@) is Some ==> r == Ok::<u64, StatusReplyError>(
            status_last_block(raw@)->0,
        ),
{
    match last_block_of_status(raw) {
        None => Err(StatusReplyError::NotJson),
        Some(None) => Err(StatusReplyError::NoLastBlock),
        Some(Some(n)) => Ok(n),
    }
}

} // verus!
