//! Production handlers: translate backend send outcomes into produce replies.
//!
//! Obtaining a connection and a producer, and the sends themselves, are
//! backend I/O and happen with the caller; a connection or producer that
//! cannot be obtained fails the call at the RPC level before any reply is
//! built. Each send's outcome arrives here as a plain `Result`, its `Err`
//! carrying the backend's error text.

use vstd::prelude::*;

verus! {

/// One message of a batch produce request: payload text and a caller-chosen
/// correlation id.
pub struct BatchMessage {
    pub message: String,
    pub message_id: String,
}

/// Reply to a single produce call.
pub struct ProduceReply {
    pub success: bool,
    pub error: String,
    pub message_id: String,
}

/// Reply to a batch produce call: one outcome per input message, in input
/// order.
pub struct BatchProduceReply {
    pub success: Vec<bool>,
    pub error: Vec<String>,
}

/// Builds the reply to a single produce call from the send's outcome. A send
/// failure is a payload-level error: the call itself still succeeds, with
/// `success == false` and the backend's error text. The message id is echoed
/// unchanged, neither generated nor validated.
pub fn produce(send_outcome: Result<(), String>, message_id: String) -> (r: ProduceReply)
    ensures
        r.message_id == message_id,
        r.success <==> send_outcome is Ok,
        send_outcome is Ok ==> r.error@ == Seq::<char>::empty(),
        send_outcome matches Err(e) ==> r.error == e,
{
    match send_outcome {
        Ok(()) => ProduceReply { success: true, error: String::new(), message_id },
        Err(e) => ProduceReply { success: false, error: e, message_id },
    }
}

/// Builds the reply to a batch produce call from the per-message send
/// outcomes, one per input message, in input order. The two output arrays are
/// appended in step, so they are positionally aligned 1:1 with the input
/// sequence: same length, same order. One message's failure never affects a
/// sibling's outcome.
pub fn batch_produce(outcomes: Vec<Result<(), String>>) -> (r: BatchProduceReply)
    ensures
        r.success@.len() == outcomes@.len(),
        r.error@.len() == outcomes@.len(),
        forall|i: int|
            0 <= i < outcomes@.len() ==> (r.success@[i] <==> outcomes@[i] is Ok),
        forall|i: int|
            0 <= i < outcomes@.len() && outcomes@[i] is Ok ==> r.error@[i]@ == Seq::<
                char,
            >::empty(),
        forall|i: int|
            0 <= i < outcomes@.len() ==> ((#[trigger] outcomes@[i]) matches Err(e) ==> r.error@[i] == e),
{
    let mut success: Vec<bool> = Vec::new();
    let mut error: Vec<String> = Vec::new();
    let n = outcomes.len();
    let mut k: usize = 0;
    while k < n
        invariant
            n == outcomes@.len(),
            k <= n,
            success@.len() == k,
            error@.len() == k,
            forall|i: int| 0 <= i < k ==> (success@[i] <==> outcomes@[i] is Ok),
            forall|i: int|
                0 <= i < k && outcomes@[i] is Ok ==> error@[i]@ == Seq::<char>::empty(),
            forall|i: int| 0 <= i < k ==> ((#[trigger] outcomes@[i]) matches Err(e) ==> error@[i] == e),
        decreases n - k,
    {
        match &outcomes[k] {
            Ok(()) => {
                success.push(true);
                error.push(String::new());
            },
            Err(e) => {
                success.push(false);
                error.push(e.clone());
            },
        }
        k = k + 1;
    }
    BatchProduceReply { success, error }
}

} // verus!
