//! Topic administration handlers: create, delete, list and describe topics.
//!
//! The admin connection and the admin calls themselves are backend I/O and
//! happen with the caller; their outcomes arrive here as plain values. A
//! rejected admin action (existing topic, invalid partition count, lost
//! connectivity) is a payload-level error: the call still succeeds at the
//! RPC level, with `success == false` and the backend's error text.

use vstd::prelude::*;

verus! {

/// Reply to a create-topic call.
pub struct CreateTopicReply {
    pub success: bool,
    pub error: String,
}

/// Reply to a delete-topic call.
pub struct DeleteTopicReply {
    pub success: bool,
    pub error: String,
}

/// Reply to a list-topics call.
pub struct ListTopicsReply {
    pub topics: Vec<String>,
}

/// Reply to a describe-topic call. Beyond the echoed name only the error
/// field is populated: retention, per-topic configuration and partition
/// details are not surfaced in this version and stay at their zero values.
pub struct DescribeTopicReply {
    pub topic: String,
    pub retention_ms: i64,
    pub config: Vec<(String, String)>,
    pub error: String,
    pub partitions: Vec<u32>,
}

/// Builds the reply to a create-topic call from the admin outcome: success
/// exactly when the backend accepted the computed-partition topic
/// specification, else the backend's error text.
pub fn create_topic(outcome: Result<(), String>) -> (r: CreateTopicReply)
    ensures
        r.success <==> outcome is Ok,
        outcome is Ok ==> r.error@ == Seq::<char>::empty(),
        outcome matches Err(e) ==> r.error == e,
{
    match outcome {
        Ok(()) => CreateTopicReply { success: true, error: String::new() },
        Err(e) => CreateTopicReply { success: false, error: e },
    }
}

/// Builds the reply to a delete-topic call from the admin outcome; deleting
/// a topic that does not exist is reported here as a payload error, never as
/// a call failure.
pub fn delete_topic(outcome: Result<(), String>) -> (r: DeleteTopicReply)
    ensures
        r.success <==> outcome is Ok,
        outcome is Ok ==> r.error@ == Seq::<char>::empty(),
        outcome matches Err(e) ==> r.error == e,
{
    match outcome {
        Ok(()) => DeleteTopicReply { success: true, error: String::new() },
        Err(e) => DeleteTopicReply { success: false, error: e },
    }
}

/// Builds the reply to a list-topics call: the topic names exactly as the
/// backend returned them, order kept, not independently sorted.
pub fn list_topics(names: Vec<String>) -> (r: ListTopicsReply)
    ensures
        r.topics == names,
{
    ListTopicsReply { topics: names }
}

/// Builds the reply to a describe-topic call from the admin lookup of the
/// named topic. The name is echoed back either way; an absent topic yields
/// the error text "not found" and every other field at its zero value, a
/// present one an empty error and — in this version — no further detail.
pub fn describe_topic(topic: String, lookup: Option<String>) -> (r: DescribeTopicReply)
    ensures
        r.topic == topic,
        r.retention_ms == 0,
        r.config@ == Seq::<(String, String)>::empty(),
        r.partitions@ == Seq::<u32>::empty(),
        lookup is Some ==> r.error@ == Seq::<char>::empty(),
        lookup is None ==> r.error@ == "not found"@,
{
    let error = if lookup.is_some() {
        String::new()
    } else {
        "not found".to_string()
    };
    DescribeTopicReply {
        topic,
        retention_ms: 0,
        config: Vec::new(),
        error,
        partitions: Vec::new(),
    }
}

} // verus!
