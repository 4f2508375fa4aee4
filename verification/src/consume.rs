//! Consumption handlers: the bounded batch pull and the per-record step of
//! the unbounded stream.
//!
//! Both modes share one algorithm: position a cursor at an absolute offset,
//! then map each record the backend yields into a reply message, decoding the
//! payload best-effort. Cursor setup and the pulls themselves are backend
//! I/O and happen with the caller; the records arrive here as plain offset
//! and payload pairs.

use vstd::prelude::*;
use crate::codec::{decode_lossy, lossy_utf8};

verus! {

/// One record pulled from a partition cursor: its absolute offset in the
/// partition and its raw payload.
pub struct LogRecord {
    pub offset: i64,
    pub payload: Vec<u8>,
}

/// One delivered message. Key, headers, timestamp and message id are not
/// surfaced by the backend read path and stay at their zero values.
#[derive(Debug)]
pub struct ConsumedMessage {
    pub message: String,
    pub offset: i64,
    pub key: String,
    pub headers: Vec<(String, String)>,
    pub timestamp: i64,
    pub message_id: String,
    pub partition: i32,
}

/// Reply to a bounded consume call.
pub struct ConsumeReply {
    pub messages: Vec<ConsumedMessage>,
    pub error: String,
    pub next_offset: i64,
}

/// The reply message that a record at `offset` with `payload`, read from
/// `partition`, maps to.
pub open spec fn consumed_from(
    m: ConsumedMessage,
    offset: i64,
    payload: Seq<u8>,
    partition: i32,
) -> bool {
    &&& m.message@ == lossy_utf8(payload)
    &&& m.offset == offset
    &&& m.key@ == Seq::<char>::empty()
    &&& m.headers@ == Seq::<(String, String)>::empty()
    &&& m.timestamp == 0
    &&& m.message_id@ == Seq::<char>::empty()
    &&& m.partition == partition
}

/// State of one bounded consume call: the messages delivered so far and the
/// offset the next read would start from. The caller pulls records while
/// `wants_more` holds and feeds each to `accept`; exhaustion of the cursor or
/// the message cap ends the session, whichever comes first.
pub struct ConsumeSession {
    pub partition: i32,
    pub start_offset: i64,
    pub max_messages: i32,
    pub messages: Vec<ConsumedMessage>,
    pub next_offset: i64,
}

impl ConsumeSession {
    /// The cap on delivered messages: `max_messages`, at least zero.
    pub open spec fn cap(self) -> int {
        if self.max_messages <= 0 {
            0
        } else {
            self.max_messages as int
        }
    }

    /// Well-formedness, established by `new` and preserved by `accept`: the
    /// cap is respected, and `next_offset` is the requested offset until a
    /// record is delivered, then always one past the last delivered record.
    pub open spec fn wf(self) -> bool {
        &&& self.messages@.len() <= self.cap()
        &&& if self.messages@.len() == 0 {
            self.next_offset == self.start_offset
        } else {
            &&& self.messages@.last().offset < i64::MAX
            &&& self.next_offset == self.messages@.last().offset + 1
        }
    }

    /// Opens a session positioned at the absolute `offset`: nothing delivered
    /// yet, `next_offset` still the requested offset.
    pub fn new(partition: i32, offset: i64, max_messages: i32) -> (s: Self)
        ensures
            s.partition == partition,
            s.start_offset == offset,
            s.max_messages == max_messages,
            s.messages@ == Seq::<ConsumedMessage>::empty(),
            s.next_offset == offset,
            s.wf(),
    {
        ConsumeSession {
            partition,
            start_offset: offset,
            max_messages,
            messages: Vec::new(),
            next_offset: offset,
        }
    }

    /// Whether the session still wants records: the cap is not yet reached.
    /// With `max_messages <= 0` this never holds, so zero records are
    /// collected.
    pub fn wants_more(&self) -> (b: bool)
        requires
            self.wf(),
        ensures
            b <==> self.messages@.len() < self.cap(),
    {
        if self.max_messages <= 0 {
            false
        } else {
            self.messages.len() < self.max_messages as usize
        }
    }

    /// Delivers one record: decodes its payload best-effort, appends the
    /// mapped message, and advances `next_offset` to one past the record's
    /// offset.
    pub fn accept(&mut self, record: &LogRecord)
        requires
            old(self).wf(),
            old(self).messages@.len() < old(self).cap(),
            record.offset < i64::MAX,
        ensures
            final(self).wf(),
            final(self).partition == old(self).partition,
            final(self).start_offset == old(self).start_offset,
            final(self).max_messages == old(self).max_messages,
            final(self).messages@.len() == old(self).messages@.len() + 1,
            final(self).messages@ == old(self).messages@.push(final(self).messages@.last()),
            consumed_from(
                final(self).messages@.last(),
                record.offset,
                record.payload@,
                old(self).partition,
            ),
            final(self).next_offset == record.offset + 1,
    {
        let message = decode_lossy(record.payload.as_slice());
        let m = ConsumedMessage {
            message,
            offset: record.offset,
            key: String::new(),
            headers: Vec::new(),
            timestamp: 0,
            message_id: String::new(),
            partition: self.partition,
        };
        self.messages.push(m);
        self.next_offset = record.offset + 1;
    }

    /// Closes the session into the reply: the delivered messages, an empty
    /// error, and the offset a follow-up call should start from.
    pub fn into_reply(self) -> (r: ConsumeReply)
        ensures
            r.messages@ == self.messages@,
            r.error@ == Seq::<char>::empty(),
            r.next_offset == self.next_offset,
    {
        ConsumeReply { messages: self.messages, error: String::new(), next_offset: self.next_offset }
    }
}

/// Whether `offset` resolves as an absolute partition offset. Offsets are
/// non-negative; a call with a negative offset must fail with an internal
/// error before any record is read, never silently default.
pub fn offset_is_valid(offset: i64) -> (b: bool)
    ensures
        b <==> offset >= 0,
{
    offset >= 0
}

/// The number of records a bounded consume call delivers: all that are
/// available, capped at `max_messages` (treated as zero when negative).
pub open spec fn delivered_count(available: int, max_messages: i32) -> int {
    let cap: int = if max_messages <= 0 {
        0
    } else {
        max_messages as int
    };
    if available <= cap {
        available
    } else {
        cap
    }
}

/// Builds the reply to a bounded consume call from the records available at
/// call time, in pull order. Delivery stops when either the records are
/// exhausted or `max_messages` have been delivered, whichever comes first;
/// with `max_messages <= 0` nothing is delivered and `next_offset` stays at
/// the requested `offset`; otherwise `next_offset` is one past the offset of
/// the last delivered record.
pub fn consume(records: Vec<LogRecord>, partition: i32, offset: i64, max_messages: i32) -> (r:
    ConsumeReply)
    requires
        forall|i: int| 0 <= i < records@.len() ==> records@[i].offset < i64::MAX,
    ensures
        r.messages@.len() == delivered_count(records@.len() as int, max_messages),
        forall|i: int|
            0 <= i < r.messages@.len() ==> consumed_from(
                r.messages@[i],
                records@[i].offset,
                records@[i].payload@,
                partition,
            ),
        r.next_offset == if r.messages@.len() == 0 {
            offset as int
        } else {
            records@[r.messages@.len() - 1].offset + 1
        },
        r.error@ == Seq::<char>::empty(),
{
    let mut session = ConsumeSession::new(partition, offset, max_messages);
    let n = records.len();
    let mut i: usize = 0;
    while i < n
        invariant
            n == records@.len(),
            i <= n,
            forall|j: int| 0 <= j < records@.len() ==> records@[j].offset < i64::MAX,
            session.wf(),
            session.partition == partition,
            session.start_offset == offset,
            session.max_messages == max_messages,
            session.messages@.len() == delivered_count(i as int, max_messages),
            forall|j: int|
                0 <= j < session.messages@.len() ==> consumed_from(
                    session.messages@[j],
                    records@[j].offset,
                    records@[j].payload@,
                    partition,
                ),
        decreases n - i,
    {
        if session.wants_more() {
            session.accept(&records[i]);
        }
        i = i + 1;
    }
    session.into_reply()
}

/// Maps one element of an unbounded consume stream: a record becomes the
/// reply message it decodes to, a backend read error is forwarded as the
/// stream error for that element, its text unchanged.
pub fn stream_consume(item: Result<LogRecord, String>, partition: i32) -> (r: Result<
    ConsumedMessage,
    String,
>)
    ensures
        r is Ok <==> item is Ok,
        item matches Ok(rec) ==> (r matches Ok(m) && consumed_from(
            m,
            rec.offset,
            rec.payload@,
            partition,
        )),
        item matches Err(e) ==> (r matches Err(f) && f == e),
{
    match item {
        Ok(record) => {
            let message = decode_lossy(record.payload.as_slice());
            Ok(
                ConsumedMessage {
                    message,
                    offset: record.offset,
                    key: String::new(),
                    headers: Vec::new(),
                    timestamp: 0,
                    message_id: String::new(),
                    partition,
                },
            )
        },
        Err(e) => Err(e),
    }
}

} // verus!
