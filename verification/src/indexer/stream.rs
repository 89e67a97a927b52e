//! `process_data_stream` as a state machine over the stream's messages, the
//! rollback performed on an invalidation, and the block range written on
//! each document.

use vstd::prelude::*;
use crate::indexer::events::Finality;
use crate::text::{decimal_text, u64_to_decimal, starts_with};

verus! {

/// A position in the stream.
pub struct StreamCursor {
    pub order_key: u64,
    pub unique_key: Vec<u8>,
}

pub open spec fn same_cursor(a: StreamCursor, b: StreamCursor) -> bool {
    a.order_key == b.order_key && a.unique_key@ == b.unique_key@
}

impl StreamCursor {
    pub fn copy(&self) -> (r: StreamCursor)
        ensures
            same_cursor(r, *self),
    {
        StreamCursor { order_key: self.order_key, unique_key: self.unique_key.clone() }
    }
}

/// Why processing the stream stopped: the connection broke, and the stream
/// can be resumed from the cursor.
pub enum ProcessingError {
    CursorError(Option<StreamCursor>),
}

/// What the stream loop remembers between messages.
pub struct StreamState {
    /// The end cursor of the last batch whose blocks were all processed;
    /// handed back when the stream breaks.
    pub cursor: Option<StreamCursor>,
    /// A pending batch was received and its data is not yet confirmed.
    pub pending_received: bool,
}

/// What to do with a data message.
pub struct DataPlan {
    /// Text published for the readiness endpoint: the end cursor's order key.
    pub published_order_key: String,
    /// The order key written on the documents of this batch.
    pub order_key: u64,
    /// Roll the database back to the batch's cursor before processing it.
    pub invalidate_first: bool,
}

/// Whether a data message rolls the database back first: on a live chain,
/// every pending batch does, and so does the first accepted batch after a
/// pending one.
pub open spec fn invalidates(devnet: bool, finality: Finality, pending_received: bool) -> bool {
    !devnet && (finality == Finality::Pending || (finality == Finality::Accepted && pending_received))
}

/// The pending flag after a data message.
pub open spec fn next_pending(devnet: bool, finality: Finality, pending_received: bool) -> bool {
    if devnet {
        pending_received
    } else if finality == Finality::Pending {
        true
    } else if finality == Finality::Accepted {
        false
    } else {
        pending_received
    }
}

/// On a live chain, the first accepted batch after a pending one rolls the
/// pending data back, and a second accepted batch in a row does not.
pub proof fn lemma_pending_then_accepted(pending_received: bool)
    ensures
        invalidates(false, Finality::Pending, pending_received),
        invalidates(false, Finality::Accepted, next_pending(false, Finality::Pending, pending_received)),
        !invalidates(false, Finality::Accepted, next_pending(false, Finality::Accepted, pending_received)),
{
}

/// On devnet nothing is ever rolled back before a batch.
pub proof fn lemma_devnet_never_invalidates(finality: Finality, pending_received: bool)
    ensures
        !invalidates(true, finality, pending_received),
        next_pending(true, finality, pending_received) == pending_received,
{
}

impl StreamState {
    pub fn new() -> (r: StreamState)
        ensures
            r.cursor is None,
            !r.pending_received,
    {
        StreamState { cursor: None, pending_received: false }
    }

    /// A data message arrived, with its (present) cursor and its end cursor.
    pub fn on_data(&mut self, devnet: bool, cursor: &StreamCursor, end_cursor: &StreamCursor, finality: Finality) -> (r: DataPlan)
        ensures
            r.published_order_key@ == decimal_text(end_cursor.order_key as nat),
            r.order_key == cursor.order_key,
            r.invalidate_first == invalidates(devnet, finality, old(self).pending_received),
            final(self).pending_received == next_pending(devnet, finality, old(self).pending_received),
            final(self).cursor == old(self).cursor,
    {
        let published_order_key = u64_to_decimal(end_cursor.order_key);
        let mut invalidate_first = false;
        if !devnet {
            if finality == Finality::Pending {
                invalidate_first = true;
                self.pending_received = true;
            }
            if finality == Finality::Accepted && self.pending_received {
                invalidate_first = true;
                self.pending_received = false;
            }
        }
        DataPlan { published_order_key, order_key: cursor.order_key, invalidate_first }
    }

    /// A block of the batch was processed: the end cursor is remembered.
    pub fn block_done(&mut self, end_cursor: &StreamCursor)
        ensures
            final(self).cursor matches Some(c) && same_cursor(c, *end_cursor),
            final(self).pending_received == old(self).pending_received,
    {
        self.cursor = Some(end_cursor.copy());
    }

    /// A block of the batch was processed with the given outcome. On
    /// success the end cursor is remembered; a failure is handed back as it
    /// is, ends the stream loop, and leaves the state as it was.
    pub fn block_result<E>(&mut self, end_cursor: &StreamCursor, outcome: Result<(), E>) -> (r: Result<(), E>)
        ensures
            r == outcome,
            outcome is Ok ==> (final(self).cursor matches Some(c) && same_cursor(c, *end_cursor)),
            outcome is Ok ==> final(self).pending_received == old(self).pending_received,
            outcome is Err ==> *final(self) == *old(self),
    {
        match outcome {
            Ok(u) => {
                self.block_done(end_cursor);
                Ok(u)
            },
            Err(e) => Err(e),
        }
    }

    /// The stream broke: the error carries the remembered cursor.
    pub fn on_stream_error(&self) -> (r: ProcessingError)
        ensures
            r matches ProcessingError::CursorError(c) && (c is Some <==> self.cursor is Some) && (c matches Some(x) ==> same_cursor(x, self.cursor->0)),
    {
        match &self.cursor {
            Some(c) => ProcessingError::CursorError(Some(c.copy())),
            None => ProcessingError::CursorError(None),
        }
    }
}

/// The order key as written in documents (`order_key as i64`).
pub fn chain_key(order_key: u64) -> (r: i64)
    ensures
        r == order_key as i64,
{
    order_key as i64
}

/// An invalidation: documents inserted after the cursor are deleted and
/// documents closed after it are reopened, in every collection whose name
/// does not start with '_'.
pub struct InvalidationPlan {
    pub cursor_key: i64,
    pub collections: Vec<String>,
}

pub open spec fn kept_collection(name: Seq<char>) -> bool {
    !starts_with(name, seq!['_'])
}

/// The collections touched by an invalidation, in listing order.
pub open spec fn kept_collections(names: Seq<String>) -> Seq<Seq<char>>
    decreases names.len(),
{
    if names.len() == 0 {
        Seq::empty()
    } else {
        let prev = kept_collections(names.drop_last());
        if kept_collection(names.last()@) {
            prev.push(names.last()@)
        } else {
            prev
        }
    }
}

pub fn invalidation_plan(cursor: &StreamCursor, names: &Vec<String>) -> (r: InvalidationPlan)
    ensures
        r.cursor_key == cursor.order_key as i64,
        r.collections@.map_values(|s: String| s@) == kept_collections(names@),
{
    let mut kept: Vec<String> = Vec::new();
    let mut i: usize = 0;
    while i < names.len()
        invariant
            i <= names@.len(),
            kept@.map_values(|s: String| s@) == kept_collections(names@.subrange(0, i as int)),
        decreases names.len() - i,
    {
        proof {
            let s = names@.subrange(0, i + 1);
            assert(s.drop_last() =~= names@.subrange(0, i as int));
            assert(s.last() == names@[i as int]);
        }
        let chars = crate::text::chars_of(names[i].as_str());
        let underscore: Vec<char> = vec!['_'];
        assert(underscore@ =~= seq!['_']);
        let ghost before = kept@;
        if !crate::text::has_prefix(&chars, &underscore) {
            kept.push(names[i].clone());
            assert(kept@.map_values(|s: String| s@) =~= before.map_values(|s: String| s@).push(names@[i as int]@));
        }
        i = i + 1;
    }
    assert(names@.subrange(0, names@.len() as int) =~= names@);
    InvalidationPlan { cursor_key: chain_key(cursor.order_key), collections: kept }
}

pub open spec fn not_ready_text() -> Seq<char> {
    seq!['S', 'e', 'r', 'v', 'i', 'c', 'e', ' ', 'i', 's', ' ', 'r', 'u', 'n', 'n', 'i', 'n', 'g', ',', ' ', 'b',
        'u', 't', ' ', 'n', 'o', ' ', 's', 't', 'a', 't', 'e', ' ', 'a', 'v', 'a', 'i', 'l', 'a',
        'b', 'l', 'e', ' ', 'y', 'e', 't']
}

/// `is_ready`: the published order key, or a notice that none is published yet.
pub fn readiness_reply(state: &Option<String>) -> (r: String)
    ensures
        state matches Some(s) ==> r@ == s@,
        state is None ==> r@ == not_ready_text(),
{
    match state {
        Some(s) => s.clone(),
        None => {
            let text = "Service is running, but no state available yet";
            proof {
                reveal_strlit("Service is running, but no state available yet");
            }
            let r = crate::text::string_of(text);
            assert(r@ =~= not_ready_text());
            r
        },
    }
}

} // verus!
