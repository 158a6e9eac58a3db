use vstd::prelude::*;
use crate::document::Document;

verus! {

/// Declares std's monotonic instant, which the buffer's clock starts from.
#[verifier::external_type_specification]
#[verifier::external_body]
pub struct ExInstant(std::time::Instant);

/// Relies on `Instant::now`: reads the monotonic clock; nothing is promised
/// of the reading.
pub assume_specification[ std::time::Instant::now ]() -> std::time::Instant;

/// Relies on `Instant::elapsed`: the time since the instant; nothing is
/// promised of its length.
pub assume_specification[ std::time::Instant::elapsed ](i: &std::time::Instant) -> core::time::Duration;

/// Relies on `Duration::as_millis`: whole milliseconds; nothing is promised
/// of a duration that Verus cannot see into.
pub assume_specification[ core::time::Duration::as_millis ](d: &core::time::Duration) -> u128;

/// When pending documents are written.
#[derive(Clone, Copy, Debug, PartialEq, Eq)]
pub struct FlushPolicy {
    /// A flush happens once this many documents are pending; 0 and 1 mean
    /// that every document is written on its own, unbuffered.
    pub size_threshold: usize,
    /// A flush happens on the first document accepted at least this many
    /// milliseconds after the last flush.
    pub interval_ms: u64,
}

impl FlushPolicy {
    pub open spec fn buffered(self) -> bool {
        self.size_threshold > 1
    }
}

/// The write that the caller is to perform after a document was accepted.
#[derive(Debug, PartialEq, Eq)]
pub enum WriteAction {
    /// Nothing to write yet.
    Nothing,
    /// Insert this one document.
    InsertOne(Document),
    /// Insert these documents in one call. Where `ordered` is false the store
    /// keeps inserting the rest after one of them is rejected.
    InsertMany { documents: Vec<Document>, ordered: bool },
}

impl WriteAction {
    /// The documents that this action writes, in order.
    pub open spec fn written(self) -> Seq<Document> {
        match self {
            WriteAction::Nothing => Seq::empty(),
            WriteAction::InsertOne(d) => seq![d],
            WriteAction::InsertMany { documents, ordered } => documents@,
        }
    }
}

/// Time from `since` to `now`, in milliseconds; zero where the clock reads
/// earlier than `since`.
pub open spec fn elapsed(now: u64, since: u64) -> nat {
    if now >= since {
        (now - since) as nat
    } else {
        0
    }
}

/// Whether a buffered sink flushes once `len` documents are pending at
/// time `now`, its last flush having been at `last`.
pub open spec fn flush_due(policy: FlushPolicy, len: nat, last: u64, now: u64) -> bool {
    len >= policy.size_threshold || elapsed(now, last) >= policy.interval_ms
}

/// Documents waiting to be written, and the policy that says when.
///
/// The buffer is a plain owned value: callers on several threads hold it
/// behind one lock across each `accept`, and perform the returned write after
/// releasing it.
pub struct BatchBuffer {
    policy: FlushPolicy,
    pending: Vec<Document>,
    last_flush_ms: u64,
    origin: std::time::Instant,
}

/// What one accepted document does to a buffer: unbuffered, it is written at
/// once and nothing else changes; buffered, it is appended, and where a flush
/// is then due everything pending is written in one unordered call and the
/// clock of the last flush moves to `now`.
pub open spec fn accept_step(
    pre: BatchBuffer,
    doc: Document,
    now: u64,
    post: BatchBuffer,
    r: WriteAction,
) -> bool {
    &&& post.policy() == pre.policy()
    &&& !pre.policy().buffered() ==> {
        &&& r == WriteAction::InsertOne(doc)
        &&& post.pending() == pre.pending()
        &&& post.last_flush() == pre.last_flush()
    }
    &&& pre.policy().buffered() && flush_due(
        pre.policy(),
        pre.pending().len() + 1,
        pre.last_flush(),
        now,
    ) ==> {
        &&& r is InsertMany
        &&& !r->ordered
        &&& r.written() == pre.pending().push(doc)
        &&& post.pending() == Seq::<Document>::empty()
        &&& post.last_flush() == now
    }
    &&& pre.policy().buffered() && !flush_due(
        pre.policy(),
        pre.pending().len() + 1,
        pre.last_flush(),
        now,
    ) ==> {
        &&& r is Nothing
        &&& post.pending() == pre.pending().push(doc)
        &&& post.last_flush() == pre.last_flush()
    }
}

impl BatchBuffer {
    pub closed spec fn policy(self) -> FlushPolicy {
        self.policy
    }

    pub closed spec fn pending(self) -> Seq<Document> {
        self.pending@
    }

    /// Milliseconds from the buffer's creation to its last flush.
    pub closed spec fn last_flush(self) -> u64 {
        self.last_flush_ms
    }

    /// Unbuffered, nothing is ever pending; buffered, fewer documents than
    /// the threshold are pending between two calls.
    pub open spec fn wf(self) -> bool {
        &&& !self.policy().buffered() ==> self.pending().len() == 0
        &&& self.policy().buffered() ==> self.pending().len() < self.policy().size_threshold
    }

    /// An empty buffer whose clock starts now.
    pub fn new(policy: FlushPolicy) -> (r: BatchBuffer)
        ensures
            r.wf(),
            r.policy() == policy,
            r.pending() == Seq::<Document>::empty(),
            r.last_flush() == 0,
    {
        BatchBuffer { policy, pending: Vec::new(), last_flush_ms: 0, origin: std::time::Instant::now() }
    }

    pub fn policy_of(&self) -> (r: FlushPolicy)
        ensures
            r == self.policy(),
    {
        self.policy
    }

    /// How many documents wait for the next flush.
    pub fn pending_len(&self) -> (r: usize)
        ensures
            r == self.pending().len(),
    {
        self.pending.len()
    }

    /// Milliseconds since the buffer was created, by the monotonic clock.
    pub fn now_ms(&self) -> u64 {
        let millis = self.origin.elapsed().as_millis();
        if millis > u64::MAX as u128 {
            u64::MAX
        } else {
            millis as u64
        }
    }

    /// Takes one document at time `now` (milliseconds since the buffer was
    /// created) and says what to write.
    pub fn accept_at(&mut self, doc: Document, now: u64) -> (r: WriteAction)
        requires
            old(self).wf(),
        ensures
            final(self).wf(),
            accept_step(*old(self), doc, now, *final(self), r),
    {
        if self.policy.size_threshold <= 1 {
            return WriteAction::InsertOne(doc);
        }
        self.pending.push(doc);
        let since = if now >= self.last_flush_ms {
            now - self.last_flush_ms
        } else {
            0
        };
        if self.pending.len() >= self.policy.size_threshold || since >= self.policy.interval_ms {
            let mut documents = Vec::new();
            std::mem::swap(&mut documents, &mut self.pending);
            self.last_flush_ms = now;
            WriteAction::InsertMany { documents, ordered: false }
        } else {
            WriteAction::Nothing
        }
    }

    /// Takes one document at the current time and says what to write.
    pub fn accept(&mut self, doc: Document) -> (r: WriteAction)
        requires
            old(self).wf(),
        ensures
            final(self).wf(),
            exists|now: u64| accept_step(*old(self), doc, now, *final(self), r),
    {
        let now = self.now_ms();
        self.accept_at(doc, now)
    }

    /// Writes out whatever is pending, whatever the policy; for use before
    /// the buffer is dropped, so that no accepted document is lost.
    pub fn flush_at(&mut self, now: u64) -> (r: WriteAction)
        requires
            old(self).wf(),
        ensures
            final(self).wf(),
            final(self).policy() == old(self).policy(),
            final(self).pending() == Seq::<Document>::empty(),
            r.written() == old(self).pending(),
            old(self).pending().len() == 0 ==> r is Nothing && final(self).last_flush() == old(
                self,
            ).last_flush(),
            old(self).pending().len() > 0 ==> r is InsertMany && !r->ordered
                && final(self).last_flush() == now,
    {
        if self.pending.len() == 0 {
            return WriteAction::Nothing;
        }
        let mut documents = Vec::new();
        std::mem::swap(&mut documents, &mut self.pending);
        self.last_flush_ms = now;
        WriteAction::InsertMany { documents, ordered: false }
    }

    /// Writes out whatever is pending, at the current time.
    pub fn flush(&mut self) -> (r: WriteAction)
        requires
            old(self).wf(),
        ensures
            final(self).wf(),
            final(self).policy() == old(self).policy(),
            final(self).pending() == Seq::<Document>::empty(),
            r.written() == old(self).pending(),
            r is InsertMany ==> !r->ordered,
    {
        let now = self.now_ms();
        self.flush_at(now)
    }
}

} // verus!
