//! The worker protocol: the per-request state that waits for a response,
//! classifies errors, and applies the retry policy. An attempt counter
//! strictly decreases on every retry and the worker stops retrying at
//! zero.

use vstd::prelude::*;

verus! {

/// The CQL server error code for an unprepared statement id.
pub const CODE_UNPREPARED: u32 = 0x2500;

/// What a worker does with a failed request.
#[derive(Copy, Clone, Debug, PartialEq, Eq, Structural)]
pub enum RetryAction {
    /// Send a PREPARE on the same connection, then re-send the request.
    Reprepare,
    /// Re-route the request through the router once more.
    Retry,
    /// Hand the error to the caller; not retried.
    Surface,
}

/// Whether a CQL error code may be retried under the policy. `idempotent`
/// guards the write-timeout class, which is only safe to repeat for
/// idempotent requests.
pub open spec fn spec_retryable(code: u32, idempotent: bool) -> bool {
    ||| code == 0x1000  // unavailable
    ||| code == 0x1001  // overloaded
    ||| code == 0x1002  // bootstrapping
    ||| code == 0x1200  // read timeout
    ||| (code == 0x1100 && idempotent)  // write timeout
    ||| code == 0x0000  // server error
}

/// The action the retry policy takes for a CQL error code, given whether
/// the request is idempotent and whether retries remain. An unprepared id
/// is recovered by repreparing; the transient classes are retried while
/// attempts remain; everything else surfaces at once.
pub open spec fn spec_classify(code: u32, idempotent: bool, retries: nat) -> RetryAction {
    if code == CODE_UNPREPARED {
        RetryAction::Reprepare
    } else if spec_retryable(code, idempotent) && retries > 0 {
        RetryAction::Retry
    } else {
        RetryAction::Surface
    }
}

/// Classify a CQL error code under the retry policy.
pub fn classify_error(code: u32, idempotent: bool, retries: usize) -> (r: RetryAction)
    ensures
        r == spec_classify(code, idempotent, retries as nat),
{
    if code == CODE_UNPREPARED {
        RetryAction::Reprepare
    } else if (code == 0x1000 || code == 0x1001 || code == 0x1002 || code == 0x1200 || (code
        == 0x1100 && idempotent) || code == 0x0000) && retries > 0 {
        RetryAction::Retry
    } else {
        RetryAction::Surface
    }
}

/// The basic retrying worker: a request and the number of retries it has
/// left.
#[derive(Debug, Clone)]
pub struct BasicRetryWorker<R> {
    pub request: R,
    pub retries: usize,
}

impl<R> BasicRetryWorker<R> {
    /// A worker for `request` with no retries.
    pub fn new(request: R) -> (r: Box<Self>)
        ensures
            r.request == request,
            r.retries == 0,
    {
        Box::new(BasicRetryWorker { request, retries: 0 })
    }

    /// Give this worker a number of retries.
    pub fn with_retries(self, retries: usize) -> (r: Self)
        ensures
            r.retries == retries,
            r.request == self.request,
    {
        BasicRetryWorker { retries, ..self }
    }

    /// The retries this worker has left.
    pub fn retries(&self) -> (r: usize)
        ensures
            r == self.retries,
    {
        self.retries
    }

    /// The request this worker re-sends.
    pub fn request(&self) -> (r: &R)
        ensures
            r == &self.request,
    {
        &self.request
    }

    /// Consume one retry. Returns whether a retry may go ahead: the
    /// attempt count strictly decreases on every retry, and once it is
    /// zero the worker stops retrying and the state no longer changes.
    pub fn retry(&mut self) -> (r: bool)
        ensures
            r == (old(self).retries > 0),
            old(self).retries > 0 ==> final(self).retries == old(self).retries - 1,
            old(self).retries == 0 ==> final(self).retries == 0,
            final(self).request == old(self).request,
    {
        if self.retries > 0 {
            self.retries = self.retries - 1;
            true
        } else {
            false
        }
    }

    /// Apply the retry policy to a CQL error `code`: decide the action,
    /// and consume one retry exactly when the decision is to retry.
    pub fn handle_error(&mut self, code: u32, idempotent: bool) -> (r: RetryAction)
        ensures
            r == spec_classify(code, idempotent, old(self).retries as nat),
            r is Retry ==> final(self).retries == old(self).retries - 1,
            !(r is Retry) ==> final(self).retries == old(self).retries,
            final(self).request == old(self).request,
    {
        let action = classify_error(code, idempotent, self.retries);
        if let RetryAction::Retry = action {
            self.retries = self.retries - 1;
        }
        action
    }
}

/// A worker that prepares a statement, holding the expected MD5 id so the
/// server's answer can be checked against it.
#[derive(Debug, Clone)]
pub struct PrepareWorker {
    pub id: [u8; 16],
    pub retries: usize,
    pub statement: String,
}

impl PrepareWorker {
    /// A prepare worker for a statement with its expected id.
    pub fn new(id: [u8; 16], statement: String) -> (r: Box<Self>)
        ensures
            r.id@ == id@,
            r.statement@ == statement@,
            r.retries == 0,
    {
        Box::new(PrepareWorker { id, retries: 0, statement })
    }

    /// Consume one retry, as `BasicRetryWorker::retry` does.
    pub fn retry(&mut self) -> (r: bool)
        ensures
            r == (old(self).retries > 0),
            old(self).retries > 0 ==> final(self).retries == old(self).retries - 1,
            old(self).retries == 0 ==> final(self).retries == 0,
            final(self).id@ == old(self).id@,
            final(self).statement@ == old(self).statement@,
    {
        if self.retries > 0 {
            self.retries = self.retries - 1;
            true
        } else {
            false
        }
    }
}

/// A prepare worker that hands the outcome back to a caller; the pending
/// flag records that the answer has not yet arrived.
#[derive(Debug, Clone)]
pub struct RespondingPrepareWorker {
    pub id: [u8; 16],
    pub retries: usize,
    pub statement: String,
    pub pending: bool,
}

/// A worker for a select request, keeping the paging parameters that a
/// retry must repeat.
#[derive(Debug, Clone)]
pub struct SelectWorker<R> {
    pub request: R,
    pub page_size: Option<i32>,
    pub paging_state: Option<Vec<u8>>,
    pub retries: usize,
}

impl<R> SelectWorker<R> {
    /// A select worker with no paging and no retries.
    pub fn new(request: R) -> (r: Box<Self>)
        ensures
            r.request == request,
            r.page_size is None,
            r.paging_state is None,
            r.retries == 0,
    {
        Box::new(SelectWorker { request, page_size: None, paging_state: None, retries: 0 })
    }

    /// Add paging information to this worker.
    pub fn with_paging(self: Box<Self>, page_size: i32, paging_state: Option<Vec<u8>>) -> (r:
        Box<Self>)
        ensures
            r.page_size == Some(page_size),
            r.paging_state == paging_state,
            r.retries == self.retries,
            r.request == self.request,
    {
        Box::new(SelectWorker { page_size: Some(page_size), paging_state, ..*self })
    }

    /// Give this worker a number of retries.
    pub fn with_retries(self: Box<Self>, retries: usize) -> (r: Box<Self>)
        ensures
            r.retries == retries,
            r.request == self.request,
            r.page_size == self.page_size,
            r.paging_state == self.paging_state,
    {
        Box::new(SelectWorker { retries, ..*self })
    }

    /// Consume one retry, as `BasicRetryWorker::retry` does.
    pub fn retry(&mut self) -> (r: bool)
        ensures
            r == (old(self).retries > 0),
            old(self).retries > 0 ==> final(self).retries == old(self).retries - 1,
            old(self).retries == 0 ==> final(self).retries == 0,
            final(self).request == old(self).request,
    {
        if self.retries > 0 {
            self.retries = self.retries - 1;
            true
        } else {
            false
        }
    }

    /// Apply the retry policy to a CQL error, as the select worker does:
    /// an unprepared id asks for a reprepare on the same connection, the
    /// transient classes consume one retry while attempts remain, and
    /// everything else surfaces.
    pub fn handle_error(&mut self, code: u32, idempotent: bool) -> (r: RetryAction)
        ensures
            r == spec_classify(code, idempotent, old(self).retries as nat),
            r is Retry ==> final(self).retries == old(self).retries - 1,
            !(r is Retry) ==> final(self).retries == old(self).retries,
            final(self).request == old(self).request,
            final(self).page_size == old(self).page_size,
            final(self).paging_state == old(self).paging_state,
    {
        let action = classify_error(code, idempotent, self.retries);
        if let RetryAction::Retry = action {
            self.retries = self.retries - 1;
        }
        action
    }
}

/// A worker that decodes a single value out of a rows response, keeping
/// the paging parameters that a retry must repeat.
#[derive(Debug, Clone)]
pub struct ValueWorker<R> {
    pub request: R,
    pub page_size: Option<i32>,
    pub paging_state: Option<Vec<u8>>,
    pub retries: usize,
}

impl<R> ValueWorker<R> {
    /// A value worker with no paging and no retries.
    pub fn new(request: R) -> (r: Box<Self>)
        ensures
            r.request == request,
            r.page_size is None,
            r.paging_state is None,
            r.retries == 0,
    {
        Box::new(ValueWorker { request, page_size: None, paging_state: None, retries: 0 })
    }

    /// A boxed value worker with a number of retries.
    pub fn boxed(request: R, retries: usize) -> (r: Box<Self>)
        ensures
            r.request == request,
            r.retries == retries,
            r.page_size is None,
            r.paging_state is None,
    {
        Box::new(ValueWorker { request, page_size: None, paging_state: None, retries })
    }

    /// Give this worker a number of retries.
    pub fn with_retries(self: Box<Self>, retries: usize) -> (r: Box<Self>)
        ensures
            r.retries == retries,
            r.request == self.request,
            r.page_size == self.page_size,
            r.paging_state == self.paging_state,
    {
        Box::new(ValueWorker { retries, ..*self })
    }

    /// Add paging information to this worker.
    pub fn with_paging(self: Box<Self>, page_size: i32, paging_state: Option<Vec<u8>>) -> (r:
        Box<Self>)
        ensures
            r.page_size == Some(page_size),
            r.paging_state == paging_state,
            r.retries == self.retries,
            r.request == self.request,
    {
        Box::new(ValueWorker { page_size: Some(page_size), paging_state, ..*self })
    }

    /// Consume one retry, as `BasicRetryWorker::retry` does.
    pub fn retry(&mut self) -> (r: bool)
        ensures
            r == (old(self).retries > 0),
            old(self).retries > 0 ==> final(self).retries == old(self).retries - 1,
            old(self).retries == 0 ==> final(self).retries == 0,
            final(self).request == old(self).request,
    {
        if self.retries > 0 {
            self.retries = self.retries - 1;
            true
        } else {
            false
        }
    }
}

/// Recover from an unprepared error: look the failed id up in the
/// registry and, when the statement is known locally, hand back the
/// prepare worker that re-prepares it on the same connection; the
/// original request is re-sent once the Prepared answer arrives. An
/// unknown id cannot be recovered and escalates to the caller.
pub fn handle_unprepared_error(
    registry: &crate::registry::PreparedRegistry,
    id: &[u8; 16],
) -> (r: Option<Box<PrepareWorker>>)
    requires
        registry.wf(),
    ensures
        match r {
            Some(w) => w.id@ == id@ && w.id@ == crate::registry::md5_of(w.statement@),
            None => !registry.spec_contains(id@),
        },
{
    match registry.get(id) {
        Some(entry) => Some(PrepareWorker::new(entry.id, entry.statement.clone())),
        None => None,
    }
}

/// Retry monotonicity: a sequence of attempt counts in which each retry
/// consumes one attempt is strictly decreasing, so a worker that starts
/// with `n` retries makes at most `n` retries and then stops.
pub proof fn lemma_retry_monotonic(before: nat, after: nat)
    requires
        before > 0,
        after == before - 1,
    ensures
        after < before,
{
}

} // verus!
