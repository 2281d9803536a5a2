//! The transfer orchestrator: one push per pending file, in the order in
//! which the files were dropped, and one outcome per push.
//!
//! The orchestrator does not run the bridge. A `Batch` hands out the next
//! request, takes the reply to it, and keeps the outcomes; the caller runs
//! the bridge in between.

use crate::bridge::{BridgeReply, ReplyView};
use vstd::prelude::*;
use vstd::string::StringExecFns;

verus! {

/// The directory on the device below which every destination lies.
pub const REMOTE_ROOT: &'static str = "/storage/emulated/0/";

/// A local file staged for transfer.
#[derive(Debug, PartialEq, Eq)]
pub struct PendingFile {
    pub path: String,
}

impl View for PendingFile {
    type V = Seq<char>;

    open spec fn view(&self) -> Seq<char> {
        self.path@
    }
}

impl DeepView for PendingFile {
    type V = Seq<char>;

    open spec fn deep_view(&self) -> Seq<char> {
        self@
    }
}

impl Clone for PendingFile {
    fn clone(&self) -> (copy: Self)
        ensures
            copy@ == self@,
    {
        PendingFile { path: self.path.clone() }
    }
}

/// One push that the bridge is asked for: copy `source` to `destination`.
#[derive(Debug, PartialEq, Eq)]
pub struct PushRequest {
    pub source: String,
    pub destination: String,
}

/// The mathematical value of a `PushRequest`.
pub struct RequestView {
    pub source: Seq<char>,
    pub destination: Seq<char>,
}

impl View for PushRequest {
    type V = RequestView;

    open spec fn view(&self) -> RequestView {
        RequestView { source: self.source@, destination: self.destination@ }
    }
}

impl DeepView for PushRequest {
    type V = RequestView;

    open spec fn deep_view(&self) -> RequestView {
        self@
    }
}

impl Clone for PushRequest {
    fn clone(&self) -> (copy: Self)
        ensures
            copy@ == self@,
    {
        PushRequest { source: self.source.clone(), destination: self.destination.clone() }
    }
}

/// What became of one push: the request, and what the bridge gave for it.
#[derive(Debug, PartialEq, Eq)]
pub struct TransferOutcome {
    pub source: String,
    pub destination: String,
    pub reply: BridgeReply,
}

/// The mathematical value of a `TransferOutcome`.
pub struct OutcomeView {
    pub source: Seq<char>,
    pub destination: Seq<char>,
    pub reply: ReplyView,
}

impl View for TransferOutcome {
    type V = OutcomeView;

    open spec fn view(&self) -> OutcomeView {
        OutcomeView { source: self.source@, destination: self.destination@, reply: self.reply@ }
    }
}

impl DeepView for TransferOutcome {
    type V = OutcomeView;

    open spec fn deep_view(&self) -> OutcomeView {
        self@
    }
}

/// The destination of every file of a batch: the remote root with the
/// fragment behind it, letter for letter.
pub open spec fn destination_of(target_fragment: Seq<char>) -> Seq<char> {
    REMOTE_ROOT@ + target_fragment
}

/// The request for one pending file.
pub open spec fn request_for(source: Seq<char>, target_fragment: Seq<char>) -> RequestView {
    RequestView { source, destination: destination_of(target_fragment) }
}

/// The outcome of a request to which the bridge gave `reply`.
pub open spec fn outcome_of(request: RequestView, reply: ReplyView) -> OutcomeView {
    OutcomeView { source: request.source, destination: request.destination, reply }
}

/// The requests of a batch: one per pending file, in the files' order.
pub open spec fn planned_requests(
    pending: Seq<Seq<char>>,
    target_fragment: Seq<char>,
) -> Seq<RequestView> {
    Seq::new(pending.len(), |i: int| request_for(pending[i], target_fragment))
}

/// Builds the destination path for a target fragment.
pub fn destination_path(target_fragment: &str) -> (path: String)
    ensures
        path@ == destination_of(target_fragment@),
{
    let mut path = REMOTE_ROOT.to_owned();
    path.append(target_fragment);
    path
}

/// Pairs a request with the reply that the bridge gave to it.
pub fn transfer_outcome(request: &PushRequest, reply: BridgeReply) -> (outcome: TransferOutcome)
    ensures
        outcome@ == outcome_of(request@, reply@),
{
    TransferOutcome {
        source: request.source.clone(),
        destination: request.destination.clone(),
        reply,
    }
}

/// A batch in flight: the requests it was planned with, and the outcomes of
/// those that were attempted so far.
pub struct Batch {
    requests: Vec<PushRequest>,
    outcomes: Vec<TransferOutcome>,
}

/// The mathematical value of a `Batch`.
pub struct BatchView {
    pub requests: Seq<RequestView>,
    pub outcomes: Seq<OutcomeView>,
}

impl View for Batch {
    type V = BatchView;

    closed spec fn view(&self) -> BatchView {
        BatchView { requests: self.requests.deep_view(), outcomes: self.outcomes.deep_view() }
    }
}

impl BatchView {
    /// The batch as planned, before any push.
    pub open spec fn planned(pending: Seq<Seq<char>>, target_fragment: Seq<char>) -> BatchView {
        BatchView {
            requests: planned_requests(pending, target_fragment),
            outcomes: Seq::empty(),
        }
    }

    /// The request to run next: the first without an outcome.
    pub open spec fn next_push(self) -> Option<RequestView> {
        if self.outcomes.len() < self.requests.len() {
            Some(self.requests[self.outcomes.len() as int])
        } else {
            None
        }
    }

    /// The batch after the reply to its next request came in. A reply that
    /// no request waits for changes nothing.
    pub open spec fn record(self, reply: ReplyView) -> BatchView {
        match self.next_push() {
            Some(request) => BatchView {
                requests: self.requests,
                outcomes: self.outcomes.push(outcome_of(request, reply)),
            },
            None => self,
        }
    }

    /// The batch after a run of replies came in, one after the other.
    pub open spec fn record_all(self, replies: Seq<ReplyView>) -> BatchView
        decreases replies.len(),
    {
        if replies.len() == 0 {
            self
        } else {
            self.record(replies[0]).record_all(replies.drop_first())
        }
    }
}

/// Plans the batch for the pending files: one request per file, in order,
/// all with the destination that the target fragment gives.
pub fn send_files(pending: &Vec<PendingFile>, target_fragment: &str) -> (batch: Batch)
    ensures
        batch@ == BatchView::planned(pending.deep_view(), target_fragment@),
{
    let destination = destination_path(target_fragment);
    let mut requests: Vec<PushRequest> = Vec::new();
    let mut i: usize = 0;
    while i < pending.len()
        invariant
            i <= pending.len(),
            destination@ == destination_of(target_fragment@),
            requests.deep_view() == planned_requests(pending.deep_view(), target_fragment@).take(
                i as int,
            ),
        decreases pending.len() - i,
    {
        let ghost before = requests.deep_view();
        requests.push(PushRequest { source: pending[i].path.clone(), destination: destination.clone() });
        assert(requests.deep_view() == before.push(
            request_for(pending[i as int]@, target_fragment@),
        ));
        i = i + 1;
    }
    let batch = Batch { requests, outcomes: Vec::new() };
    proof {
        let planned = planned_requests(pending.deep_view(), target_fragment@);
        assert(planned.take(pending.len() as int) == planned);
        assert(batch@.outcomes == Seq::<OutcomeView>::empty());
    }
    batch
}

impl Batch {
    /// The request to run next, or `None` once every file was attempted.
    pub fn next_push(&self) -> (next: Option<&PushRequest>)
        ensures
            match next {
                Some(request) => self@.next_push() == Some(request@),
                None => self@.next_push() is None,
            },
    {
        if self.outcomes.len() < self.requests.len() {
            Some(&self.requests[self.outcomes.len()])
        } else {
            None
        }
    }

    /// Takes the reply to the request that `next_push` gave, and keeps the
    /// outcome. Where no request waits, the reply is dropped.
    pub fn record(&mut self, reply: BridgeReply)
        ensures
            final(self)@ == old(self)@.record(reply@),
    {
        if self.outcomes.len() < self.requests.len() {
            let ghost before = self.outcomes.deep_view();
            let outcome = transfer_outcome(&self.requests[self.outcomes.len()], reply);
            self.outcomes.push(outcome);
            assert(self.outcomes.deep_view() == before.push(outcome@));
        }
    }

    /// Whether every file of the batch was attempted.
    pub fn is_done(&self) -> (done: bool)
        ensures
            done == (self@.next_push() is None),
    {
        self.outcomes.len() >= self.requests.len()
    }

    /// The outcomes so far, in the order of the requests.
    pub fn into_outcomes(self) -> (outcomes: Vec<TransferOutcome>)
        ensures
            outcomes.deep_view() == self@.outcomes,
    {
        self.outcomes
    }
}

/// A batch pairs replies with its requests in order. Where as many replies
/// come in as requests still wait, or fewer, each reply lands on the request
/// at its place, the outcomes so far stay as they are, and the requests do
/// not change.
pub proof fn law_replies_meet_requests_in_order(batch: BatchView, replies: Seq<ReplyView>)
    requires
        batch.outcomes.len() + replies.len() <= batch.requests.len(),
    ensures
        batch.record_all(replies).requests == batch.requests,
        batch.record_all(replies).outcomes == batch.outcomes + Seq::new(
            replies.len(),
            |i: int| outcome_of(batch.requests[batch.outcomes.len() + i], replies[i]),
        ),
    decreases replies.len(),
{
    let paired = Seq::new(
        replies.len(),
        |i: int| outcome_of(batch.requests[batch.outcomes.len() + i], replies[i]),
    );
    if replies.len() == 0 {
        assert(batch.outcomes + paired == batch.outcomes);
    } else {
        let next = batch.record(replies[0]);
        let rest = replies.drop_first();
        law_replies_meet_requests_in_order(next, rest);
        let paired_rest = Seq::new(
            rest.len(),
            |i: int| outcome_of(next.requests[next.outcomes.len() + i], rest[i]),
        );
        assert(next.outcomes + paired_rest == batch.outcomes + paired);
    }
}

} // verus!
