//! What a group is asked.

use std::collections::VecDeque;
use vstd::prelude::*;
use crate::admission;
use crate::admission::{give_back, RaftUncommittedBytesTracker, UncommittedBytesGuard};
use crate::command::GroupSnapshot;
use crate::engine::access;
use crate::error::RuntimeError;
use crate::ids::{BucketStreamId, ShardPlacement, StreamName};
use crate::metrics::errors::append_batch_payload_bytes;
use crate::metrics::GROUP_ACTOR_MAX_WRITE_BATCH;
use crate::request::{
    AppendBatchRequest, AppendExternalRequest, AppendRequest, BootstrapStreamRequest,
    CloseStreamRequest, CreateStreamExternalRequest, CreateStreamRequest, DeleteSnapshotRequest,
    DeleteStreamRequest, FlushColdRequest, GetStreamAttrsRequest, HeadStreamRequest,
    PlanColdFlushRequest, PlanGroupColdFlushRequest, PublishSnapshotRequest, ReadSnapshotRequest,
    ReadStreamRequest, UpdateStreamAttrsRequest,
};

verus! {

/// A request to a group.
#[derive(Debug)]
pub enum GroupRequest {
    CreateStream { request: CreateStreamRequest },
    CreateExternal { request: CreateStreamExternalRequest },
    HeadStream { request: HeadStreamRequest },
    GetStreamAttrs { request: GetStreamAttrsRequest },
    ReadStream { request: ReadStreamRequest },
    PublishSnapshot { request: PublishSnapshotRequest },
    ReadSnapshot { request: ReadSnapshotRequest },
    DeleteSnapshot { request: DeleteSnapshotRequest },
    BootstrapStream { request: BootstrapStreamRequest },
    WaitRead { request: ReadStreamRequest, waiter_id: u64 },
    CancelWaitRead { stream_id: BucketStreamId, waiter_id: u64 },
    RequireLiveReadOwner,
    CloseStream { request: CloseStreamRequest },
    UpdateStreamAttrs { request: UpdateStreamAttrsRequest },
    DeleteStream { request: DeleteStreamRequest },
    FlushCold { request: FlushColdRequest },
    PlanColdFlush { request: PlanColdFlushRequest },
    PlanNextColdFlushBatch { request: PlanGroupColdFlushRequest, max_candidates: usize },
    PlanColdGc { max: usize },
    AckColdGc { up_to_seq: u64 },
    Append { request: AppendRequest },
    AppendExternal { request: AppendExternalRequest },
    AppendBatch { request: AppendBatchRequest },
    SnapshotGroup,
    InstallGroupSnapshot { snapshot: GroupSnapshot },
    ShutdownEngine,
}

/// A request, the way to answer it, and the bytes to be given back when it is done
/// with.
#[derive(Debug)]
pub struct Envelope<T> {
    pub request: GroupRequest,
    pub response: T,
    pub raft_uncommitted: Option<UncommittedBytesGuard>,
}

/// How a stream is touched before a request about it is served.
#[derive(Debug, Clone, Copy, PartialEq, Eq, Structural)]
pub struct StreamTouch {
    pub now_ms: u64,
    /// Whether the stream's time to live begins anew.
    pub renew_ttl: bool,
}

/// How a stream is touched before a request about it is served: who reads what it
/// holds begins its time to live anew, who asks about it or appends to it only finds
/// out whether it has ended.
pub open spec fn touch_before(request: GroupRequest) -> Option<StreamTouch> {
    match request {
        GroupRequest::ReadStream { request } => Some(
            StreamTouch { now_ms: request.now_ms, renew_ttl: true },
        ),
        GroupRequest::WaitRead { request, .. } => Some(
            StreamTouch { now_ms: request.now_ms, renew_ttl: true },
        ),
        GroupRequest::ReadSnapshot { request } => Some(
            StreamTouch { now_ms: request.now_ms, renew_ttl: true },
        ),
        GroupRequest::BootstrapStream { request } => Some(
            StreamTouch { now_ms: request.now_ms, renew_ttl: true },
        ),
        GroupRequest::HeadStream { request } => Some(
            StreamTouch { now_ms: request.now_ms, renew_ttl: false },
        ),
        GroupRequest::GetStreamAttrs { request } => Some(
            StreamTouch { now_ms: request.now_ms, renew_ttl: false },
        ),
        GroupRequest::PublishSnapshot { request } => Some(
            StreamTouch { now_ms: request.now_ms, renew_ttl: false },
        ),
        GroupRequest::DeleteSnapshot { request } => Some(
            StreamTouch { now_ms: request.now_ms, renew_ttl: false },
        ),
        GroupRequest::CloseStream { request } => Some(
            StreamTouch { now_ms: request.now_ms, renew_ttl: false },
        ),
        GroupRequest::Append { request } => Some(
            StreamTouch { now_ms: request.now_ms, renew_ttl: false },
        ),
        GroupRequest::AppendExternal { request } => Some(
            StreamTouch { now_ms: request.now_ms, renew_ttl: false },
        ),
        GroupRequest::AppendBatch { request } => Some(
            StreamTouch { now_ms: request.now_ms, renew_ttl: false },
        ),
        _ => None,
    }
}

impl GroupRequest {
    /// Whether somebody waits for an answer. Only who gives up waiting does not.
    pub open spec fn spec_expects_response(self) -> bool {
        !(self is CancelWaitRead)
    }

    /// Whether the request brings bytes that are counted until they are applied.
    pub open spec fn is_guarded(self) -> bool {
        self is CreateStream || self is Append || self is AppendBatch
    }

    /// The stream that the request is about, where it is about one.
    pub open spec fn spec_stream(self) -> Option<StreamName> {
        match self {
            GroupRequest::CreateStream { request } => Some(request.stream_id@),
            GroupRequest::CreateExternal { request } => Some(request.stream_id@),
            GroupRequest::HeadStream { request } => Some(request.stream_id@),
            GroupRequest::GetStreamAttrs { request } => Some(request.stream_id@),
            GroupRequest::ReadStream { request } => Some(request.stream_id@),
            GroupRequest::PublishSnapshot { request } => Some(request.stream_id@),
            GroupRequest::ReadSnapshot { request } => Some(request.stream_id@),
            GroupRequest::DeleteSnapshot { request } => Some(request.stream_id@),
            GroupRequest::BootstrapStream { request } => Some(request.stream_id@),
            GroupRequest::WaitRead { request, .. } => Some(request.stream_id@),
            GroupRequest::CancelWaitRead { stream_id, .. } => Some(stream_id@),
            GroupRequest::RequireLiveReadOwner => None,
            GroupRequest::CloseStream { request } => Some(request.stream_id@),
            GroupRequest::UpdateStreamAttrs { request } => Some(request.stream_id@),
            GroupRequest::DeleteStream { request } => Some(request.stream_id@),
            GroupRequest::FlushCold { request } => Some(request.stream_id@),
            GroupRequest::PlanColdFlush { request } => Some(request.stream_id@),
            GroupRequest::PlanNextColdFlushBatch { .. } => None,
            GroupRequest::PlanColdGc { .. } => None,
            GroupRequest::AckColdGc { .. } => None,
            GroupRequest::Append { request } => Some(request.stream_id@),
            GroupRequest::AppendExternal { request } => Some(request.stream_id@),
            GroupRequest::AppendBatch { request } => Some(request.stream_id@),
            GroupRequest::SnapshotGroup => None,
            GroupRequest::InstallGroupSnapshot { .. } => None,
            GroupRequest::ShutdownEngine => None,
        }
    }

    /// Whether somebody waits for an answer.
    pub fn expects_response(&self) -> (r: bool)
        ensures
            r == self.spec_expects_response(),
            r <==> !(*self is CancelWaitRead),
    {
        match self {
            GroupRequest::CancelWaitRead { .. } => false,
            _ => true,
        }
    }

    /// The stream by which the request finds its group; the others are sent to a
    /// group by its number.
    pub fn stream(&self) -> (r: Option<&BucketStreamId>)
        ensures
            match self.spec_stream() {
                Some(stream) => r is Some && r->0@ == stream,
                None => r is None,
            },
    {
        match self {
            GroupRequest::CreateStream { request } => Some(&request.stream_id),
            GroupRequest::CreateExternal { request } => Some(&request.stream_id),
            GroupRequest::HeadStream { request } => Some(&request.stream_id),
            GroupRequest::GetStreamAttrs { request } => Some(&request.stream_id),
            GroupRequest::ReadStream { request } => Some(&request.stream_id),
            GroupRequest::PublishSnapshot { request } => Some(&request.stream_id),
            GroupRequest::ReadSnapshot { request } => Some(&request.stream_id),
            GroupRequest::DeleteSnapshot { request } => Some(&request.stream_id),
            GroupRequest::BootstrapStream { request } => Some(&request.stream_id),
            GroupRequest::WaitRead { request, .. } => Some(&request.stream_id),
            GroupRequest::CancelWaitRead { stream_id, .. } => Some(stream_id),
            GroupRequest::RequireLiveReadOwner => None,
            GroupRequest::CloseStream { request } => Some(&request.stream_id),
            GroupRequest::UpdateStreamAttrs { request } => Some(&request.stream_id),
            GroupRequest::DeleteStream { request } => Some(&request.stream_id),
            GroupRequest::FlushCold { request } => Some(&request.stream_id),
            GroupRequest::PlanColdFlush { request } => Some(&request.stream_id),
            GroupRequest::PlanNextColdFlushBatch { .. } => None,
            GroupRequest::PlanColdGc { .. } => None,
            GroupRequest::AckColdGc { .. } => None,
            GroupRequest::Append { request } => Some(&request.stream_id),
            GroupRequest::AppendExternal { request } => Some(&request.stream_id),
            GroupRequest::AppendBatch { request } => Some(&request.stream_id),
            GroupRequest::SnapshotGroup => None,
            GroupRequest::InstallGroupSnapshot { .. } => None,
            GroupRequest::ShutdownEngine => None,
        }
    }

    /// How the request's stream is touched before the request is served.
    pub fn touch_before(&self) -> (r: Option<StreamTouch>)
        ensures
            r == touch_before(*self),
            r is Some && r->0.renew_ttl <==> *self is ReadStream || *self is WaitRead
                || *self is ReadSnapshot || *self is BootstrapStream,
            r is Some && !r->0.renew_ttl <==> *self is HeadStream || *self is GetStreamAttrs
                || *self is PublishSnapshot || *self is DeleteSnapshot || *self is CloseStream
                || *self is Append || *self is AppendExternal || *self is AppendBatch,
            r matches Some(touch) ==> touch.now_ms == match *self {
                GroupRequest::ReadStream { request } => request.now_ms,
                GroupRequest::WaitRead { request, .. } => request.now_ms,
                GroupRequest::ReadSnapshot { request } => request.now_ms,
                GroupRequest::BootstrapStream { request } => request.now_ms,
                GroupRequest::HeadStream { request } => request.now_ms,
                GroupRequest::GetStreamAttrs { request } => request.now_ms,
                GroupRequest::PublishSnapshot { request } => request.now_ms,
                GroupRequest::DeleteSnapshot { request } => request.now_ms,
                GroupRequest::CloseStream { request } => request.now_ms,
                GroupRequest::Append { request } => request.now_ms,
                GroupRequest::AppendExternal { request } => request.now_ms,
                GroupRequest::AppendBatch { request } => request.now_ms,
                _ => touch.now_ms,
            },
    {
        let (now_ms, renew_ttl): (u64, bool) = match self {
            GroupRequest::ReadStream { request } => (request.now_ms, true),
            GroupRequest::WaitRead { request, .. } => (request.now_ms, true),
            GroupRequest::ReadSnapshot { request } => (request.now_ms, true),
            GroupRequest::BootstrapStream { request } => (request.now_ms, true),
            GroupRequest::HeadStream { request } => (request.now_ms, false),
            GroupRequest::GetStreamAttrs { request } => (request.now_ms, false),
            GroupRequest::PublishSnapshot { request } => (request.now_ms, false),
            GroupRequest::DeleteSnapshot { request } => (request.now_ms, false),
            GroupRequest::CloseStream { request } => (request.now_ms, false),
            GroupRequest::Append { request } => (request.now_ms, false),
            GroupRequest::AppendExternal { request } => (request.now_ms, false),
            GroupRequest::AppendBatch { request } => (request.now_ms, false),
            _ => {
                return None;
            },
        };
        Some(StreamTouch { now_ms, renew_ttl })
    }

    /// The bytes that the request brings to its group, where they are counted; an
    /// append of nothing is refused before it is sent.
    pub fn incoming_bytes(&self) -> (r: Result<Option<u64>, RuntimeError>)
        requires
            *self matches GroupRequest::AppendBatch { request } ==> access::total_len(
                request.payloads@,
            ) <= u64::MAX,
        ensures
            r == match *self {
                GroupRequest::CreateStream { request } => Ok::<Option<u64>, RuntimeError>(
                    Some(request.initial_payload@.len() as u64),
                ),
                GroupRequest::Append { request } => if request.payload@.len() == 0 {
                    Err::<Option<u64>, RuntimeError>(RuntimeError::EmptyAppend)
                } else {
                    Ok::<Option<u64>, RuntimeError>(Some(request.payload@.len() as u64))
                },
                GroupRequest::AppendBatch { request } => if request.payloads@.len() == 0 {
                    Err::<Option<u64>, RuntimeError>(RuntimeError::EmptyAppend)
                } else {
                    Ok::<Option<u64>, RuntimeError>(
                        Some(access::total_len(request.payloads@) as u64),
                    )
                },
                _ => Ok::<Option<u64>, RuntimeError>(None),
            },
    {
        match self {
            GroupRequest::CreateStream { request } => Ok(Some(request.initial_payload.len() as u64)),
            GroupRequest::Append { request } => {
                if request.payload.len() == 0 {
                    Err(RuntimeError::EmptyAppend)
                } else {
                    Ok(Some(request.payload_len()))
                }
            },
            GroupRequest::AppendBatch { request } => {
                if request.payloads.len() == 0 {
                    Err(RuntimeError::EmptyAppend)
                } else {
                    Ok(Some(append_batch_payload_bytes(request)))
                }
            },
            _ => Ok(None),
        }
    }
}

impl<T> Envelope<T> {
    pub fn new(request: GroupRequest, response: T) -> (r: Self)
        ensures
            r == (Envelope { request, response, raft_uncommitted: None }),
    {
        Envelope { request, response, raft_uncommitted: None }
    }

    /// Refuses a request: the answer for whoever waits for one, and the bytes to be
    /// given back.
    pub fn send_error(self, error: RuntimeError) -> (r: (
        Option<(T, RuntimeError)>,
        Option<UncommittedBytesGuard>,
    ))
        ensures
            r.0 == if self.request.spec_expects_response() {
                Some((self.response, error))
            } else {
                None
            },
            r.1 == self.raft_uncommitted,
    {
        if self.request.expects_response() {
            (Some((self.response, error)), self.raft_uncommitted)
        } else {
            (None, self.raft_uncommitted)
        }
    }

    /// Refuses a request and gives back the bytes that were counted for it: the
    /// answer for whoever waits for one.
    pub fn refuse(
        self,
        tracker: &mut RaftUncommittedBytesTracker,
        error: RuntimeError,
    ) -> (r: Option<(T, RuntimeError)>)
        requires
            admission::is_of_counted_group(old(tracker)@, self.raft_uncommitted),
        ensures
            r == if self.request.spec_expects_response() {
                Some((self.response, error))
            } else {
                None
            },
            final(tracker)@ == admission::given_back(old(tracker)@, self.raft_uncommitted),
    {
        let (answer, guard) = self.send_error(error);
        give_back(tracker, guard);
        answer
    }

    /// Leaves with a request the bytes that were counted for it. A request whose
    /// bytes are not counted gets none, and hands them back.
    pub fn with_raft_uncommitted(self, guard: Option<UncommittedBytesGuard>) -> (r: (
        Self,
        Option<UncommittedBytesGuard>,
    ))
        ensures
            r == if self.request.is_guarded() {
                (
                    Envelope {
                        request: self.request,
                        response: self.response,
                        raft_uncommitted: guard,
                    },
                    None,
                )
            } else {
                (self, guard)
            },
    {
        let guarded = match &self.request {
            GroupRequest::CreateStream { .. } => true,
            GroupRequest::Append { .. } => true,
            GroupRequest::AppendBatch { .. } => true,
            _ => false,
        };
        if guarded {
            (
                Envelope { request: self.request, response: self.response, raft_uncommitted: guard },
                None,
            )
        } else {
            (self, guard)
        }
    }
}

/// How many requests at the head of a queue are batches of appends, but no more
/// than there is room for.
pub open spec fn leading_batches<T>(queue: Seq<Envelope<T>>, room: int) -> int
    decreases queue.len(),
{
    if queue.len() == 0 || room <= 0 || !(queue[0].request is AppendBatch) {
        0
    } else {
        1 + leading_batches(queue.drop_first(), room - 1)
    }
}

/// Takes batches of appends from the head of what is pending, as long as they come
/// one after the other and there is room in the batch. What is not one stays
/// where it is.
pub fn collect_append_batch_commands<T>(
    pending: &mut VecDeque<Envelope<T>>,
    batch: &mut Vec<Envelope<T>>,
)
    ensures
        ({
            let n = leading_batches(
                old(pending)@,
                GROUP_ACTOR_MAX_WRITE_BATCH - old(batch)@.len(),
            );
            &&& 0 <= n <= old(pending)@.len()
            &&& final(batch)@ == old(batch)@ + old(pending)@.take(n)
            &&& final(pending)@ == old(pending)@.skip(n)
        }),
{
    let ghost queue = pending@;
    let ghost first = batch@;
    let ghost mut n: int = 0;
    let mut more = true;
    assert(queue.skip(0) =~= queue);
    assert(first + queue.take(0) =~= first);
    while more && batch.len() < GROUP_ACTOR_MAX_WRITE_BATCH
        invariant
            0 <= n <= queue.len(),
            first == old(batch)@,
            queue == old(pending)@,
            batch@ == first + queue.take(n),
            pending@ == queue.skip(n),
            n + leading_batches(
                queue.skip(n),
                GROUP_ACTOR_MAX_WRITE_BATCH - first.len() - n,
            ) == leading_batches(queue, GROUP_ACTOR_MAX_WRITE_BATCH - first.len()),
            !more ==> leading_batches(
                queue.skip(n),
                GROUP_ACTOR_MAX_WRITE_BATCH - first.len() - n,
            ) == 0,
        decreases (if more { 1int } else { 0int }) + queue.len() - n,
    {
        match pending.pop_front() {
            None => {
                more = false;
            },
            Some(envelope) => {
                proof {
                    assert(envelope == queue[n]);
                    assert(queue.skip(n)[0] == queue[n]);
                }
                let is_batch = match &envelope.request {
                    GroupRequest::AppendBatch { .. } => true,
                    _ => false,
                };
                if is_batch {
                    batch.push(envelope);
                    proof {
                        assert(queue.skip(n).drop_first() =~= queue.skip(n + 1));
                        assert(first + queue.take(n + 1) =~= (first + queue.take(n)).push(queue[n]));
                        n = n + 1;
                    }
                } else {
                    pending.push_front(envelope);
                    assert(pending@ =~= queue.skip(n));
                    more = false;
                }
            },
        }
    }
}

/// Takes a request that has just come into the batch where it is a batch of
/// appends; any other is put at the head of what is pending. Says whether to go
/// on.
pub fn coalesce<T>(
    pending: &mut VecDeque<Envelope<T>>,
    batch: &mut Vec<Envelope<T>>,
    next: Option<Envelope<T>>,
) -> (r: bool)
    requires
        old(batch)@.len() < GROUP_ACTOR_MAX_WRITE_BATCH,
    ensures
        match next {
            None => final(pending)@ == old(pending)@ && final(batch)@ == old(batch)@ && !r,
            Some(envelope) => if envelope.request is AppendBatch {
                final(pending)@ == old(pending)@ && final(batch)@ == old(batch)@.push(envelope) && r
                    == (final(batch)@.len() < GROUP_ACTOR_MAX_WRITE_BATCH)
            } else {
                final(pending)@ == seq![envelope] + old(pending)@ && final(batch)@ == old(batch)@
                    && !r
            },
        },
{
    match next {
        None => false,
        Some(envelope) => {
            let is_batch = match &envelope.request {
                GroupRequest::AppendBatch { .. } => true,
                _ => false,
            };
            if is_batch {
                batch.push(envelope);
                batch.len() < GROUP_ACTOR_MAX_WRITE_BATCH
            } else {
                pending.push_front(envelope);
                assert(pending@ =~= seq![envelope] + old(pending)@);
                false
            }
        },
    }
}

proof fn lemma_leading_batches<T>(queue: Seq<Envelope<T>>, room: int)
    requires
        room >= 0,
    ensures
        0 <= leading_batches(queue, room) <= room,
        leading_batches(queue, room) <= queue.len(),
        forall|i: int|
            0 <= i < leading_batches(queue, room) ==> (#[trigger] queue[i]).request is AppendBatch,
    decreases queue.len(),
{
    if queue.len() > 0 && room > 0 && queue[0].request is AppendBatch {
        lemma_leading_batches(queue.drop_first(), room - 1);
        assert forall|i: int| 0 <= i < leading_batches(queue, room) implies (
        #[trigger] queue[i]).request is AppendBatch by {
            if i > 0 {
                assert(queue.drop_first()[i - 1] == queue[i]);
            }
        }
    }
}

/// Collecting batches neither loses a request nor changes the order of requests,
/// takes batches of appends only, and no more than there is room for.
pub proof fn law_collecting_keeps_the_order<T>(queue: Seq<Envelope<T>>, room: int)
    requires
        room >= 0,
    ensures
        ({
            let n = leading_batches(queue, room);
            &&& queue.take(n) + queue.skip(n) == queue
            &&& n <= room
            &&& forall|i: int|
                0 <= i < n ==> (#[trigger] queue.take(n)[i]).request is AppendBatch
            &&& n < room && n < queue.len() ==> !(queue[n].request is AppendBatch)
        }),
{
    lemma_leading_batches(queue, room);
    let n = leading_batches(queue, room);
    assert(queue.take(n) + queue.skip(n) =~= queue);
    lemma_run_is_whole(queue, room);
}

proof fn lemma_run_is_whole<T>(queue: Seq<Envelope<T>>, room: int)
    ensures
        leading_batches(queue, room) < room && leading_batches(queue, room) < queue.len() ==> !(
        queue[leading_batches(queue, room)].request is AppendBatch),
        leading_batches(queue, room) >= 0,
    decreases queue.len(),
{
    if queue.len() > 0 && room > 0 && queue[0].request is AppendBatch {
        lemma_run_is_whole(queue.drop_first(), room - 1);
    }
}

/// A reader who waits, and what to say when it gives up.
#[derive(Debug)]
pub struct WaitReadCancel {
    pub stream_id: Option<BucketStreamId>,
    pub placement: ShardPlacement,
    pub waiter_id: u64,
}

impl WaitReadCancel {
    pub fn new(stream_id: BucketStreamId, placement: ShardPlacement, waiter_id: u64) -> (r: Self)
        ensures
            r == (WaitReadCancel { stream_id: Some(stream_id), placement, waiter_id }),
    {
        WaitReadCancel { stream_id: Some(stream_id), placement, waiter_id }
    }

    /// The reader was answered: there is nothing to take back.
    pub fn disarm(&mut self)
        ensures
            *final(self) == (WaitReadCancel { stream_id: None, ..*old(self) }),
    {
        self.stream_id = None;
    }

    /// The request to send when the reader goes.
    pub fn into_cancel(self) -> (r: Option<GroupRequest>)
        ensures
            r == match self.stream_id {
                Some(stream_id) => Some(
                    GroupRequest::CancelWaitRead { stream_id, waiter_id: self.waiter_id },
                ),
                None => None,
            },
    {
        match self.stream_id {
            Some(stream_id) => Some(
                GroupRequest::CancelWaitRead { stream_id, waiter_id: self.waiter_id },
            ),
            None => None,
        }
    }
}

} // verus!
