//! The mailbox of timing writes waiting for the persistence worker.
use vstd::prelude::*;
use crate::agent::{AgentPane, AgentStatus, AgentTimingKey};
use crate::timing::TimingTable;

verus! {

/// The most writes that wait at once.
pub const MAX_PENDING_REQUESTS: usize = 3;

/// The write a request asks for.
pub enum Operation {
    Snapshot { agents: Vec<AgentPane>, now_ms: u64 },
    Status { key: AgentTimingKey, status: AgentStatus, state_change_seq: u64, now_ms: u64 },
    Reset { agents: Vec<AgentPane>, now_ms: u64 },
}

/// A timing write: the local table when it was made, the clear generation it
/// belongs to, and the operation.
pub struct Request {
    pub submitted: TimingTable,
    pub clear_generation: u64,
    pub operation: Operation,
}

#[derive(Clone, Copy, PartialEq, Eq, Structural)]
pub enum RequestKind {
    Snapshot,
    Status,
    Reset,
}

pub open spec fn kind(r: Request) -> RequestKind {
    match r.operation {
        Operation::Snapshot { .. } => RequestKind::Snapshot,
        Operation::Status { .. } => RequestKind::Status,
        Operation::Reset { .. } => RequestKind::Reset,
    }
}

pub fn request_kind(r: &Request) -> (k: RequestKind)
    ensures
        k == kind(*r),
{
    match r.operation {
        Operation::Snapshot { .. } => RequestKind::Snapshot,
        Operation::Status { .. } => RequestKind::Status,
        Operation::Reset { .. } => RequestKind::Reset,
    }
}

/// The resets of a queue, in order.
pub open spec fn resets_of(q: Seq<Request>) -> Seq<Request>
    decreases q.len(),
{
    if q.len() == 0 {
        seq![]
    } else if kind(q.last()) == RequestKind::Reset {
        resets_of(q.drop_last()).push(q.last())
    } else {
        resets_of(q.drop_last())
    }
}

/// Whether a queued request is superseded by `r`: same generation, same kind,
/// and not a reset.
pub open spec fn supersedes(r: Request, pending: Request) -> bool {
    &&& pending.clear_generation == r.clear_generation
    &&& kind(pending) == kind(r)
    &&& kind(r) != RequestKind::Reset
}

/// The last position in `q` of a request that `r` supersedes.
pub open spec fn last_superseded(q: Seq<Request>, r: Request) -> Option<int>
    decreases q.len(),
{
    if q.len() == 0 {
        None
    } else if supersedes(r, q.last()) {
        Some(q.len() - 1)
    } else {
        last_superseded(q.drop_last(), r)
    }
}

/// The queue once `r` has cleared what it makes irrelevant: a reset drops all
/// but the queued resets; another request drops the last queued request it supersedes.
pub open spec fn coalesced(q: Seq<Request>, r: Request) -> Seq<Request> {
    if kind(r) == RequestKind::Reset {
        resets_of(q)
    } else {
        match last_superseded(q, r) {
            Some(p) => q.remove(p),
            None => q,
        }
    }
}

proof fn lemma_last_superseded(q: Seq<Request>, r: Request)
    ensures
        last_superseded(q, r) matches Some(p) ==> 0 <= p < q.len() && supersedes(r, q[p]) && forall|
            j: int,
        |
            p < j < q.len() ==> !supersedes(r, #[trigger] q[j]),
        last_superseded(q, r) is None ==> forall|j: int|
            0 <= j < q.len() ==> !supersedes(r, #[trigger] q[j]),
    decreases q.len(),
{
    if q.len() > 0 && !supersedes(r, q.last()) {
        lemma_last_superseded(q.drop_last(), r);
        assert forall|j: int| 0 <= j < q.len() - 1 implies q.drop_last()[j] == q[j] by {}
    }
}

proof fn lemma_resets_of_remove(q: Seq<Request>, p: int)
    requires
        0 <= p < q.len(),
        kind(q[p]) != RequestKind::Reset,
    ensures
        resets_of(q.remove(p)) == resets_of(q),
    decreases q.len(),
{
    if p == q.len() - 1 {
        assert(q.remove(p) =~= q.drop_last());
    } else {
        lemma_resets_of_remove(q.drop_last(), p);
        assert(q.remove(p).drop_last() =~= q.drop_last().remove(p));
        assert(q.remove(p).last() == q.last());
    }
}

proof fn lemma_resets_of_idempotent(q: Seq<Request>)
    ensures
        resets_of(resets_of(q)) == resets_of(q),
        resets_of(q).len() <= q.len(),
    decreases q.len(),
{
    if q.len() > 0 {
        lemma_resets_of_idempotent(q.drop_last());
        if kind(q.last()) == RequestKind::Reset {
            assert(resets_of(q).drop_last() =~= resets_of(q.drop_last()));
        }
    }
}

/// Pending timing writes, oldest first.
pub struct PendingRequests {
    pub queue: Vec<Request>,
    pub closed: bool,
}

impl PendingRequests {
    pub fn new() -> (r: Self)
        ensures
            r.queue@.len() == 0,
            !r.closed,
    {
        PendingRequests { queue: Vec::new(), closed: false }
    }

    /// Queues a write, first dropping the queued writes it makes irrelevant.
    /// A newer snapshot or status write replaces the last one of its kind in the
    /// same generation, moving to the back; a reset keeps only the queued
    /// resets, so each clear stays an ordered barrier. When the queue is then
    /// full the write is handed back and the caller waits.
    pub fn enqueue(&mut self, request: Request) -> (r: Option<Request>)
        ensures
            final(self).closed == old(self).closed,
            coalesced(old(self).queue@, request).len() >= MAX_PENDING_REQUESTS ==> {
                &&& final(self).queue@ == coalesced(old(self).queue@, request)
                &&& r == Some(request)
            },
            coalesced(old(self).queue@, request).len() < MAX_PENDING_REQUESTS ==> {
                &&& final(self).queue@ == coalesced(old(self).queue@, request).push(request)
                &&& r is None
            },
            old(self).queue@.len() <= MAX_PENDING_REQUESTS ==> final(self).queue@.len()
                <= MAX_PENDING_REQUESTS,
            resets_of(final(self).queue@) == if r is None && kind(request) == RequestKind::Reset {
                resets_of(old(self).queue@).push(request)
            } else {
                resets_of(old(self).queue@)
            },
    {
        let ghost q = self.queue@;
        let kind_r = request_kind(&request);
        if kind_r == RequestKind::Reset {
            let mut rest: Vec<Request> = Vec::new();
            std::mem::swap(&mut rest, &mut self.queue);
            let ghost mut taken: int = 0;
            while rest.len() > 0
                invariant
                    0 <= taken <= q.len(),
                    self.closed == old(self).closed,
                    rest@ == q.skip(taken),
                    self.queue@ == resets_of(q.take(taken)),
                decreases rest.len(),
            {
                let item = rest.remove(0);
                proof {
                    assert(q.take(taken + 1).drop_last() =~= q.take(taken));
                    assert(q.take(taken + 1).last() == item);
                    assert(rest@ =~= q.skip(taken + 1));
                    taken = taken + 1;
                }
                if request_kind(&item) == RequestKind::Reset {
                    self.queue.push(item);
                }
            }
            assert(q.take(taken) =~= q);
            proof {
                lemma_resets_of_idempotent(q);
            }
        } else {
            let mut found: Option<usize> = None;
            let mut i: usize = self.queue.len();
            proof {
                lemma_last_superseded(q, request);
            }
            while i > 0
                invariant_except_break
                    found is None,
                invariant
                    i <= self.queue.len(),
                    self.closed == old(self).closed,
                    self.queue@ == q,
                    kind_r == kind(request),
                    kind_r != RequestKind::Reset,
                    forall|j: int| i <= j < q.len() ==> !supersedes(request, #[trigger] q[j]),
                ensures
                    found matches Some(p) ==> p < q.len() && supersedes(request, q[p as int])
                        && forall|j: int| p < j < q.len() ==> !supersedes(request, #[trigger] q[j]),
                    found is None ==> forall|j: int| 0 <= j < q.len() ==> !supersedes(request, #[trigger] q[j]),
                decreases i,
            {
                let k = request_kind(&self.queue[i - 1]);
                if self.queue[i - 1].clear_generation == request.clear_generation && k == kind_r {
                    found = Some(i - 1);
                    break;
                }
                i = i - 1;
            }
            match found {
                Some(p) => {
                    assert(supersedes(request, q[p as int]));
                    assert(last_superseded(q, request) == Some(p as int));
                    proof {
                        lemma_resets_of_remove(q, p as int);
                    }
                    self.queue.remove(p);
                },
                None => {
                    assert(last_superseded(q, request) is None);
                },
            }
        }
        assert(self.queue@ == coalesced(q, request));
        if self.queue.len() >= MAX_PENDING_REQUESTS {
            return Some(request);
        }
        let ghost before = self.queue@;
        self.queue.push(request);
        assert(self.queue@.drop_last() =~= before);
        None
    }

    /// Takes the oldest pending write.
    pub fn pop_front(&mut self) -> (r: Option<Request>)
        ensures
            final(self).closed == old(self).closed,
            old(self).queue@.len() == 0 ==> r is None && final(self).queue@ == old(self).queue@,
            old(self).queue@.len() > 0 ==> r == Some(old(self).queue@[0]) && final(self).queue@
                == old(self).queue@.remove(0),
    {
        if self.queue.len() == 0 {
            None
        } else {
            Some(self.queue.remove(0))
        }
    }
}

} // verus!
