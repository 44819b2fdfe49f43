use vstd::prelude::*;

verus! {

/// Holds the unit spawn requests made since the last processing, in the
/// order they were made.
pub struct UnitSpawnManager<R> {
    spawn_requests: Vec<R>,
}

impl<R> View for UnitSpawnManager<R> {
    type V = Seq<R>;

    closed spec fn view(&self) -> Seq<R> {
        self.spawn_requests@
    }
}

/// The pending requests after spawning each of `requests`, in order, onto
/// `pending`.
pub open spec fn after_spawns<R>(pending: Seq<R>, requests: Seq<R>) -> Seq<R>
    decreases requests.len(),
{
    if requests.len() == 0 {
        pending
    } else {
        after_spawns(pending, requests.drop_last()).push(requests.last())
    }
}

impl<R> UnitSpawnManager<R> {
    /// A manager with no pending request.
    pub fn new() -> (m: UnitSpawnManager<R>)
        ensures
            m@ == Seq::<R>::empty(),
    {
        UnitSpawnManager { spawn_requests: Vec::new() }
    }

    /// The number of pending requests.
    pub fn pending_count(&self) -> (n: usize)
        ensures
            n == self@.len(),
    {
        self.spawn_requests.len()
    }

    /// Callback processing: hands back every pending request, in the order
    /// they were made, and leaves none pending.
    pub fn process_spawn_requests(&mut self) -> (requests: Vec<R>)
        ensures
            requests@ == old(self)@,
            final(self)@ == Seq::<R>::empty(),
    {
        if self.spawn_requests.len() == 0 {
            return Vec::new();
        }
        let mut requests: Vec<R> = Vec::new();
        std::mem::swap(&mut requests, &mut self.spawn_requests);
        requests
    }
}

/// Callbacks: queues a spawn request behind those already pending.
pub fn spawn_unit<R>(manager: &mut UnitSpawnManager<R>, spawn_request: R)
    ensures
        final(manager)@ == old(manager)@.push(spawn_request),
{
    manager.spawn_requests.push(spawn_request);
}

/// Spawn requests are processed first in, first out: spawning requests one by
/// one onto a queue leaves the queue followed by the requests, in order, which
/// is what processing then hands back.
pub proof fn lemma_spawn_requests_fifo<R>(pending: Seq<R>, requests: Seq<R>)
    ensures
        after_spawns(pending, requests) == pending + requests,
    decreases requests.len(),
{
    if requests.len() > 0 {
        lemma_spawn_requests_fifo(pending, requests.drop_last());
        assert(pending + requests =~= (pending + requests.drop_last()).push(requests.last()));
    } else {
        assert(pending + requests =~= pending);
    }
}

} // verus!
