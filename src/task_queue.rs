use std::collections::VecDeque;
use std::sync::Arc;

use vstd::prelude::*;
use vstd::rwlock::{RwLock, RwLockPredicate};

verus! {

/// The abstract state of a task queue.
pub ghost struct QueueState {
    /// Workloads not yet taken by a worker, oldest first.
    pub inputs: Seq<String>,
    /// Scored results not yet taken by the client, oldest first.
    pub outputs: Seq<String>,
    /// Whether the client has announced that no more workloads come.
    pub finished: bool,
    /// How many workers are registered.
    pub active: nat,
}

impl QueueState {
    pub open spec fn empty() -> QueueState {
        QueueState { inputs: Seq::empty(), outputs: Seq::empty(), finished: false, active: 0 }
    }

    pub open spec fn enqueue_input(self, w: String) -> QueueState {
        QueueState { inputs: self.inputs.push(w), ..self }
    }

    /// The state after taking the oldest workload, if there is one.
    pub open spec fn dequeue_input(self) -> QueueState {
        if self.inputs.len() > 0 {
            QueueState { inputs: self.inputs.drop_first(), ..self }
        } else {
            self
        }
    }

    pub open spec fn mark_finished(self) -> QueueState {
        QueueState { finished: true, ..self }
    }

    pub open spec fn enqueue_output(self, r: String) -> QueueState {
        QueueState { outputs: self.outputs.push(r), ..self }
    }

    /// The state after taking the oldest result, if there is one.
    pub open spec fn dequeue_output(self) -> QueueState {
        if self.outputs.len() > 0 {
            QueueState { outputs: self.outputs.drop_first(), ..self }
        } else {
            self
        }
    }

    /// Enqueues each of `ws` in order.
    pub open spec fn enqueue_all(self, ws: Seq<String>) -> QueueState
        decreases ws.len(),
    {
        if ws.len() == 0 {
            self
        } else {
            self.enqueue_all(ws.drop_last()).enqueue_input(ws.last())
        }
    }

    /// The workloads that `n` successive dequeues hand out, and the state after them.
    pub open spec fn dequeue_n(self, n: nat) -> (Seq<String>, QueueState)
        decreases n,
    {
        if n == 0 {
            (Seq::empty(), self)
        } else {
            let (taken, s) = self.dequeue_n((n - 1) as nat);
            if s.inputs.len() > 0 {
                (taken.push(s.inputs[0]), s.dequeue_input())
            } else {
                (taken, s)
            }
        }
    }
}

/// The answer of one attempt to take an item from the queue.
pub enum Poll {
    /// The oldest item, now removed from the queue.
    Item(String),
    /// None is there, and none will come.
    Exhausted,
    /// None is there yet: try again later.
    Wait,
}

/// The shared state between the client that feeds workloads and the workers
/// that score them.
pub struct TaskQueue {
    workload: VecDeque<String>,
    response: VecDeque<String>,
    workload_finished: bool,
    active_workers: usize,
}

impl View for TaskQueue {
    type V = QueueState;

    closed spec fn view(&self) -> QueueState {
        QueueState {
            inputs: self.workload@,
            outputs: self.response@,
            finished: self.workload_finished,
            active: self.active_workers as nat,
        }
    }
}

impl TaskQueue {
    /// An empty queue: no workloads, no results, not finished, no workers.
    pub fn new() -> (r: Self)
        ensures
            r@ == QueueState::empty(),
    {
        TaskQueue {
            workload: VecDeque::new(),
            response: VecDeque::new(),
            workload_finished: false,
            active_workers: 0,
        }
    }

    /// Appends a workload.
    pub fn add_workload(&mut self, fen: String)
        ensures
            final(self)@ == old(self)@.enqueue_input(fen),
    {
        self.workload.push_back(fen);
    }

    /// Takes the oldest workload, if there is one.
    pub fn query_workload(&mut self) -> (r: Option<String>)
        ensures
            final(self)@ == old(self)@.dequeue_input(),
            old(self)@.inputs.len() == 0 ==> r is None,
            old(self)@.inputs.len() > 0 ==> r == Some(old(self)@.inputs[0]),
    {
        let r = self.workload.pop_front();
        proof {
            if old(self)@.inputs.len() > 0 {
                assert(self@.inputs =~= old(self)@.inputs.drop_first());
            }
        }
        r
    }

    /// Announces that no more workloads come; doing so again changes nothing.
    pub fn stop_workload(&mut self)
        ensures
            final(self)@ == old(self)@.mark_finished(),
    {
        self.workload_finished = true;
    }

    pub fn is_workload_finished(&self) -> (r: bool)
        ensures
            r == self@.finished,
    {
        self.workload_finished
    }

    /// Appends a scored result.
    pub fn add_response(&mut self, scored_fen: String)
        ensures
            final(self)@ == old(self)@.enqueue_output(scored_fen),
    {
        self.response.push_back(scored_fen)
    }

    /// Takes the oldest scored result, if there is one.
    pub fn query_response(&mut self) -> (r: Option<String>)
        ensures
            final(self)@ == old(self)@.dequeue_output(),
            old(self)@.outputs.len() == 0 ==> r is None,
            old(self)@.outputs.len() > 0 ==> r == Some(old(self)@.outputs[0]),
    {
        let r = self.response.pop_front();
        proof {
            if old(self)@.outputs.len() > 0 {
                assert(self@.outputs =~= old(self)@.outputs.drop_first());
            }
        }
        r
    }

    /// Registers one more worker.
    pub fn add_worker(&mut self)
        requires
            old(self)@.active < usize::MAX,
        ensures
            final(self)@ == (QueueState { active: old(self)@.active + 1, ..old(self)@ }),
    {
        self.active_workers = self.active_workers + 1;
    }

    /// Deregisters a worker.
    pub fn remove_worker(&mut self)
        requires
            old(self)@.active > 0,
        ensures
            final(self)@ == (QueueState { active: (old(self)@.active - 1) as nat, ..old(self)@ }),
    {
        self.active_workers = self.active_workers - 1;
    }

    pub fn no_active_workers(&self) -> (r: bool)
        ensures
            r == (self@.active == 0),
    {
        self.active_workers == 0
    }

    /// The number of registered workers.
    pub fn worker_count(&self) -> (r: usize)
        ensures
            r as nat == self@.active,
    {
        self.active_workers
    }

    /// One attempt of a worker to take a workload: the oldest one if there is
    /// one; else `Exhausted` once the client has finished, `Wait` before.
    pub fn poll_workload(&mut self) -> (r: Poll)
        ensures
            final(self)@ == old(self)@.dequeue_input(),
            old(self)@.inputs.len() > 0 ==> r == Poll::Item(old(self)@.inputs[0]),
            old(self)@.inputs.len() == 0 && old(self)@.finished ==> r is Exhausted,
            old(self)@.inputs.len() == 0 && !old(self)@.finished ==> r is Wait,
    {
        match self.query_workload() {
            Some(w) => Poll::Item(w),
            None => if self.workload_finished {
                Poll::Exhausted
            } else {
                Poll::Wait
            },
        }
    }

    /// One attempt of the client to take a result: the oldest one if there is
    /// one; else `Exhausted` when no worker is registered or `retry` is false,
    /// `Wait` otherwise.
    pub fn poll_response(&mut self, retry: bool) -> (r: Poll)
        ensures
            final(self)@ == old(self)@.dequeue_output(),
            old(self)@.outputs.len() > 0 ==> r == Poll::Item(old(self)@.outputs[0]),
            old(self)@.outputs.len() == 0 ==> (r is Exhausted <==> (old(self)@.active == 0
                || !retry)),
            old(self)@.outputs.len() == 0 ==> (r is Wait <==> (old(self)@.active > 0 && retry)),
    {
        match self.query_response() {
            Some(r) => Poll::Item(r),
            None => if self.active_workers == 0 || !retry {
                Poll::Exhausted
            } else {
                Poll::Wait
            },
        }
    }
}

impl Default for TaskQueue {
    fn default() -> (r: Self)
        ensures
            r@ == QueueState::empty(),
    {
        Self::new()
    }
}

/// What the lock around a task queue demands of the queue it stores: every
/// state of the queue may be stored.
pub struct QueueLockPred;

impl RwLockPredicate<TaskQueue> for QueueLockPred {
    open spec fn inv(self, q: TaskQueue) -> bool {
        true
    }
}

/// A task queue behind one exclusive lock, shared by the client and the workers.
/// Each method takes the lock, performs the `TaskQueue` step of the same name,
/// and releases it. Other threads may act between two calls, so the contents
/// of the queue are stated per step, on `TaskQueue`, and not here.
pub struct SharedQueue {
    lock: RwLock<TaskQueue, QueueLockPred>,
}

impl SharedQueue {
    /// A lock around an empty queue.
    pub fn new() -> (r: SharedQueue) {
        SharedQueue { lock: RwLock::new(TaskQueue::new(), Ghost(QueueLockPred)) }
    }

    /// Appends a workload.
    pub fn add_workload(&self, fen: String) {
        let (mut q, handle) = self.lock.acquire_write();
        q.add_workload(fen);
        handle.release_write(q);
    }

    /// Announces that no more workloads come.
    pub fn stop_workload(&self) {
        let (mut q, handle) = self.lock.acquire_write();
        q.stop_workload();
        handle.release_write(q);
    }

    /// Appends a scored result.
    pub fn add_response(&self, scored_fen: String) {
        let (mut q, handle) = self.lock.acquire_write();
        q.add_response(scored_fen);
        handle.release_write(q);
    }

    /// Registers one more worker, unless the count is at its largest value.
    pub fn add_worker(&self) {
        let (mut q, handle) = self.lock.acquire_write();
        if q.worker_count() < usize::MAX {
            q.add_worker();
        }
        handle.release_write(q);
    }

    /// Deregisters a worker, unless none is registered.
    pub fn remove_worker(&self) {
        let (mut q, handle) = self.lock.acquire_write();
        if !q.no_active_workers() {
            q.remove_worker();
        }
        handle.release_write(q);
    }

    /// One attempt of a worker to take a workload, as `TaskQueue::poll_workload`.
    pub fn poll_workload(&self) -> (r: Poll) {
        let (mut q, handle) = self.lock.acquire_write();
        let r = q.poll_workload();
        handle.release_write(q);
        r
    }

    /// One attempt of the client to take a result, as `TaskQueue::poll_response`.
    pub fn poll_response(&self, retry: bool) -> (r: Poll) {
        let (mut q, handle) = self.lock.acquire_write();
        let r = q.poll_response(retry);
        handle.release_write(q);
        r
    }
}

/// The client side of a shared task queue: feeds workloads and collects results.
pub struct TaskClient {
    queue: Arc<SharedQueue>,
}

impl TaskClient {
    /// The shared queue that this client feeds.
    pub closed spec fn shared(&self) -> Arc<SharedQueue> {
        self.queue
    }

    pub fn new() -> (r: Self) {
        TaskClient { queue: Arc::new(SharedQueue::new()) }
    }

    /// The shared queue, for the workers to hold a reference of their own.
    pub fn queue_ref(&self) -> (r: &Arc<SharedQueue>)
        ensures
            *r == self.shared(),
    {
        &self.queue
    }

    pub fn add_workload(&mut self, fen: String) {
        self.queue.add_workload(fen);
    }

    pub fn stop_workload(&mut self) {
        self.queue.stop_workload();
    }

    /// One attempt to take a result, as `TaskQueue::poll_response`.
    pub fn poll_response(&mut self, retry: bool) -> (r: Poll) {
        self.queue.poll_response(retry)
    }
}

impl Default for TaskClient {
    fn default() -> (r: Self) {
        Self::new()
    }
}

proof fn lemma_enqueue_all(s: QueueState, ws: Seq<String>)
    ensures
        s.enqueue_all(ws) == (QueueState { inputs: s.inputs + ws, ..s }),
    decreases ws.len(),
{
    if ws.len() == 0 {
        assert(s.inputs + ws =~= s.inputs);
    } else {
        lemma_enqueue_all(s, ws.drop_last());
        assert(s.inputs + ws =~= (s.inputs + ws.drop_last()).push(ws.last()));
    }
}

proof fn lemma_dequeue_n(s: QueueState, n: nat)
    ensures
        s.dequeue_n(n).0 + s.dequeue_n(n).1.inputs == s.inputs,
        n <= s.inputs.len() ==> s.dequeue_n(n).0 == s.inputs.take(n as int),
        s.dequeue_n(n).1 == (QueueState { inputs: s.dequeue_n(n).1.inputs, ..s }),
    decreases n,
{
    if n == 0 {
        assert(s.inputs.take(0) =~= Seq::<String>::empty());
        assert(Seq::<String>::empty() + s.inputs =~= s.inputs);
    } else {
        lemma_dequeue_n(s, (n - 1) as nat);
        let (taken, t) = s.dequeue_n((n - 1) as nat);
        if t.inputs.len() > 0 {
            assert(taken.push(t.inputs[0]) + t.inputs.drop_first() =~= taken + t.inputs);
            if n <= s.inputs.len() {
                assert(taken.push(t.inputs[0]) =~= s.inputs.take(n as int));
            }
        } else {
            assert(taken =~= s.inputs);
        }
    }
}

/// Workloads leave the queue in the order in which they were added: from a
/// queue without pending workloads, adding `ws` and then taking as many
/// workloads hands out exactly `ws`.
pub proof fn law_fifo(s: QueueState, ws: Seq<String>)
    requires
        s.inputs.len() == 0,
    ensures
        s.enqueue_all(ws).dequeue_n(ws.len()).0 == ws,
{
    lemma_enqueue_all(s, ws);
    let e = s.enqueue_all(ws);
    lemma_dequeue_n(e, ws.len());
    assert(e.inputs =~= ws);
    assert(ws.take(ws.len() as int) =~= ws);
}

/// No workload is lost or handed out twice: after adding `ws`, the workloads
/// that any number of takes hand out, followed by those still pending, are
/// the pending ones before and then `ws`.
pub proof fn law_each_workload_once(s: QueueState, ws: Seq<String>, n: nat)
    ensures
        s.enqueue_all(ws).dequeue_n(n).0 + s.enqueue_all(ws).dequeue_n(n).1.inputs == s.inputs
            + ws,
{
    lemma_enqueue_all(s, ws);
    lemma_dequeue_n(s.enqueue_all(ws), n);
}

/// Announcing the end of the workloads twice is the same as once, and leaves
/// the queue finished.
pub proof fn law_stop_idempotent(s: QueueState)
    ensures
        s.mark_finished().mark_finished() == s.mark_finished(),
        s.mark_finished().finished,
{
}

} // verus!
