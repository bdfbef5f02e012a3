//! The worker dispatch pool.
//!
//! A fixed set of workers serializes every operation against the backing
//! store: callers submit typed requests, each request is queued to one
//! worker, and each worker executes its queue strictly in submission
//! order — no two operations ever run concurrently on the same store
//! connection. A worker that loses its connection enters a terminal
//! `Failed` state: its queued operations are abandoned and reported, and
//! the pool stops assigning to it, without retrying anything.
//!
//! The pool here is the state machine: which worker holds which
//! operations, in which order they complete, and what each execution
//! does to the store. The boundary layer runs it, performing the actual
//! thread and channel plumbing.

use vstd::prelude::*;

use crate::db::auth::{
    create_err, create_ok, login_attempt_recorded, login_err, login_ok, normalized_of,
    users_after_create, users_after_delete, CreateUser, DeleteAccount, Error, GetUsers, Login,
};
use crate::db::logs::GetLogs;
use crate::db::models::{user_with_login, User, UserLog};
use crate::db::DbExecutor;
use crate::utils::now_millis;

verus! {

/// A typed operation request, one variant per store operation.
pub enum OpRequest {
    CreateUser(CreateUser),
    Login(Login),
    DeleteAccount(DeleteAccount),
    GetUsers(GetUsers),
    GetLogs(GetLogs),
}

/// A typed operation result.
pub enum OpReply {
    /// The operation succeeded and returns nothing.
    Done,
    /// The principal the operation resolved.
    Principal(User),
    /// The principals the operation listed.
    Principals(Vec<User>),
    /// The audit records the operation listed.
    Records(Vec<UserLog>),
}

/// Dispatch-level failures, distinct from the typed errors an operation
/// itself returns.
#[derive(Clone, Copy, PartialEq, Eq, Structural, Debug)]
pub enum DispatchError {
    /// Every worker has failed, or the pool cannot number another
    /// operation; nothing was queued.
    WorkerUnavailable,
    /// The operation ran and returned this typed error.
    OperationFailed(Error),
}

/// An operation waiting in a worker's queue.
pub struct QueuedOp {
    pub op_id: u64,
    pub request: OpRequest,
}

/// Receipt for a submitted operation: its fresh id and the worker that
/// will execute it.
pub struct Ticket {
    pub op_id: u64,
    pub worker: usize,
}

/// A resolved operation: the id it was submitted under and its typed
/// outcome.
pub struct Completion {
    pub op_id: u64,
    pub outcome: Result<OpReply, Error>,
}

/// A worker is idle, executing one operation, or has lost its
/// connection for good.
pub enum WorkerState {
    Idle,
    /// Executing the operation with this id.
    Executing(u64),
    /// Terminal: entered on unrecoverable connection loss, never left.
    Failed,
}

/// The ids of a queue of operations, in queue order.
pub open spec fn ids_of(ops: Seq<QueuedOp>) -> Seq<u64> {
    ops.map_values(|op: QueuedOp| op.op_id)
}

/// The id a state is executing, as a sequence of zero or one ids.
pub open spec fn in_flight(state: WorkerState) -> Seq<u64> {
    match state {
        WorkerState::Executing(id) => seq![id],
        _ => Seq::empty(),
    }
}

/// One worker: its state, its queue, and the history of what it
/// accepted, completed and abandoned, each in order.
pub struct Worker {
    state: WorkerState,
    pending: Vec<QueuedOp>,
    completed: Vec<u64>,
    abandoned: Vec<u64>,
    accepted: Ghost<Seq<u64>>,
}

impl Worker {
    /// Ids of every operation ever queued to this worker, in submission
    /// order.
    pub closed spec fn accepted_ids(&self) -> Seq<u64> {
        self.accepted@
    }

    /// Ids of the operations this worker has executed, in execution
    /// order.
    pub closed spec fn completed_ids(&self) -> Seq<u64> {
        self.completed@
    }

    /// Ids of the operations dropped when the worker failed.
    pub closed spec fn abandoned_ids(&self) -> Seq<u64> {
        self.abandoned@
    }

    /// The operations still waiting, front first.
    pub closed spec fn pending_ops(&self) -> Seq<QueuedOp> {
        self.pending@
    }

    /// The worker's current state.
    pub closed spec fn status(&self) -> WorkerState {
        self.state
    }

    /// Everything accepted is accounted for, in order: first what was
    /// completed, then what is executing, then what still waits, then
    /// what a failure abandoned. A failed worker holds no queue, and
    /// only a failed worker has abandoned anything.
    pub open spec fn wf(&self) -> bool {
        &&& self.accepted_ids() == self.completed_ids() + in_flight(self.status()) + ids_of(
            self.pending_ops(),
        ) + self.abandoned_ids()
        &&& (self.status() is Failed ==> self.pending_ops().len() == 0)
        &&& (self.abandoned_ids().len() > 0 ==> self.status() is Failed)
    }

    /// A fresh, idle worker with an empty history.
    fn new() -> (r: Worker)
        ensures
            r.wf(),
            r.status() is Idle,
            r.pending_ops() =~= Seq::<QueuedOp>::empty(),
            r.completed_ids() =~= Seq::<u64>::empty(),
            r.abandoned_ids() =~= Seq::<u64>::empty(),
            r.accepted_ids() =~= Seq::<u64>::empty(),
    {
        let w = Worker {
            state: WorkerState::Idle,
            pending: Vec::new(),
            completed: Vec::new(),
            abandoned: Vec::new(),
            accepted: Ghost(Seq::empty()),
        };
        assert(w.accepted_ids() =~= w.completed_ids() + in_flight(w.status()) + ids_of(
            w.pending_ops(),
        ) + w.abandoned_ids());
        w
    }

    /// Whether the worker has failed for good.
    fn is_failed(&self) -> (b: bool)
        ensures
            b == (self.status() is Failed),
    {
        match self.state {
            WorkerState::Failed => true,
            _ => false,
        }
    }

    /// Accept one operation at the back of the queue.
    fn enqueue(&mut self, op: QueuedOp)
        requires
            old(self).wf(),
            !(old(self).status() is Failed),
        ensures
            final(self).wf(),
            final(self).pending_ops() == old(self).pending_ops().push(op),
            final(self).accepted_ids() == old(self).accepted_ids().push(op.op_id),
            final(self).completed_ids() == old(self).completed_ids(),
            final(self).abandoned_ids() == old(self).abandoned_ids(),
            final(self).status() == old(self).status(),
    {
        proof {
            assert(old(self).abandoned_ids().len() == 0);
        }
        let ghost id = op.op_id;
        self.pending.push(op);
        proof {
            self.accepted@ = self.accepted@.push(id);
            assert(ids_of(self.pending@) =~= ids_of(old(self).pending@).push(id));
            assert(self.accepted_ids() =~= self.completed_ids() + in_flight(self.status())
                + ids_of(self.pending_ops()) + self.abandoned_ids());
            assert(final(self).pending_ops() =~= old(self).pending_ops().push(op));
        }
    }

    /// Take the front operation out of the queue and start executing it.
    fn begin(&mut self) -> (op: QueuedOp)
        requires
            old(self).wf(),
            old(self).status() is Idle,
            old(self).pending_ops().len() > 0,
        ensures
            final(self).wf(),
            op == old(self).pending_ops()[0],
            final(self).status() == WorkerState::Executing(op.op_id),
            final(self).pending_ops() == old(self).pending_ops().drop_first(),
            final(self).accepted_ids() == old(self).accepted_ids(),
            final(self).completed_ids() == old(self).completed_ids(),
            final(self).abandoned_ids() == old(self).abandoned_ids(),
    {
        let op = self.pending.remove(0);
        self.state = WorkerState::Executing(op.op_id);
        proof {
            assert(self.pending@ =~= old(self).pending@.drop_first());
            assert(ids_of(old(self).pending@) =~= seq![op.op_id] + ids_of(self.pending@));
            assert(self.accepted_ids() =~= self.completed_ids() + in_flight(self.status())
                + ids_of(self.pending_ops()) + self.abandoned_ids());
        }
        op
    }

    /// Record the executing operation as completed and go back to idle.
    fn finish(&mut self, op_id: u64)
        requires
            old(self).wf(),
            old(self).status() == WorkerState::Executing(op_id),
        ensures
            final(self).wf(),
            final(self).status() is Idle,
            final(self).completed_ids() == old(self).completed_ids().push(op_id),
            final(self).pending_ops() == old(self).pending_ops(),
            final(self).accepted_ids() == old(self).accepted_ids(),
            final(self).abandoned_ids() == old(self).abandoned_ids(),
    {
        self.completed.push(op_id);
        self.state = WorkerState::Idle;
        proof {
            assert(self.accepted_ids() =~= self.completed_ids() + in_flight(self.status())
                + ids_of(self.pending_ops()) + self.abandoned_ids());
        }
    }

    /// Enter the terminal failed state: the executing operation, if any,
    /// and everything still queued are abandoned, in order.
    fn fail(&mut self)
        requires
            old(self).wf(),
        ensures
            final(self).wf(),
            final(self).status() is Failed,
            final(self).pending_ops().len() == 0,
            final(self).completed_ids() == old(self).completed_ids(),
            final(self).accepted_ids() == old(self).accepted_ids(),
            final(self).abandoned_ids() == old(self).abandoned_ids() + in_flight(
                old(self).status(),
            ) + ids_of(old(self).pending_ops()),
    {
        match self.state {
            WorkerState::Executing(id) => {
                self.abandoned.push(id);
            },
            _ => (),
        }
        let ghost mid_abandoned = self.abandoned@;
        assert(mid_abandoned =~= old(self).abandoned@ + in_flight(old(self).status()));
        let n = self.pending.len();
        let mut i: usize = 0;
        while i < n
            invariant
                n == self.pending@.len(),
                i <= n,
                self.pending@ == old(self).pending@,
                self.completed@ == old(self).completed@,
                self.accepted@ == old(self).accepted@,
                self.abandoned@ =~= mid_abandoned + ids_of(self.pending@.take(i as int)),
            decreases n - i,
        {
            self.abandoned.push(self.pending[i].op_id);
            proof {
                assert(self.pending@.take(i + 1 as int) =~= self.pending@.take(i as int).push(
                    self.pending@[i as int],
                ));
                assert(ids_of(self.pending@.take(i + 1 as int)) =~= ids_of(
                    self.pending@.take(i as int),
                ).push(self.pending@[i as int].op_id));
                assert(self.abandoned@ =~= mid_abandoned + ids_of(self.pending@.take(i + 1 as int)));
            }
            i += 1;
        }
        assert(self.pending@.take(n as int) =~= self.pending@);
        self.pending.clear();
        self.state = WorkerState::Failed;
        proof {
            assert(self.abandoned_ids() =~= old(self).abandoned_ids() + in_flight(
                old(self).status(),
            ) + ids_of(old(self).pending_ops()));
            assert(self.accepted_ids() =~= self.completed_ids() + in_flight(self.status())
                + ids_of(self.pending_ops()) + self.abandoned_ids());
        }
    }
}

/// Law: a worker executes its operations strictly in the order they
/// were submitted to it — what it has completed is exactly the first
/// part of what it accepted.
pub proof fn lemma_worker_fifo(w: Worker)
    requires
        w.wf(),
    ensures
        w.completed_ids() =~= w.accepted_ids().take(w.completed_ids().len() as int),
{
    assert(w.accepted_ids().take(w.completed_ids().len() as int) =~= w.completed_ids());
}

/// What executing one request does to the store and what it returns,
/// request by request. The login case carries some wall-clock time read
/// during execution.
pub open spec fn execute_post(
    pre: DbExecutor,
    post: DbExecutor,
    request: OpRequest,
    r: Result<OpReply, Error>,
) -> bool {
    match request {
        OpRequest::CreateUser(m) => {
            &&& post.audit == pre.audit
            &&& (r is Ok ==> r->Ok_0 is Done)
            &&& (r is Ok <==> create_ok(pre.users, m.name@, m.password@))
            &&& (r is Ok ==> users_after_create(pre.users, post.users, m.name@, m.password@))
            &&& (r is Err ==> post.users == pre.users)
            &&& (r is Err ==> r->Err_0 == create_err(pre.users, m.name@, m.password@))
        },
        OpRequest::Login(m) => {
            &&& post.users == pre.users
            &&& (exists|t: i64|
                login_attempt_recorded(
                    pre.audit@,
                    post.audit@,
                    m.name@,
                    m.password@,
                    m.ip_addr@,
                    m.user_agent@,
                    t,
                    pre.users@,
                ))
            &&& (r is Ok <==> login_ok(pre.users@, m.name@, m.password@))
            &&& (r is Ok ==> r->Ok_0 is Principal)
            &&& (r is Ok ==> r->Ok_0->Principal_0 == user_with_login(
                pre.users@,
                normalized_of(m.name@),
            ))
            &&& (r is Err ==> r->Err_0 == login_err(pre.users@, m.name@, m.password@))
        },
        OpRequest::DeleteAccount(m) => {
            &&& post.audit == pre.audit
            &&& r is Ok
            &&& (r is Ok ==> r->Ok_0 is Done)
            &&& users_after_delete(pre.users@, post.users@, m.id)
        },
        OpRequest::GetUsers(_m) => {
            &&& post.users == pre.users
            &&& post.audit == pre.audit
            &&& r is Ok
            &&& (r is Ok ==> r->Ok_0 is Principals)
            &&& (r is Ok ==> r->Ok_0->Principals_0@ =~= pre.users@)
        },
        OpRequest::GetLogs(_m) => {
            &&& post.users == pre.users
            &&& post.audit == pre.audit
            &&& r is Ok
            &&& (r is Ok ==> r->Ok_0 is Records)
            &&& (r is Ok ==> r->Ok_0->Records_0@ =~= pre.audit@)
        },
    }
}

/// Execute one request against the store a worker owns. This is the
/// whole body of a worker's turn: strictly sequential with everything
/// else the same worker does.
fn execute_request(store: &mut DbExecutor, request: OpRequest) -> (r: Result<OpReply, Error>)
    requires
        old(store).wf(),
    ensures
        final(store).wf(),
        execute_post(*old(store), *final(store), request, r),
{
    match request {
        OpRequest::CreateUser(m) => match store.handle_create_user(m) {
            Ok(_) => Ok(OpReply::Done),
            Err(e) => Err(e),
        },
        OpRequest::Login(m) => {
            let now = now_millis();
            match store.handle_login(m, now) {
                Ok(user) => Ok(OpReply::Principal(user)),
                Err(e) => Err(e),
            }
        },
        OpRequest::DeleteAccount(m) => match store.handle_delete_account(m) {
            Ok(_) => Ok(OpReply::Done),
            Err(e) => Err(e),
        },
        OpRequest::GetUsers(m) => match store.handle_get_users(m) {
            Ok(list) => Ok(OpReply::Principals(list)),
            Err(e) => Err(e),
        },
        OpRequest::GetLogs(m) => Ok(OpReply::Records(store.handle_get_logs(m))),
    }
}

/// What one worker contributes to a drain of the whole pool: its queue,
/// unless it has failed.
pub open spec fn drain_contrib(w: Worker) -> Seq<QueuedOp> {
    if w.status() is Failed {
        Seq::empty()
    } else {
        w.pending_ops()
    }
}

/// The operations a drain of the pool executes: every healthy worker's
/// queue, in worker order, each queue front first.
pub open spec fn drained_requests(ws: Seq<Worker>) -> Seq<QueuedOp>
    decreases ws.len(),
{
    if ws.len() == 0 {
        Seq::empty()
    } else {
        drain_contrib(ws[0]) + drained_requests(ws.drop_first())
    }
}

/// The store was driven from `pre` to `post` by executing `ops` in
/// order: `states` lists the store before and after each execution, and
/// the completion at each position answers the operation at that
/// position — matching id, and an outcome tied by `execute_post` to the
/// store state the operation ran against.
pub open spec fn execution_chain(
    pre: DbExecutor,
    post: DbExecutor,
    states: Seq<DbExecutor>,
    ops: Seq<QueuedOp>,
    cs: Seq<Completion>,
) -> bool {
    &&& states.len() == ops.len() + 1
    &&& cs.len() == ops.len()
    &&& states[0] == pre
    &&& states[states.len() - 1] == post
    &&& forall|i: int|
        #![trigger ops[i]]
        0 <= i < ops.len() ==> {
            &&& execute_post(states[i], states[i + 1], ops[i].request, cs[i].outcome)
            &&& cs[i].op_id == ops[i].op_id
        }
}

/// Taking one more worker into a drain appends exactly that worker's
/// contribution.
proof fn lemma_drained_take_snoc(ws: Seq<Worker>, w: int)
    requires
        0 <= w < ws.len(),
    ensures
        drained_requests(ws.take(w + 1)) == drained_requests(ws.take(w)) + drain_contrib(ws[w]),
    decreases w,
{
    if w == 0 {
        assert(ws.take(1).len() == 1);
        assert(ws.take(1)[0] == ws[0]);
        assert(ws.take(1).drop_first() =~= Seq::<Worker>::empty());
        assert(drained_requests(ws.take(1)) == drain_contrib(ws[0]) + drained_requests(
            Seq::empty(),
        ));
        assert(ws.take(0) =~= Seq::<Worker>::empty());
        assert(drain_contrib(ws[0]) + Seq::empty() =~= drain_contrib(ws[0]));
        assert(Seq::empty() + drain_contrib(ws[0]) =~= drain_contrib(ws[0]));
    } else {
        let tl = ws.drop_first();
        lemma_drained_take_snoc(tl, w - 1);
        assert(tl[w - 1] == ws[w]);
        assert(ws.take(w + 1).len() == w + 1);
        assert(ws.take(w + 1)[0] == ws[0]);
        assert(ws.take(w + 1).drop_first() =~= tl.take(w));
        assert(drained_requests(ws.take(w + 1)) == drain_contrib(ws[0]) + drained_requests(
            tl.take(w),
        ));
        assert(ws.take(w).len() == w);
        assert(ws.take(w)[0] == ws[0]);
        assert(ws.take(w).drop_first() =~= tl.take(w - 1));
        assert(drained_requests(ws.take(w)) == drain_contrib(ws[0]) + drained_requests(
            tl.take(w - 1),
        ));
        assert(drain_contrib(ws[0]) + (drained_requests(tl.take(w - 1)) + drain_contrib(tl[w - 1]))
            =~= (drain_contrib(ws[0]) + drained_requests(tl.take(w - 1))) + drain_contrib(
            tl[w - 1],
        ));
    }
}

/// The dispatch pool: a fixed set of workers and a round-robin cursor.
/// Submission queues to the cursor's worker when it is healthy, else to
/// the first healthy worker; queues are unbounded, so load queues rather
/// than being rejected.
pub struct DispatchPool {
    workers: Vec<Worker>,
    next_worker: usize,
    next_op_id: u64,
}

impl DispatchPool {
    /// The pool's workers.
    pub closed spec fn workers_seq(&self) -> Seq<Worker> {
        self.workers@
    }

    /// How many workers the pool was configured with.
    pub open spec fn worker_count(&self) -> int {
        self.workers_seq().len() as int
    }

    /// The id the next accepted operation will get.
    pub closed spec fn next_op(&self) -> int {
        self.next_op_id as int
    }

    /// The round-robin cursor.
    pub closed spec fn cursor(&self) -> int {
        self.next_worker as int
    }

    /// Every worker has failed; nothing can be submitted any more.
    pub open spec fn all_failed(&self) -> bool {
        forall|w: int|
            0 <= w < self.worker_count() ==> (#[trigger] self.workers_seq()[w]).status() is Failed
    }

    /// At least one worker, a cursor in range, well-formed workers, and
    /// every id ever accepted lies below the id counter, so fresh ids
    /// never collide.
    pub open spec fn wf(&self) -> bool {
        &&& self.worker_count() >= 1
        &&& 0 <= self.cursor() < self.worker_count()
        &&& forall|w: int| 0 <= w < self.worker_count() ==> (#[trigger] self.workers_seq()[w]).wf()
        &&& forall|w: int, i: int|
            0 <= w < self.worker_count() && 0 <= i < self.workers_seq()[w].accepted_ids().len()
                ==> #[trigger] self.workers_seq()[w].accepted_ids()[i] < self.next_op()
    }

    /// Worker `w` is idle with work waiting.
    pub open spec fn worker_ready(&self, w: int) -> bool {
        &&& self.workers_seq()[w].status() is Idle
        &&& self.workers_seq()[w].pending_ops().len() > 0
    }

    /// A pool of `n` idle workers with empty histories.
    pub fn new(n: usize) -> (r: DispatchPool)
        requires
            n >= 1,
        ensures
            r.wf(),
            r.worker_count() == n,
            r.next_op() == 0,
            forall|w: int|
                0 <= w < n ==> {
                    &&& (#[trigger] r.workers_seq()[w]).status() is Idle
                    &&& r.workers_seq()[w].pending_ops().len() == 0
                    &&& r.workers_seq()[w].accepted_ids().len() == 0
                    &&& r.workers_seq()[w].completed_ids().len() == 0
                },
    {
        let mut workers: Vec<Worker> = Vec::new();
        let mut i: usize = 0;
        while i < n
            invariant
                i <= n,
                workers@.len() == i,
                forall|w: int|
                    0 <= w < i ==> {
                        &&& (#[trigger] workers@[w]).wf()
                        &&& workers@[w].status() is Idle
                        &&& workers@[w].pending_ops().len() == 0
                        &&& workers@[w].accepted_ids().len() == 0
                        &&& workers@[w].completed_ids().len() == 0
                    },
            decreases n - i,
        {
            workers.push(Worker::new());
            i += 1;
        }
        DispatchPool { workers, next_worker: 0, next_op_id: 0 }
    }

    /// How many workers the pool holds.
    pub fn num_workers(&self) -> (n: usize)
        ensures
            n == self.worker_count(),
    {
        self.workers.len()
    }

    /// Submit an operation. It is queued, under a fresh id, to the
    /// cursor's worker when that one is healthy and otherwise to the
    /// first healthy worker; with no healthy worker left (or the id
    /// space exhausted) nothing is queued and the caller gets
    /// `WorkerUnavailable`. The queue is unbounded: a loaded pool queues,
    /// it never drops.
    pub fn submit(&mut self, request: OpRequest) -> (r: Result<Ticket, DispatchError>)
        requires
            old(self).wf(),
        ensures
            final(self).wf(),
            r is Err ==> {
                &&& r->Err_0 is WorkerUnavailable
                &&& *final(self) == *old(self)
            },
            (r is Err <==> (old(self).all_failed() || old(self).next_op() == u64::MAX as int)),
            r is Ok ==> {
                let t = r->Ok_0;
                &&& 0 <= t.worker < old(self).worker_count()
                &&& !(old(self).workers_seq()[t.worker as int].status() is Failed)
                &&& t.op_id == old(self).next_op()
                &&& final(self).worker_count() == old(self).worker_count()
                &&& (forall|j: int|
                    0 <= j < old(self).worker_count() && j != t.worker
                        ==> final(self).workers_seq()[j] == old(self).workers_seq()[j])
                &&& final(self).workers_seq()[t.worker as int].pending_ops() == old(
                    self,
                ).workers_seq()[t.worker as int].pending_ops().push(
                    (QueuedOp { op_id: t.op_id, request }),
                )
                &&& final(self).workers_seq()[t.worker as int].accepted_ids() == old(
                    self,
                ).workers_seq()[t.worker as int].accepted_ids().push(t.op_id)
                &&& final(self).workers_seq()[t.worker as int].completed_ids() == old(
                    self,
                ).workers_seq()[t.worker as int].completed_ids()
                &&& final(self).workers_seq()[t.worker as int].status() == old(
                    self,
                ).workers_seq()[t.worker as int].status()
                &&& final(self).next_op() == old(self).next_op() + 1
            },
    {
        if self.next_op_id == u64::MAX {
            assert(old(self).next_op() == u64::MAX as int);
            return Err(DispatchError::WorkerUnavailable);
        }

        let n = self.workers.len();
        let mut idx = self.next_worker;
        if self.workers[idx].is_failed() {
            let mut i: usize = 0;
            let mut found: usize = n;
            while i < n
                invariant
                    self == old(self),
                    n == self.workers@.len(),
                    i <= n,
                    found <= n,
                    found == n ==> forall|j: int|
                        0 <= j < i ==> (#[trigger] self.workers@[j]).status() is Failed,
                    found < n ==> !(self.workers@[found as int].status() is Failed),
                decreases n - i,
            {
                if found == n && !self.workers[i].is_failed() {
                    found = i;
                }
                i += 1;
            }
            if found == n {
                assert(old(self).all_failed());
                return Err(DispatchError::WorkerUnavailable);
            }
            idx = found;
        }
        assert(!(self.workers@[idx as int].status() is Failed));
        assert(!old(self).all_failed());

        let op_id = self.next_op_id;
        let mut worker = self.workers.remove(idx);
        worker.enqueue(QueuedOp { op_id, request });
        self.workers.insert(idx, worker);
        assert(self.workers@ =~= old(self).workers@.update(idx as int, worker));
        self.next_op_id = op_id + 1;
        self.next_worker = if idx + 1 < n {
            idx + 1
        } else {
            0
        };
        Ok(Ticket { op_id, worker: idx })
    }

    /// Report worker `w`'s connection as lost for good: the worker
    /// enters the terminal failed state, its queued operations are
    /// abandoned, and the pool never assigns to it again. Nothing is
    /// retried.
    pub fn fail_worker(&mut self, w: usize)
        requires
            old(self).wf(),
            w < old(self).worker_count(),
        ensures
            final(self).wf(),
            final(self).worker_count() == old(self).worker_count(),
            final(self).next_op() == old(self).next_op(),
            forall|j: int|
                0 <= j < old(self).worker_count() && j != w ==> final(self).workers_seq()[j] == old(
                    self,
                ).workers_seq()[j],
            final(self).workers_seq()[w as int].status() is Failed,
            final(self).workers_seq()[w as int].pending_ops().len() == 0,
            final(self).workers_seq()[w as int].completed_ids() == old(self).workers_seq()[
                w as int].completed_ids(),
            final(self).workers_seq()[w as int].accepted_ids() == old(self).workers_seq()[
                w as int].accepted_ids(),
            final(self).workers_seq()[w as int].abandoned_ids() == old(self).workers_seq()[
                w as int].abandoned_ids() + in_flight(old(self).workers_seq()[w as int].status())
                + ids_of(old(self).workers_seq()[w as int].pending_ops()),
    {
        let mut worker = self.workers.remove(w);
        worker.fail();
        self.workers.insert(w, worker);
        assert(self.workers@ =~= old(self).workers@.update(w as int, worker));
    }

    /// Execute the front operation of worker `w` to completion. The
    /// worker passes through the executing state and returns to idle;
    /// nothing else in the pool moves.
    pub fn step(&mut self, store: &mut DbExecutor, w: usize) -> (c: Completion)
        requires
            old(self).wf(),
            old(store).wf(),
            w < old(self).worker_count(),
            old(self).worker_ready(w as int),
        ensures
            final(self).wf(),
            final(store).wf(),
            final(self).worker_count() == old(self).worker_count(),
            final(self).next_op() == old(self).next_op(),
            forall|j: int|
                0 <= j < old(self).worker_count() && j != w ==> final(self).workers_seq()[j] == old(
                    self,
                ).workers_seq()[j],
            final(self).workers_seq()[w as int].status() is Idle,
            final(self).workers_seq()[w as int].pending_ops() == old(self).workers_seq()[
                w as int].pending_ops().drop_first(),
            final(self).workers_seq()[w as int].completed_ids() == old(self).workers_seq()[
                w as int].completed_ids().push(c.op_id),
            final(self).workers_seq()[w as int].accepted_ids() == old(self).workers_seq()[
                w as int].accepted_ids(),
            final(self).workers_seq()[w as int].abandoned_ids() == old(self).workers_seq()[
                w as int].abandoned_ids(),
            c.op_id == old(self).workers_seq()[w as int].pending_ops()[0].op_id,
            execute_post(
                *old(store),
                *final(store),
                old(self).workers_seq()[w as int].pending_ops()[0].request,
                c.outcome,
            ),
    {
        let mut worker = self.workers.remove(w);
        let op = worker.begin();
        let QueuedOp { op_id, request } = op;
        let outcome = execute_request(store, request);
        worker.finish(op_id);
        self.workers.insert(w, worker);
        assert(self.workers@ =~= old(self).workers@.update(w as int, worker));
        Completion { op_id, outcome }
    }

    /// Run every healthy worker's queue to exhaustion, worker by worker,
    /// each strictly in submission order. Afterwards every operation a
    /// healthy worker ever accepted has been completed, in acceptance
    /// order; failed workers are untouched. The returned completions,
    /// in execution order, answer exactly the drained operations: the
    /// execution chain drives the store through one real execution per
    /// drained operation and ties each completion's id and outcome to
    /// the store state its operation ran against.
    pub fn run_until_idle(&mut self, store: &mut DbExecutor) -> (cs: Vec<Completion>)
        requires
            old(self).wf(),
            old(store).wf(),
            forall|j: int|
                0 <= j < old(self).worker_count() ==> !((#[trigger] old(self).workers_seq()[
                j]).status() is Executing),
        ensures
            final(self).wf(),
            final(store).wf(),
            final(self).worker_count() == old(self).worker_count(),
            exists|states: Seq<DbExecutor>|
                #[trigger] execution_chain(
                    *old(store),
                    *final(store),
                    states,
                    drained_requests(old(self).workers_seq()),
                    cs@,
                ),
            forall|j: int|
                0 <= j < old(self).worker_count() && (old(self).workers_seq()[
                j]).status() is Failed ==> final(self).workers_seq()[j] == old(self).workers_seq()[
                j],
            forall|j: int|
                0 <= j < old(self).worker_count() && !((#[trigger] old(self).workers_seq()[
                j]).status() is Failed) ==> {
                    &&& final(self).workers_seq()[j].status() is Idle
                    &&& final(self).workers_seq()[j].pending_ops().len() == 0
                    &&& final(self).workers_seq()[j].accepted_ids() == old(self).workers_seq()[
                        j].accepted_ids()
                    &&& final(self).workers_seq()[j].completed_ids() == final(self).workers_seq()[
                        j].accepted_ids()
                },
    {
        let mut cs: Vec<Completion> = Vec::new();
        let ghost mut states: Seq<DbExecutor> = seq![*store];
        proof {
            assert(old(self).workers_seq().take(0) =~= Seq::<Worker>::empty());
        }
        let n = self.workers.len();
        let mut w: usize = 0;
        while w < n
            invariant
                n == self.worker_count(),
                n == old(self).worker_count(),
                w <= n,
                self.wf(),
                store.wf(),
                forall|j: int|
                    0 <= j < n ==> !((#[trigger] old(self).workers_seq()[
                    j]).status() is Executing),
                self.next_op() == old(self).next_op(),
                execution_chain(
                    *old(store),
                    *store,
                    states,
                    drained_requests(old(self).workers_seq().take(w as int)),
                    cs@,
                ),
                forall|j: int| w <= j < n ==> self.workers_seq()[j] == old(self).workers_seq()[j],
                forall|j: int|
                    0 <= j < w && (old(self).workers_seq()[j]).status() is Failed ==> self
                        .workers_seq()[j] == old(self).workers_seq()[j],
                forall|j: int|
                    0 <= j < w && !((#[trigger] old(self).workers_seq()[j]).status() is Failed)
                        ==> {
                        &&& self.workers_seq()[j].status() is Idle
                        &&& self.workers_seq()[j].pending_ops().len() == 0
                        &&& self.workers_seq()[j].accepted_ids() == old(self).workers_seq()[
                            j].accepted_ids()
                        &&& self.workers_seq()[j].completed_ids() == self.workers_seq()[
                            j].accepted_ids()
                    },
            decreases n - w,
        {
            let ghost prefix = drained_requests(old(self).workers_seq().take(w as int));
            if !self.workers[w].is_failed() {
                assert(self.workers_seq()[w as int] == old(self).workers_seq()[w as int]);
                assert(!(self.workers_seq()[w as int].status() is Executing));
                assert(self.workers_seq()[w as int].status() is Idle);
                let ghost entry = *self;
                let ghost queue = entry.workers_seq()[w as int].pending_ops();
                proof {
                    assert(queue.take(0) =~= Seq::<QueuedOp>::empty());
                    assert(prefix + queue.take(0) =~= prefix);
                }
                let mut remaining = self.pending_len(w);
                while remaining > 0
                    invariant
                        self.wf(),
                        store.wf(),
                        w < n,
                        n == self.worker_count(),
                        n == entry.worker_count(),
                        self.next_op() == entry.next_op(),
                        queue == entry.workers_seq()[w as int].pending_ops(),
                        remaining <= queue.len(),
                        remaining == self.workers_seq()[w as int].pending_ops().len(),
                        self.workers_seq()[w as int].pending_ops() == queue.skip(
                            queue.len() - remaining,
                        ),
                        self.workers_seq()[w as int].status() is Idle,
                        self.workers_seq()[w as int].accepted_ids() == entry.workers_seq()[
                            w as int].accepted_ids(),
                        execution_chain(
                            *old(store),
                            *store,
                            states,
                            prefix + queue.take(queue.len() - remaining),
                            cs@,
                        ),
                        forall|j: int|
                            0 <= j < n && j != w ==> self.workers_seq()[j] == entry.workers_seq()[
                                j],
                    decreases remaining,
                {
                    let ghost done = queue.len() - remaining;
                    let ghost processed = prefix + queue.take(done);
                    let ghost states_pre = states;
                    let ghost cs_pre = cs@;
                    let ghost store_pre = *store;
                    assert(self.workers_seq()[w as int].pending_ops()[0] == queue[done]);
                    let c = self.step(store, w);
                    cs.push(c);
                    proof {
                        states = states.push(*store);
                        let processed_now = prefix + queue.take(done + 1);
                        assert(queue.take(done + 1) =~= queue.take(done).push(queue[done]));
                        assert(processed.push(queue[done]) =~= processed_now);
                        assert(states_pre[states_pre.len() - 1] == store_pre);
                        assert forall|i: int| 0 <= i < processed_now.len() implies {
                            &&& execute_post(
                                states[i],
                                states[i + 1],
                                processed_now[i].request,
                                cs@[i].outcome,
                            )
                            &&& cs@[i].op_id == processed_now[i].op_id
                        } by {
                            if i < processed.len() {
                                assert(processed_now[i] == processed[i]);
                                assert(states[i] == states_pre[i]);
                                assert(states[i + 1] == states_pre[i + 1]);
                                assert(cs@[i] == cs_pre[i]);
                            } else {
                                assert(i == processed.len());
                                assert(processed_now[i] == queue[done]);
                                assert(states[i] == store_pre);
                                assert(states[i + 1] == *store);
                                assert(cs@[i] == c);
                            }
                        };
                        assert(execution_chain(*old(store), *store, states, processed_now, cs@));
                        assert(self.workers_seq()[w as int].pending_ops() =~= queue.skip(done + 1));
                    }
                    remaining -= 1;
                }
                proof {
                    let wi = w as int;
                    let ws = self.workers_seq()[wi];
                    assert(ws.pending_ops().len() == 0);
                    assert(ws.abandoned_ids().len() == 0);
                    assert(ws.accepted_ids() =~= ws.completed_ids() + in_flight(ws.status())
                        + ids_of(ws.pending_ops()) + ws.abandoned_ids());
                    assert(ws.completed_ids() =~= ws.accepted_ids());
                    lemma_drained_take_snoc(old(self).workers_seq(), wi);
                    assert(queue.take(queue.len() as int) =~= queue);
                    assert(prefix + queue == drained_requests(
                        old(self).workers_seq().take(wi + 1),
                    ));
                }
            } else {
                proof {
                    lemma_drained_take_snoc(old(self).workers_seq(), w as int);
                    assert(drain_contrib(old(self).workers_seq()[w as int])
                        =~= Seq::<QueuedOp>::empty());
                    assert(prefix + Seq::<QueuedOp>::empty() =~= prefix);
                    assert(drained_requests(old(self).workers_seq().take(w + 1 as int)) == prefix);
                }
            }
            w += 1;
        }
        proof {
            assert(old(self).workers_seq().take(n as int) =~= old(self).workers_seq());
            assert(execution_chain(
                *old(store),
                *store,
                states,
                drained_requests(old(self).workers_seq()),
                cs@,
            ));
        }
        cs
    }

    /// Queue length of worker `w`.
    pub fn pending_len(&self, w: usize) -> (k: usize)
        requires
            w < self.worker_count(),
        ensures
            k == self.workers_seq()[w as int].pending_ops().len(),
    {
        self.workers[w].pending.len()
    }

    /// How many operations worker `w` has completed.
    pub fn completed_len(&self, w: usize) -> (k: usize)
        requires
            w < self.worker_count(),
        ensures
            k == self.workers_seq()[w as int].completed_ids().len(),
    {
        self.workers[w].completed.len()
    }

    /// Whether worker `w` has failed for good.
    pub fn worker_failed(&self, w: usize) -> (b: bool)
        requires
            w < self.worker_count(),
        ensures
            b == (self.workers_seq()[w as int].status() is Failed),
    {
        self.workers[w].is_failed()
    }

    /// How many operations worker `w` abandoned when it failed.
    pub fn abandoned_len(&self, w: usize) -> (k: usize)
        requires
            w < self.worker_count(),
        ensures
            k == self.workers_seq()[w as int].abandoned_ids().len(),
    {
        self.workers[w].abandoned.len()
    }
}

} // verus!
