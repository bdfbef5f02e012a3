use szaklon::db::auth::{CreateUser, GetUsers, Login};
use szaklon::db::logs::GetLogs;
use szaklon::db::DbExecutor;
use szaklon::dispatch::{DispatchError, DispatchPool, OpReply, OpRequest};

fn get_users_op() -> OpRequest {
    OpRequest::GetUsers(GetUsers)
}

#[test]
fn three_times_n_operations_all_complete_in_per_worker_order() {
    let n: usize = 2;
    let mut pool = DispatchPool::new(n);
    let mut store = DbExecutor::new();

    let mut tickets = Vec::new();
    for _ in 0..3 * n {
        tickets.push(pool.submit(get_users_op()).expect("healthy pool accepts"));
    }

    // round-robin assignment: ids 0..6 alternate between the two workers
    for (i, t) in tickets.iter().enumerate() {
        assert_eq!(t.op_id, i as u64);
        assert_eq!(t.worker, i % n);
    }
    assert_eq!(pool.pending_len(0), 3);
    assert_eq!(pool.pending_len(1), 3);

    let completions = pool.run_until_idle(&mut store);
    assert_eq!(completions.len(), 3 * n);
    assert_eq!(pool.completed_len(0), 3);
    assert_eq!(pool.completed_len(1), 3);
    assert_eq!(pool.pending_len(0), 0);
    assert_eq!(pool.pending_len(1), 0);

    // worker 0 drains first and strictly in submission order, then worker 1
    let ids: Vec<u64> = completions.iter().map(|c| c.op_id).collect();
    assert_eq!(ids, vec![0, 2, 4, 1, 3, 5]);
    for c in completions {
        assert!(matches!(c.outcome, Ok(OpReply::Principals(_))));
    }
}

#[test]
fn step_executes_the_front_operation() {
    let mut pool = DispatchPool::new(1);
    let mut store = DbExecutor::new();
    let t = pool.submit(get_users_op()).expect("healthy pool accepts");
    assert_eq!(pool.pending_len(0), 1);
    let c = pool.step(&mut store, 0);
    assert_eq!(c.op_id, t.op_id);
    assert_eq!(pool.pending_len(0), 0);
    assert_eq!(pool.completed_len(0), 1);
}

#[test]
fn failed_worker_abandons_queue_and_pool_reroutes() {
    let mut pool = DispatchPool::new(2);

    // queue two operations onto worker 0, then lose its connection
    let t0 = pool.submit(get_users_op()).expect("accepted");
    let _t1 = pool.submit(get_users_op()).expect("accepted");
    let t2 = pool.submit(get_users_op()).expect("accepted");
    assert_eq!(t0.worker, 0);
    assert_eq!(t2.worker, 0);
    pool.fail_worker(0);
    assert_eq!(pool.pending_len(0), 0);
    assert_eq!(pool.abandoned_len(0), 2);

    // later submissions avoid the failed worker
    let t3 = pool.submit(get_users_op()).expect("one worker is still healthy");
    assert_eq!(t3.worker, 1);

    let mut store = DbExecutor::new();
    let completions = pool.run_until_idle(&mut store);
    assert_eq!(completions.len(), 2);
    assert_eq!(pool.completed_len(1), 2);
}

#[test]
fn all_workers_failed_is_worker_unavailable() {
    let mut pool = DispatchPool::new(2);
    pool.fail_worker(0);
    pool.fail_worker(1);
    let r = pool.submit(get_users_op());
    assert!(matches!(r, Err(DispatchError::WorkerUnavailable)));
}

#[test]
fn credential_operations_flow_through_the_pool() {
    let mut pool = DispatchPool::new(2);
    let mut store = DbExecutor::new();

    pool.submit(OpRequest::CreateUser(CreateUser {
        name: String::from("ada"),
        password: b"correct horse".to_vec(),
    }))
    .expect("accepted");
    let completions = pool.run_until_idle(&mut store);
    assert_eq!(completions.len(), 1);
    assert!(matches!(completions[0].outcome, Ok(OpReply::Done)));

    pool.submit(OpRequest::Login(Login {
        name: String::from("ada"),
        password: b"correct horse".to_vec(),
        ip_addr: String::from("127.0.0.1"),
        user_agent: String::from("tests"),
    }))
    .expect("accepted");
    let completions = pool.run_until_idle(&mut store);
    assert_eq!(completions.len(), 1);
    match &completions[0].outcome {
        Ok(OpReply::Principal(user)) => {
            assert_eq!(user.login, "ada");
            assert!(user.active);
        },
        other => panic!("expected a principal, got {:?}", other.is_ok()),
    }
    // the login attempt was audited by the worker
    assert_eq!(store.audit.len(), 1);
    assert!(store.audit.records()[0].logging_succession);

    pool.submit(OpRequest::GetLogs(GetLogs)).expect("accepted");
    let completions = pool.run_until_idle(&mut store);
    assert_eq!(completions.len(), 1);
    match &completions[0].outcome {
        Ok(OpReply::Records(records)) => {
            assert_eq!(records.len(), 1);
            assert_eq!(records[0].login, "ada");
            assert!(records[0].logging_succession);
        },
        _ => panic!("expected the audit records"),
    }
}
