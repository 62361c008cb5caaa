use std::sync::{Arc, Mutex};
use std::time::{Duration, Instant};

use service_core::model::{Dispatch, JobOutcome, WorkerState};
use service_core::pool::{PoolError, ThreadPool};

type Job = Box<dyn FnOnce() + Send + 'static>;

/// Lets every idle worker take and run jobs until the queue is empty or
/// only terminate messages are left for workers that have exited.
fn run_until_idle(pool: &mut ThreadPool<Job>) -> usize {
    let mut ran = 0;
    loop {
        let mut progressed = false;
        for id in 0..pool.size() {
            if pool.state_of(id) != WorkerState::Idle {
                continue;
            }
            match pool.dispatch(id) {
                Dispatch::Run(job) => {
                    job();
                    pool.finish(id, JobOutcome::Completed);
                    ran += 1;
                    progressed = true;
                }
                Dispatch::Exit => progressed = true,
                Dispatch::Wait => {}
            }
        }
        if !progressed {
            return ran;
        }
    }
}

fn release(pool: &mut ThreadPool<Job>) {
    pool.shut_down();
    run_until_idle(pool);
    assert!(pool.is_drained());
}

#[test]
fn test_thread_pool_creation() {
    let pool: ThreadPool<Job> = ThreadPool::new(4).unwrap();
    assert_eq!(pool.size(), 4);
}

#[test]
fn zero_size_is_invalid_configuration() {
    let pool: Result<ThreadPool<Job>, PoolError> = ThreadPool::new(0);
    assert_eq!(pool.err(), Some(PoolError::InvalidConfiguration));
}

#[test]
fn every_size_gives_that_many_idle_workers() {
    for size in 1..=16 {
        let pool: ThreadPool<Job> = ThreadPool::new(size).unwrap();
        assert_eq!(pool.size(), size);
        for id in 0..size {
            assert_eq!(pool.state_of(id), WorkerState::Idle);
        }
        assert_eq!(pool.queued(), 0);
        assert!(!pool.is_terminating());
    }
}

#[test]
fn test_job_execution() {
    let mut pool: ThreadPool<Job> = ThreadPool::new(2).unwrap();
    let result = Arc::new(Mutex::new(Vec::new()));
    let result_clone = Arc::clone(&result);

    pool.execute(Box::new(move || {
        result_clone.lock().unwrap().push(1);
    }))
    .unwrap();

    run_until_idle(&mut pool);

    let final_result = result.lock().unwrap();
    assert_eq!(*final_result, vec![1]);
}

#[test]
fn test_multiple_jobs_execution() {
    let mut pool: ThreadPool<Job> = ThreadPool::new(4).unwrap();
    let counter = Arc::new(Mutex::new(0));

    for _ in 0..10 {
        let counter_clone = Arc::clone(&counter);
        pool.execute(Box::new(move || {
            let mut num = counter_clone.lock().unwrap();
            *num += 1;
        }))
        .unwrap();
    }

    run_until_idle(&mut pool);

    let final_count = *counter.lock().unwrap();
    assert_eq!(final_count, 10);
}

#[test]
fn test_concurrent_job_execution() {
    let mut pool: ThreadPool<Job> = ThreadPool::new(3).unwrap();
    let shared_data = Arc::new(Mutex::new(Vec::new()));

    for i in 0..5 {
        let data_clone = Arc::clone(&shared_data);
        pool.execute(Box::new(move || {
            data_clone.lock().unwrap().push(i);
        }))
        .unwrap();
    }

    run_until_idle(&mut pool);

    let final_data = shared_data.lock().unwrap();
    assert_eq!(final_data.len(), 5);
    for i in 0..5 {
        assert!(final_data.contains(&i));
    }
}

#[test]
fn test_thread_pool_drop() {
    let mut pool: ThreadPool<Job> = ThreadPool::new(2).unwrap();
    let executed = Arc::new(Mutex::new(false));
    let executed_clone = Arc::clone(&executed);

    pool.execute(Box::new(move || {
        *executed_clone.lock().unwrap() = true;
    }))
    .unwrap();

    release(&mut pool);

    assert!(*executed.lock().unwrap());
}

#[test]
fn test_worker_thread_execution() {
    let mut pool: ThreadPool<Job> = ThreadPool::new(1).unwrap();
    let start_time = Instant::now();
    let duration_result = Arc::new(Mutex::new(None));
    let duration_clone = Arc::clone(&duration_result);

    pool.execute(Box::new(move || {
        let elapsed = start_time.elapsed();
        *duration_clone.lock().unwrap() = Some(elapsed);
    }))
    .unwrap();

    run_until_idle(&mut pool);

    let duration = duration_result.lock().unwrap();
    assert!(duration.is_some());
    assert!(duration.unwrap() < Duration::from_millis(200));
}

#[test]
fn ten_increments_on_two_workers_count_ten() {
    let mut pool: ThreadPool<Job> = ThreadPool::new(2).unwrap();
    let counter = Arc::new(Mutex::new(0u32));
    for _ in 0..10 {
        let c = Arc::clone(&counter);
        pool.execute(Box::new(move || *c.lock().unwrap() += 1)).unwrap();
    }
    // Interleave the two workers: each takes one job before either runs it.
    let mut in_hand = Vec::new();
    loop {
        for id in 0..2 {
            if let Dispatch::Run(job) = pool.dispatch(id) {
                in_hand.push((id, job));
            }
        }
        if in_hand.is_empty() {
            break;
        }
        for (id, job) in in_hand.drain(..).rev() {
            job();
            pool.finish(id, JobOutcome::Completed);
        }
    }
    assert_eq!(*counter.lock().unwrap(), 10);
    release(&mut pool);
}

#[test]
fn one_worker_runs_the_fast_job_after_the_slow_one() {
    let mut pool: ThreadPool<Job> = ThreadPool::new(1).unwrap();
    let log = Arc::new(Mutex::new(Vec::new()));
    let slow_log = Arc::clone(&log);
    pool.execute(Box::new(move || {
        slow_log.lock().unwrap().push("slow start");
        let until = Instant::now() + Duration::from_millis(20);
        while Instant::now() < until {}
        slow_log.lock().unwrap().push("slow end");
    }))
    .unwrap();
    let fast_log = Arc::clone(&log);
    pool.execute(Box::new(move || fast_log.lock().unwrap().push("fast start")))
        .unwrap();

    let slow = match pool.dispatch(0) {
        Dispatch::Run(job) => job,
        _ => panic!("the slow job should be handed out first"),
    };
    // The only worker is busy: the fast job stays queued.
    assert_eq!(pool.state_of(0), WorkerState::Busy);
    assert_eq!(pool.queued(), 1);
    slow();
    pool.finish(0, JobOutcome::Completed);
    match pool.dispatch(0) {
        Dispatch::Run(job) => job(),
        _ => panic!("the fast job should follow"),
    }
    pool.finish(0, JobOutcome::Completed);
    assert_eq!(*log.lock().unwrap(), vec!["slow start", "slow end", "fast start"]);
}

#[test]
fn release_waits_for_the_job_in_flight() {
    let mut pool: ThreadPool<Job> = ThreadPool::new(1).unwrap();
    let done = Arc::new(Mutex::new(false));
    let d = Arc::clone(&done);
    pool.execute(Box::new(move || *d.lock().unwrap() = true)).unwrap();
    let job = match pool.dispatch(0) {
        Dispatch::Run(job) => job,
        _ => panic!("the job should be handed out"),
    };
    pool.shut_down();
    assert!(pool.is_terminating());
    assert_eq!(pool.queued(), 1);
    assert!(!pool.is_drained());
    job();
    pool.finish(0, JobOutcome::Completed);
    assert!(!pool.is_drained());
    assert!(matches!(pool.dispatch(0), Dispatch::Exit));
    assert_eq!(pool.state_of(0), WorkerState::Exited);
    assert!(pool.is_drained());
    assert!(*done.lock().unwrap());
}

#[test]
fn teardown_runs_every_queued_job_first() {
    let mut pool: ThreadPool<Job> = ThreadPool::new(3).unwrap();
    let counter = Arc::new(Mutex::new(0u32));
    for _ in 0..7 {
        let c = Arc::clone(&counter);
        pool.execute(Box::new(move || *c.lock().unwrap() += 1)).unwrap();
    }
    pool.shut_down();
    assert_eq!(pool.queued(), 10);
    let ran = run_until_idle(&mut pool);
    assert_eq!(ran, 7);
    assert!(pool.is_drained());
    assert_eq!(pool.queued(), 0);
    assert_eq!(*counter.lock().unwrap(), 7);
}

#[test]
fn submit_after_teardown_is_disconnected() {
    let mut pool: ThreadPool<Job> = ThreadPool::new(2).unwrap();
    pool.shut_down();
    assert_eq!(pool.queued(), 2);
    let r = pool.execute(Box::new(|| {}));
    assert_eq!(r.err(), Some(PoolError::Disconnected));
    assert_eq!(pool.queued(), 2);
    // A second call sends no more terminate messages.
    pool.shut_down();
    assert_eq!(pool.queued(), 2);
}

#[test]
fn a_faulted_job_leaves_its_worker_serving() {
    let mut pool: ThreadPool<u32> = ThreadPool::new(1).unwrap();
    pool.execute(1).unwrap();
    pool.execute(2).unwrap();
    assert!(matches!(pool.dispatch(0), Dispatch::Run(1)));
    pool.finish(0, JobOutcome::Faulted);
    assert_eq!(pool.state_of(0), WorkerState::Idle);
    assert!(matches!(pool.dispatch(0), Dispatch::Run(2)));
    pool.finish(0, JobOutcome::Completed);
    pool.execute(3).unwrap();
    assert!(matches!(pool.dispatch(0), Dispatch::Run(3)));
}

#[test]
fn jobs_are_handed_out_in_submission_order_to_distinct_workers() {
    let mut pool: ThreadPool<u32> = ThreadPool::new(3).unwrap();
    for j in 10..15 {
        pool.execute(j).unwrap();
    }
    let mut seen = Vec::new();
    for id in 0..3 {
        if let Dispatch::Run(j) = pool.dispatch(id) {
            seen.push(j);
        }
    }
    assert_eq!(seen, vec![10, 11, 12]);
    assert_eq!(pool.queued(), 2);
    pool.finish(0, JobOutcome::Completed);
    assert!(matches!(pool.dispatch(0), Dispatch::Run(13)));
}
