use apalis_nats::codec::JobEnvelope;
use apalis_nats::config::Config;
use apalis_nats::fetch::{current_priority, fetch_step, pass_end_sleep, pass_start, FetchAction};
use apalis_nats::priority::Priority;
use apalis_nats::producer::prepare_push;
use apalis_nats::queries::{queue_is_empty, total_len};

/// Three queues standing for the priority streams, highest first.
struct SimBroker {
    queues: [Vec<Vec<u8>>; 3],
}

impl SimBroker {
    fn new() -> Self {
        SimBroker { queues: [Vec::new(), Vec::new(), Vec::new()] }
    }

    fn publish(&mut self, p: Priority, payload: Vec<u8>) {
        let i = match p {
            Priority::High => 0,
            Priority::Medium => 1,
            Priority::Low => 2,
        };
        self.queues[i].push(payload);
    }

    fn pull(&mut self, p: Priority) -> Option<Vec<u8>> {
        let i = match p {
            Priority::High => 0,
            Priority::Medium => 1,
            Priority::Low => 2,
        };
        if self.queues[i].is_empty() {
            None
        } else {
            Some(self.queues[i].remove(0))
        }
    }

    fn is_empty(&self) -> bool {
        queue_is_empty(
            self.queues[0].len() as u64,
            self.queues[1].len() as u64,
            self.queues[2].len() as u64,
        )
    }
}

/// Run fetch passes until a full pass comes back empty; return the emitted
/// envelopes in order.
fn drain(broker: &mut SimBroker) -> Vec<JobEnvelope> {
    let mut emitted = Vec::new();
    loop {
        let mut st = pass_start();
        while st.next_rank <= 2 {
            let p = current_priority(&st);
            let pulled = broker.pull(p);
            let (next, action) = fetch_step(st, pulled);
            st = next;
            match action {
                FetchAction::Emit { envelope } => emitted.push(envelope),
                FetchAction::TermMalformed => {}
                FetchAction::Advance => {}
            }
        }
        if !st.found {
            break;
        }
    }
    emitted
}

#[test]
fn pass_visits_priorities_in_order() {
    let mut st = pass_start();
    assert_eq!(current_priority(&st), Priority::High);
    (st, _) = fetch_step(st, None);
    assert_eq!(current_priority(&st), Priority::Medium);
    (st, _) = fetch_step(st, None);
    assert_eq!(current_priority(&st), Priority::Low);
    (st, _) = fetch_step(st, None);
    assert_eq!(st.next_rank, 3);
    assert!(!st.found);
    assert_eq!(pass_end_sleep(&st), 100);
}

#[test]
fn emitted_job_ends_the_pass() {
    let cfg = Config::default();
    let plan = prepare_push(&cfg, &b"hello".to_vec(), Priority::High, None);
    let st = pass_start();
    let (next, action) = fetch_step(st, Some(plan.payload));
    assert_eq!(next.next_rank, 3);
    assert!(next.found);
    assert_eq!(pass_end_sleep(&next), 10);
    match action {
        FetchAction::Emit { envelope } => assert_eq!(envelope.data, b"hello".to_vec()),
        a => panic!("expected an emitted job, got {:?}", a),
    }
}

#[test]
fn malformed_message_is_terminated_and_skipped() {
    let st = pass_start();
    let (next, action) = fetch_step(st, Some(b"garbage".to_vec()));
    assert_eq!(next.next_rank, 1);
    assert!(!next.found);
    assert!(matches!(action, FetchAction::TermMalformed));
}

#[test]
fn basic_jobs_all_processed() {
    // Push three jobs at the default priority; every one is processed and
    // the queues end empty.
    let cfg = Config::default();
    let mut broker = SimBroker::new();
    let mut pushed_ids = Vec::new();
    for msg in ["Job 1", "Job 2", "Job 3"] {
        let plan = prepare_push(&cfg, &msg.as_bytes().to_vec(), Priority::default(), None);
        pushed_ids.push(plan.id.clone());
        broker.publish(Priority::Medium, plan.payload);
    }
    let emitted = drain(&mut broker);
    assert_eq!(emitted.len(), 3, "all jobs should be executed");
    let mut seen: Vec<Vec<u8>> = emitted.iter().map(|e| e.id.clone()).collect();
    seen.sort();
    pushed_ids.sort();
    assert_eq!(seen, pushed_ids, "each pushed job should be executed");
    assert!(broker.is_empty());
    assert_eq!(total_len(0, 0, 0), 0);
}

#[test]
fn priority_ordering_is_strict() {
    // Push three Low, three Medium, three High, in that order; a single
    // worker sees all the High jobs first, then the Medium ones.
    let cfg = Config::default();
    let mut broker = SimBroker::new();
    for i in 1..=3 {
        let msg = format!("Low priority {}", i);
        let plan = prepare_push(&cfg, &msg.into_bytes(), Priority::Low, None);
        broker.publish(Priority::Low, plan.payload);
    }
    for i in 1..=3 {
        let msg = format!("Medium priority {}", i);
        let plan = prepare_push(&cfg, &msg.into_bytes(), Priority::Medium, None);
        broker.publish(Priority::Medium, plan.payload);
    }
    for i in 1..=3 {
        let msg = format!("High priority {}", i);
        let plan = prepare_push(&cfg, &msg.into_bytes(), Priority::High, None);
        broker.publish(Priority::High, plan.payload);
    }
    let emitted = drain(&mut broker);
    assert_eq!(emitted.len(), 9);
    let texts: Vec<String> = emitted
        .iter()
        .map(|e| String::from_utf8(e.data.clone()).unwrap())
        .collect();
    for i in 0..3 {
        assert!(
            texts[i].starts_with("High priority"),
            "job {} should be high priority, got: {}",
            i + 1,
            texts[i]
        );
    }
    assert!(
        texts[3].starts_with("Medium priority"),
        "fourth job should be medium priority, got: {}",
        texts[3]
    );
    for i in 6..9 {
        assert!(texts[i].starts_with("Low priority"), "got: {}", texts[i]);
    }
}

#[test]
fn concurrent_workers_share_load() {
    // Ten jobs at the default priority; two workers pull from the shared
    // queues in turns. Every job is processed exactly once and both
    // workers get some.
    let cfg = Config::default();
    let mut broker = SimBroker::new();
    for i in 0..10 {
        let msg = format!("Concurrent job {}", i);
        let plan = prepare_push(&cfg, &msg.into_bytes(), Priority::default(), None);
        broker.publish(Priority::Medium, plan.payload);
    }
    let mut per_worker = [Vec::new(), Vec::new()];
    let mut turn = 0;
    loop {
        let mut st = pass_start();
        while st.next_rank <= 2 {
            let p = current_priority(&st);
            let pulled = broker.pull(p);
            let (next, action) = fetch_step(st, pulled);
            st = next;
            if let FetchAction::Emit { envelope } = action {
                per_worker[turn].push(envelope.id);
            }
        }
        if !st.found {
            break;
        }
        turn = 1 - turn;
    }
    let total = per_worker[0].len() + per_worker[1].len();
    assert_eq!(total, 10, "all jobs should be accounted for");
    assert!(!per_worker[0].is_empty(), "worker 1 should process some jobs");
    assert!(!per_worker[1].is_empty(), "worker 2 should process some jobs");
    let mut all: Vec<Vec<u8>> = per_worker[0].iter().chain(per_worker[1].iter()).cloned().collect();
    all.sort();
    all.dedup();
    assert_eq!(all.len(), 10, "no job processed twice");
}

#[test]
fn malformed_message_does_not_block_lower_priorities() {
    let cfg = Config::default();
    let mut broker = SimBroker::new();
    broker.publish(Priority::High, b"broken payload".to_vec());
    let plan = prepare_push(&cfg, &b"real job".to_vec(), Priority::Low, None);
    broker.publish(Priority::Low, plan.payload);
    let emitted = drain(&mut broker);
    assert_eq!(emitted.len(), 1);
    assert_eq!(emitted[0].data, b"real job".to_vec());
    assert!(broker.is_empty());
}
