use froman::runner::{step, WorkAction};
use froman::workers::{
    busy_count, resque_pending_count, resque_work_pending, sidekiq_pending_count,
    sidekiq_work_in_progress, sidekiq_work_pending, Worker, WorkerKind,
};

fn worker(kind: WorkerKind, namespace: &str) -> Worker {
    Worker {
        app: String::from("myapp"),
        path: String::from("."),
        namespace: String::from(namespace),
        command: String::from("sidekiq -q default"),
        kind,
        process: None,
        terminate_at: None,
    }
}

#[test]
fn no_demand_never_spawns() {
    // A probe reporting no pending and no in-progress work must never lead
    // to a start, whatever the state.
    let mut idle = worker(WorkerKind::Sidekiq, "myapp");
    assert_eq!(step(&mut idle, false, 10, 30), WorkAction::Nothing);
    assert_eq!(idle.process, None);
    assert_eq!(idle.terminate_at, None);

    let mut running = worker(WorkerKind::Sidekiq, "myapp");
    running.set_process(Some(100));
    assert_eq!(step(&mut running, false, 10, 30), WorkAction::Nothing);
    assert_eq!(running.terminate_at, Some(40));
}

#[test]
fn sustained_demand_spawns_only_once() {
    let mut w = worker(WorkerKind::Sidekiq, "myapp");
    assert_eq!(step(&mut w, true, 0, 30), WorkAction::Start);
    w.set_process(Some(4242));
    // Repeated ticks with sustained demand never ask for a second start.
    assert_eq!(step(&mut w, true, 2, 30), WorkAction::Nothing);
    assert_eq!(step(&mut w, true, 4, 30), WorkAction::Nothing);
    assert_eq!(w.process, Some(4242));
    assert_eq!(w.terminate_at, None);
}

#[test]
fn renewed_demand_cancels_pending_stop() {
    let mut w = worker(WorkerKind::Sidekiq, "myapp");
    w.set_process(Some(4242));
    assert_eq!(step(&mut w, false, 10, 30), WorkAction::Nothing);
    assert_eq!(w.terminate_at, Some(40));
    // Demand returns before the grace period has elapsed: the stop is
    // cancelled and the original process instance is untouched.
    assert_eq!(step(&mut w, true, 39, 30), WorkAction::Nothing);
    assert_eq!(w.process, Some(4242));
    assert_eq!(w.terminate_at, None);
}

#[test]
fn stop_exactly_when_deadline_reached() {
    let mut w = worker(WorkerKind::Sidekiq, "myapp");
    w.set_process(Some(4242));
    assert_eq!(step(&mut w, false, 10, 30), WorkAction::Nothing);
    assert_eq!(w.terminate_at, Some(40));
    assert_eq!(step(&mut w, false, 39, 30), WorkAction::Nothing);
    assert_eq!(step(&mut w, false, 40, 30), WorkAction::Stop);
    assert_eq!(step(&mut w, false, 41, 30), WorkAction::Stop);
}

#[test]
fn sidekiq_scale_up_then_down() {
    // One Sidekiq worker in namespace "myapp"; queue myapp:queue:default
    // holds 3 items, so the probe reports pending work and the supervisor
    // asks for a start.  Once the queue empties and no process is busy, the
    // stop comes exactly one grace period later.
    let grace: u16 = 30;
    let mut w = worker(WorkerKind::Sidekiq, "myapp");

    let pending = sidekiq_pending_count(&vec![3], 0);
    assert_eq!(pending, 3);
    let demand = sidekiq_work_pending(&vec![3], 0) || sidekiq_work_in_progress(&vec![]);
    assert!(demand);
    assert_eq!(step(&mut w, demand, 0, grace), WorkAction::Start);
    w.set_process(Some(4242));

    let demand_later = sidekiq_work_pending(&vec![0], 0) || sidekiq_work_in_progress(&vec![0]);
    assert!(!demand_later);
    assert_eq!(step(&mut w, demand_later, 10, grace), WorkAction::Nothing);
    assert_eq!(w.terminate_at, Some(40));
    assert_eq!(step(&mut w, demand_later, 39, grace), WorkAction::Nothing);
    assert_eq!(step(&mut w, demand_later, 40, grace), WorkAction::Stop);
}

#[test]
fn sidekiq_queue_refills_during_grace_period() {
    // Same start, but the queue becomes non-empty again one second before
    // the grace period runs out: the timer is cleared and the process is
    // never signaled.
    let grace: u16 = 30;
    let mut w = worker(WorkerKind::Sidekiq, "myapp");
    assert_eq!(step(&mut w, true, 0, grace), WorkAction::Start);
    w.set_process(Some(4242));
    assert_eq!(step(&mut w, false, 10, grace), WorkAction::Nothing);
    assert_eq!(w.terminate_at, Some(40));

    let demand = sidekiq_work_pending(&vec![1], 0);
    assert!(demand);
    assert_eq!(step(&mut w, demand, 39, grace), WorkAction::Nothing);
    assert_eq!(w.process, Some(4242));
    assert_eq!(w.terminate_at, None);
    assert_eq!(step(&mut w, true, 60, grace), WorkAction::Nothing);
}

#[test]
fn resque_without_queues_never_spawns() {
    // A Resque worker with nothing registered under myapp:queues: pending
    // is the empty sum and in-progress is always false, so the worker stays
    // idle forever.
    let mut w = worker(WorkerKind::Resque, "myapp");
    assert_eq!(resque_pending_count(&vec![]), 0);
    let in_progress = false;
    let demand = resque_work_pending(&vec![]) || in_progress;
    assert_eq!(step(&mut w, demand, 0, 30), WorkAction::Nothing);
    assert_eq!(step(&mut w, demand, 2, 30), WorkAction::Nothing);
    assert_eq!(w.process, None);
    assert_eq!(w.terminate_at, None);
}

#[test]
fn pending_counts_sum_queues_and_schedule() {
    assert_eq!(sidekiq_pending_count(&vec![3, 2], 4), 9);
    assert_eq!(sidekiq_pending_count(&vec![], 0), 0);
    assert_eq!(sidekiq_pending_count(&vec![0, 0], 1), 1);
    assert_eq!(resque_pending_count(&vec![5, 1, 0]), 6);
    assert_eq!(resque_pending_count(&vec![]), 0);
    assert_eq!(busy_count(&vec![2, 0, 1]), 3);
    assert_eq!(busy_count(&vec![]), 0);
    assert_eq!(busy_count(&vec![-1, 1]), 0);
}

#[test]
fn demand_booleans_follow_the_counts() {
    assert!(!sidekiq_work_pending(&vec![0, 0], 0));
    assert!(sidekiq_work_pending(&vec![3], 0));
    assert!(sidekiq_work_pending(&vec![0], 2));
    assert!(!resque_work_pending(&vec![]));
    assert!(!resque_work_pending(&vec![0]));
    assert!(resque_work_pending(&vec![0, 1]));
    assert!(!sidekiq_work_in_progress(&vec![]));
    assert!(!sidekiq_work_in_progress(&vec![0, 0]));
    assert!(sidekiq_work_in_progress(&vec![1]));
    assert!(!sidekiq_work_in_progress(&vec![-1, 1]));
}

#[test]
fn process_id_of_running_and_idle_worker() {
    let mut w = worker(WorkerKind::Sidekiq, "");
    assert_eq!(w.process_id(), 0);
    w.set_process(Some(77));
    assert_eq!(w.process_id(), 77);
}

#[test]
fn worker_accessors() {
    let w = worker(WorkerKind::Sidekiq, "ns");
    assert_eq!(w.app(), "myapp");
    assert_eq!(w.path(), ".");
    assert_eq!(w.command(), "sidekiq -q default");
    assert_eq!(w.namespace(), "ns");
    assert_eq!(w.kind(), "sidekiq");
    assert_eq!(worker(WorkerKind::Resque, "").kind(), "resque");
    assert_eq!(*w.process(), None);
    assert_eq!(*w.terminate_at(), None);
}
