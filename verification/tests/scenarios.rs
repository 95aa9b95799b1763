use rtic_runtime::app::{App, ConfigError, Resource, Task, TaskKind};
use rtic_runtime::context::CriticalSection;
use rtic_runtime::system::{CapacityError, Phase, System};

fn task(kind: TaskKind, priority: u8, resources: Vec<usize>) -> Task {
    Task { kind, priority, resources, has_locals: false, uses_spawn: true, uses_schedule: true }
}

const INIT: usize = 0;
const IDLE: usize = 1;
const A: usize = 2;
const B: usize = 3;
const C: usize = 4;
const D: usize = 5;
const E: usize = 6;

const R: usize = 0;
const S: usize = 1;
const L: usize = 2;

/// `A` and `C` are software tasks of priority 2, `B` a hardware task of
/// priority 3, `D` a hardware task of priority 2, `E` a software task of
/// priority 4. `R` is shared by `A` and `D`, `S` by `A` and `E`; `L` is
/// local to `idle`.
fn app() -> App {
    App {
        tasks: vec![
            task(TaskKind::Init { returns_late_resources: true }, 0, vec![]),
            task(TaskKind::Idle, 0, vec![L]),
            task(TaskKind::Software { capacity: 2 }, 2, vec![R, S]),
            task(TaskKind::Hardware { binds: 5 }, 3, vec![]),
            task(TaskKind::Software { capacity: 1 }, 2, vec![]),
            task(TaskKind::Hardware { binds: 6 }, 2, vec![R]),
            task(TaskKind::Software { capacity: 1 }, 4, vec![S]),
        ],
        resources: vec![
            Resource { task_local: false, accessors: vec![A, D] },
            Resource { task_local: false, accessors: vec![A, E] },
            Resource { task_local: true, accessors: vec![IDLE] },
        ],
    }
}

/// The token of another system's `init`.
fn foreign_token() -> CriticalSection {
    let mut other: System<u32, u32> = System::new(app(), 0).unwrap();
    other.start().unwrap().cs.unwrap()
}

fn running_system() -> System<u32, u32> {
    let mut s: System<u32, u32> = System::new(app(), 4).unwrap();
    let cs = s.start().unwrap().cs.unwrap();
    assert!(s.finish(cs, 42).is_ok());
    s
}

#[test]
fn an_invalid_table_builds_no_system() {
    let mut bad = app();
    bad.tasks[A].resources.push(L);
    let made: Result<System<u32, u32>, ConfigError> = System::new(bad, 4);
    assert_eq!(made.err(), Some(ConfigError::AccessOutsideSet { task: A, resource: L }));
}

#[test]
fn init_runs_masked_and_publishes_the_late_resources() {
    let mut s: System<u32, u32> = System::new(app(), 4).unwrap();
    assert_eq!(s.current_phase(), Phase::NotStarted);
    assert_eq!(s.masked(), 255);
    assert_eq!(s.late_resources(), None);

    let init = s.start().unwrap();
    assert_eq!(init.task, INIT);
    assert_eq!(init.priority, None);
    let cs = init.cs.unwrap();
    assert_eq!(s.current_phase(), Phase::Running);
    assert!(s.start().is_none());

    // An interrupt fires and a task is spawned while `init` runs: neither
    // starts, since everything is masked.
    assert!(s.pend(B));
    assert!(s.spawn(A, 1).is_ok());
    assert!(s.dispatch(0).is_none());
    assert_eq!(s.late_resources(), None);

    // `init` computes `l = 42` and returns it.
    let idle = s.finish(cs, 42).unwrap().unwrap();
    assert_eq!(idle.task, IDLE);
    assert_eq!(idle.priority.unwrap().get(), 0);
    assert!(idle.cs.is_none());
    assert_eq!(s.current_phase(), Phase::Done);
    assert_eq!(s.masked(), 0);
    assert_eq!(s.running(), Some(IDLE));
    assert_eq!(s.late_resources(), Some(&42));

    // The token is gone. With one from elsewhere a second `finish`
    // changes nothing and hands the value back.
    assert_eq!(s.finish(foreign_token(), 7).err(), Some(7));
    assert_eq!(s.late_resources(), Some(&42));
}

#[test]
fn idle_reads_the_late_resource_before_any_other_task_runs() {
    let mut s: System<u32, u32> = System::new(app(), 4).unwrap();
    let cs = s.start().unwrap().cs.unwrap();
    assert!(s.finish(cs, 42).is_ok());
    // Nothing is pending: the dispatcher starts nothing and `idle` runs.
    assert!(s.dispatch(0).is_none());
    assert_eq!(s.running(), Some(IDLE));
    assert_eq!(s.late_resources(), Some(&42));
}

#[test]
fn finish_before_start_is_refused() {
    let mut s: System<u32, u32> = System::new(app(), 4).unwrap();
    assert_eq!(s.finish(foreign_token(), 42).err(), Some(42));
    assert_eq!(s.current_phase(), Phase::NotStarted);
    assert_eq!(s.late_resources(), None);
}

#[test]
fn a_system_without_idle_runs_nothing_after_init() {
    let mut table = app();
    table.tasks[IDLE].kind = TaskKind::Hardware { binds: 9 };
    table.tasks[IDLE].resources.clear();
    table.resources[L].accessors.clear();
    let mut s: System<u32, u32> = System::new(table, 4).unwrap();
    let cs = s.start().unwrap().cs.unwrap();
    assert_eq!(s.finish(cs, 1).unwrap().map(|b| b.task), None);
    assert_eq!(s.running(), None);
    assert_eq!(s.masked(), 0);
}

#[test]
fn a_higher_task_preempts_a_lock_that_it_has_no_part_in() {
    let mut s = running_system();
    assert!(s.spawn(A, 7).is_ok());
    let a = s.dispatch(0).unwrap();
    assert_eq!((a.task, a.payload), (A, Some(7)));
    assert_eq!(a.context.priority.unwrap().get(), 2);
    assert_eq!(s.masked(), 2);

    // `A` locks `R`, whose ceiling is 2.
    assert!(s.can_lock(R));
    s.lock(R);
    assert_eq!(s.masked(), 2);
    assert_eq!(s.depth(), 1);

    // `B`, of priority 3, fires during the lock: it preempts.
    assert!(s.pend(B));
    let b = s.dispatch(0).unwrap();
    assert_eq!((b.task, b.payload), (B, None));
    assert_eq!(s.running(), Some(B));
    assert_eq!(s.masked(), 3);
    assert_eq!(s.depth(), 0);
    assert!(!s.can_lock(R));

    // `B` completes before the lock body of `A` resumes.
    s.complete();
    assert_eq!(s.running(), Some(A));
    assert_eq!(s.masked(), 2);
    assert_eq!(s.depth(), 1);
    assert_eq!(s.unlock(), R);
    assert_eq!(s.masked(), 2);
    s.complete();
    assert_eq!(s.running(), Some(IDLE));
    assert_eq!(s.masked(), 0);
}

#[test]
fn a_task_that_shares_the_resource_waits_for_the_lock() {
    let mut s = running_system();
    assert!(s.spawn(A, 7).is_ok());
    assert!(s.dispatch(0).is_some());
    s.lock(R);
    // `D` shares `R` and has priority 2: it stays pending under the lock,
    // and so does `C`, of the same priority.
    assert!(s.pend(D));
    assert!(s.spawn(C, 1).is_ok());
    assert!(s.dispatch(0).is_none());
    assert_eq!(s.running(), Some(A));
    s.unlock();
    // Equal priorities do not preempt each other either.
    assert!(s.dispatch(0).is_none());
    s.complete();
    // The hardware task goes before the ready queue of its level.
    assert_eq!(s.dispatch(0).unwrap().task, D);
    assert!(s.can_lock(R));
    s.lock(R);
    assert_eq!(s.masked(), 2);
    s.unlock();
    s.complete();
    assert_eq!(s.dispatch(0).unwrap().task, C);
    s.complete();
    assert!(s.dispatch(0).is_none());
}

#[test]
fn a_lock_raises_the_mask_to_the_ceiling() {
    let mut s = running_system();
    assert!(s.spawn(A, 7).is_ok());
    assert!(s.dispatch(0).is_some());
    // `S` is shared with `E`, of priority 4.
    s.lock(S);
    assert_eq!(s.masked(), 4);
    assert!(s.spawn(E, 1).is_ok());
    assert!(s.pend(B));
    assert!(s.dispatch(0).is_none());
    assert_eq!(s.unlock(), S);
    assert_eq!(s.masked(), 2);
    // Once the lock is gone the highest level goes first.
    assert_eq!(s.dispatch(0).unwrap().task, E);
    assert_eq!(s.masked(), 4);
    s.complete();
    assert_eq!(s.dispatch(0).unwrap().task, B);
    s.complete();
    assert_eq!(s.running(), Some(A));
}

#[test]
fn nested_locks_put_the_mask_back_step_by_step() {
    let mut s = running_system();
    assert!(s.spawn(A, 7).is_ok());
    assert!(s.dispatch(0).is_some());
    let before = s.masked();
    s.lock(S);
    assert_eq!(s.masked(), 4);
    // A lock inside a lock never lowers the level.
    s.lock(R);
    assert_eq!(s.masked(), 4);
    assert_eq!(s.depth(), 2);
    assert!(!s.can_lock(R));
    assert!(!s.can_lock(S));
    assert_eq!(s.unlock(), R);
    assert_eq!(s.masked(), 4);
    assert_eq!(s.unlock(), S);
    assert_eq!(s.masked(), before);
    assert_eq!(s.depth(), 0);
}

#[test]
fn the_other_nesting_order_restores_the_mask_too() {
    let mut s = running_system();
    assert!(s.spawn(A, 7).is_ok());
    assert!(s.dispatch(0).is_some());
    s.lock(R);
    assert_eq!(s.masked(), 2);
    s.lock(S);
    assert_eq!(s.masked(), 4);
    s.unlock();
    assert_eq!(s.masked(), 2);
    s.unlock();
    assert_eq!(s.masked(), 2);
}

#[test]
fn a_task_local_resource_is_accessed_without_a_lock() {
    let mut s = running_system();
    assert!(s.owns_local(L));
    assert!(!s.owns_local(R));
    assert!(!s.owns_local(99));
    assert!(!s.can_complete());
    assert!(s.spawn(A, 1).is_ok());
    assert_eq!(s.dispatch(0).unwrap().task, A);
    // What preempts `idle` does not own its resource.
    assert!(!s.owns_local(L));
    assert!(!s.owns_local(R));
    assert!(s.can_complete());
    s.lock(R);
    assert!(!s.can_complete());
}

#[test]
fn what_a_task_may_lock() {
    let mut s = running_system();
    // `idle` runs: its only resource is task-local and needs no lock.
    assert!(!s.can_lock(L));
    assert!(!s.can_lock(R));
    assert!(!s.can_lock(99));
    assert!(s.spawn(E, 1).is_ok());
    assert_eq!(s.dispatch(0).unwrap().task, E);
    assert!(s.can_lock(S));
    assert!(!s.can_lock(R));
}

#[test]
fn spawned_tasks_of_one_priority_run_in_the_order_of_spawning() {
    let mut s = running_system();
    assert!(s.spawn(A, 1).is_ok());
    assert!(s.spawn(C, 2).is_ok());
    assert!(s.spawn(A, 3).is_ok());
    let mut order = Vec::new();
    while let Some(inv) = s.dispatch(0) {
        order.push((inv.task, inv.payload.unwrap()));
        s.complete();
    }
    assert_eq!(order, vec![(A, 1), (C, 2), (A, 3)]);
}

#[test]
fn spawn_fails_when_the_level_has_no_slot_left() {
    let mut s = running_system();
    // Level 2 has the two slots of `A` and the one of `C`.
    assert!(s.spawn(A, 1).is_ok());
    assert!(s.spawn(A, 2).is_ok());
    assert!(s.spawn(C, 3).is_ok());
    assert_eq!(s.spawn(C, 4), Err((CapacityError::ReadyQueueFull, 4)));
    assert_eq!(s.spawn(A, 5), Err((CapacityError::ReadyQueueFull, 5)));
    // Level 4 has its own slot.
    assert!(s.spawn(E, 6).is_ok());
    assert_eq!(s.spawn(E, 7), Err((CapacityError::ReadyQueueFull, 7)));
    // Nothing was dropped: level 4 first, then level 2 in order.
    let mut order = Vec::new();
    while let Some(inv) = s.dispatch(0) {
        order.push(inv.payload.unwrap());
        s.complete();
    }
    assert_eq!(order, vec![6, 1, 2, 3]);
    assert!(s.spawn(C, 8).is_ok());
}

#[test]
fn the_later_schedule_with_the_earlier_instant_runs_first() {
    let mut s = running_system();
    let now: u64 = 100;
    assert!(s.schedule(C, now + 10, 1).is_ok());
    assert!(s.schedule(A, now + 5, 2).is_ok());
    assert_eq!(s.next_instant(), Some(105));
    assert_eq!(s.tick(now), 0);
    assert!(s.dispatch(now).is_none());

    assert_eq!(s.tick(now + 5), 1);
    let first = s.dispatch(now + 5).unwrap();
    assert_eq!((first.task, first.payload), (A, Some(2)));
    assert_eq!(first.context.instant, Some(105));
    s.complete();
    assert!(s.dispatch(now + 5).is_none());
    assert_eq!(s.next_instant(), Some(110));

    assert_eq!(s.tick(now + 12), 1);
    let second = s.dispatch(now + 12).unwrap();
    assert_eq!((second.task, second.payload), (C, Some(1)));
    assert_eq!(second.context.instant, Some(110));
    s.complete();
    assert_eq!(s.next_instant(), None);
}

#[test]
fn the_same_task_scheduled_twice_runs_the_earlier_instant_first() {
    let mut s = running_system();
    assert!(s.schedule(A, 110, 1).is_ok());
    assert!(s.schedule(A, 105, 2).is_ok());
    assert_eq!(s.tick(200), 2);
    assert_eq!(s.dispatch(200).unwrap().payload, Some(2));
    s.complete();
    assert_eq!(s.dispatch(200).unwrap().payload, Some(1));
    s.complete();
}

#[test]
fn equal_instants_are_released_in_the_order_of_scheduling() {
    let mut s = running_system();
    assert!(s.schedule(A, 50, 1).is_ok());
    assert!(s.schedule(C, 50, 2).is_ok());
    assert!(s.schedule(A, 50, 3).is_ok());
    assert_eq!(s.tick(50), 3);
    let mut order = Vec::new();
    while let Some(inv) = s.dispatch(50) {
        order.push((inv.task, inv.payload.unwrap()));
        s.complete();
    }
    assert_eq!(order, vec![(A, 1), (C, 2), (A, 3)]);
}

#[test]
fn a_scheduled_entry_keeps_its_slot_in_the_ready_queue() {
    let mut s = running_system();
    // Level 2 has three slots; two are reserved by scheduled entries.
    assert!(s.schedule(A, 10, 1).is_ok());
    assert!(s.schedule(C, 20, 2).is_ok());
    assert!(s.spawn(A, 3).is_ok());
    assert_eq!(s.spawn(A, 4), Err((CapacityError::ReadyQueueFull, 4)));
    assert_eq!(s.schedule(A, 30, 5), Err((CapacityError::ReadyQueueFull, 5)));
    // So the move into the ready queue cannot fail.
    assert_eq!(s.tick(25), 2);
    let mut order = Vec::new();
    while let Some(inv) = s.dispatch(25) {
        order.push(inv.payload.unwrap());
        s.complete();
    }
    assert_eq!(order, vec![3, 1, 2]);
}

#[test]
fn schedule_fails_when_the_timer_queue_is_full() {
    let mut table = app();
    table.tasks[A].kind = TaskKind::Software { capacity: 9 };
    let mut s: System<u32, u32> = System::new(table, 2).unwrap();
    let cs = s.start().unwrap().cs.unwrap();
    assert!(s.finish(cs, 0).is_ok());
    assert!(s.schedule(A, 10, 1).is_ok());
    assert!(s.schedule(A, 5, 2).is_ok());
    assert_eq!(s.schedule(A, 1, 3), Err((CapacityError::TimerQueueFull, 3)));
    // The entries that were there are still there, in order.
    assert_eq!(s.next_instant(), Some(5));
    assert_eq!(s.tick(10), 2);
    assert_eq!(s.dispatch(10).unwrap().payload, Some(2));
}

#[test]
fn pend_takes_hardware_tasks_only() {
    let mut s = running_system();
    assert!(!s.pend(A));
    assert!(!s.pend(IDLE));
    assert!(!s.pend(INIT));
    assert!(!s.pend(99));
    assert!(s.dispatch(0).is_none());
    assert!(s.pend(D));
    // Firing twice before the handler starts is one pending interrupt.
    assert!(s.pend(D));
    assert_eq!(s.dispatch(0).unwrap().task, D);
    s.complete();
    assert!(s.dispatch(0).is_none());
}

#[test]
fn a_hardware_task_is_told_when_it_fired() {
    let mut s = running_system();
    assert!(s.pend(B));
    let b = s.dispatch(77).unwrap();
    assert_eq!(b.context.instant, Some(77));
    assert_eq!(b.context.priority.unwrap().get(), 3);
    assert!(b.context.spawn);
    assert!(b.context.schedule);
    assert!(!b.context.resources);
    s.complete();
    // A spawned software task has not been scheduled: it is told `now`.
    assert!(s.spawn(A, 1).is_ok());
    let a = s.dispatch(80).unwrap();
    assert_eq!(a.context.instant, Some(80));
    assert!(a.context.resources);
}

#[test]
fn preemption_nests_and_unwinds_in_order() {
    let mut s = running_system();
    assert!(s.spawn(A, 1).is_ok());
    assert_eq!(s.dispatch(0).unwrap().task, A);
    assert!(s.pend(B));
    assert_eq!(s.dispatch(0).unwrap().task, B);
    assert!(s.spawn(E, 2).is_ok());
    assert_eq!(s.dispatch(0).unwrap().task, E);
    assert_eq!(s.masked(), 4);
    s.complete();
    assert_eq!((s.running(), s.masked()), (Some(B), 3));
    s.complete();
    assert_eq!((s.running(), s.masked()), (Some(A), 2));
    s.complete();
    assert_eq!((s.running(), s.masked()), (Some(IDLE), 0));
}

#[test]
fn spawn_pends_the_dispatcher_of_the_level() {
    let mut s = running_system();
    assert!(!s.waits(2));
    assert!(s.spawn(A, 1).is_ok());
    assert!(s.waits(2));
    assert!(!s.waits(3));
    assert!(s.pend(B));
    assert!(s.waits(3));
    assert_eq!(s.dispatch(0).unwrap().task, B);
    assert!(!s.waits(3));
    assert!(s.waits(2));
}

#[test]
fn a_lock_body_runs_at_the_ceiling_and_the_mask_comes_back() {
    let mut s = running_system();
    assert!(s.spawn(A, 7).is_ok());
    let token = s.dispatch(0).unwrap().context.priority.unwrap();
    let mut shared: u32 = 10;
    let seen = s.with_lock(&token, S, &mut shared, |s: &mut System<u32, u32>, d: &mut u32| {
        *d += 1;
        let outer = s.masked();
        let inner = s.with_lock(&token, R, d, |s: &mut System<u32, u32>, d: &mut u32| {
            *d += 1;
            (s.masked(), s.depth())
        });
        (outer, inner, s.masked(), s.depth())
    });
    assert_eq!(seen, (4, (4, 2), 4, 1));
    assert_eq!(shared, 12);
    assert_eq!(s.masked(), 2);
    assert_eq!(s.depth(), 0);
    assert_eq!(s.running(), Some(A));
}

#[test]
fn a_higher_task_runs_to_its_end_inside_a_lock_body() {
    let mut s = running_system();
    assert!(s.spawn(A, 7).is_ok());
    let token = s.dispatch(0).unwrap().context.priority.unwrap();
    let mut trace: Vec<&str> = Vec::new();
    s.with_lock(&token, R, &mut trace, |s: &mut System<u32, u32>, t: &mut Vec<&str>| {
        t.push("A locks R");
        assert!(s.pend(B));
        assert!(s.pend(D));
        // `B` is above the ceiling and preempts; `D` shares `R` and waits.
        while let Some(inv) = s.dispatch(0) {
            assert_eq!(inv.task, B);
            t.push("B runs");
            s.complete();
        }
        t.push("A unlocks R");
    });
    assert!(s.dispatch(0).is_none());
    s.complete();
    assert_eq!(s.dispatch(0).unwrap().task, D);
    assert_eq!(trace, vec!["A locks R", "B runs", "A unlocks R"]);
}
