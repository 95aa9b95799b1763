use rtic_runtime::app::{App, Resource, Task, TaskKind};
use rtic_runtime::context::{codegen, Context, Doc, Extra, Field, Item, Peripherals, Value};
use rtic_runtime::system::System;

fn task(kind: TaskKind) -> Task {
    Task { kind, priority: 1, resources: vec![], has_locals: false, uses_spawn: false, uses_schedule: false }
}

/// `init`, `idle`, a hardware task and a software task that use nothing.
fn bare() -> App {
    App {
        tasks: vec![
            task(TaskKind::Init { returns_late_resources: false }),
            task(TaskKind::Idle),
            task(TaskKind::Hardware { binds: 1 }),
            task(TaskKind::Software { capacity: 1 }),
        ],
        resources: vec![Resource { task_local: false, accessors: vec![0, 1, 2, 3] }],
    }
}

/// The same tasks, each of which uses everything.
fn full() -> App {
    let mut app = bare();
    for t in app.tasks.iter_mut() {
        t.resources = vec![0];
        t.has_locals = true;
        t.uses_spawn = true;
        t.uses_schedule = true;
    }
    app.tasks[0].kind = TaskKind::Init { returns_late_resources: true };
    app
}

const PLAIN: Extra = Extra { peripherals: false, monotonic: false };
const TIMED: Extra = Extra { peripherals: true, monotonic: true };

#[test]
fn a_bare_init_gets_the_core_peripherals_and_the_token() {
    let m = codegen(Context::Init, false, &bare(), &PLAIN);
    assert_eq!(m.name, 0);
    assert_eq!(m.doc, Doc::Init);
    assert!(m.lifetime);
    assert_eq!(m.fields, vec![Field::Core(Peripherals::Core), Field::Cs]);
    assert_eq!(m.values, vec![Value::CsNew, Value::Core]);
    assert_eq!(m.items, vec![Item::Context]);
    assert_eq!(m.core, Some(Peripherals::Core));
    assert!(!m.priority);
    assert!(!m.instant);
}

#[test]
fn a_full_init_gets_everything_unbound() {
    let m = codegen(Context::Init, true, &full(), &TIMED);
    assert_eq!(m.doc, Doc::Init);
    assert!(m.lifetime);
    assert_eq!(
        m.fields,
        vec![
            Field::Start,
            Field::Core(Peripherals::CoreWithoutSysTick),
            Field::Device,
            Field::Cs,
            Field::Resources { tick: true },
            Field::Schedule { bound: false },
            Field::Spawn { bound: false },
        ]
    );
    assert_eq!(
        m.values,
        vec![
            Value::StartZero,
            Value::DeviceSteal,
            Value::CsNew,
            Value::Core,
            Value::Resources { priority: false },
            Value::Schedule { priority: false },
            Value::Spawn { priority: false, instant: false },
        ]
    );
    assert_eq!(
        m.items,
        vec![
            Item::Locals,
            Item::Resources,
            Item::Schedule { bound: false },
            Item::Spawn { bound: false, instant: false },
            Item::LateResources,
            Item::Context,
        ]
    );
    assert_eq!(m.core, Some(Peripherals::CoreWithoutSysTick));
    assert!(!m.priority);
    assert!(!m.instant);
}

#[test]
fn init_with_device_peripherals_and_no_schedule() {
    let m = codegen(Context::Init, false, &bare(), &Extra { peripherals: true, monotonic: false });
    assert_eq!(m.fields, vec![Field::Core(Peripherals::Core), Field::Device, Field::Cs]);
    assert_eq!(m.values, vec![Value::DeviceSteal, Value::CsNew, Value::Core]);
}

#[test]
fn a_bare_idle_gets_the_priority_token_alone() {
    let m = codegen(Context::Idle, true, &bare(), &PLAIN);
    assert_eq!(m.name, 1);
    assert_eq!(m.doc, Doc::Idle);
    assert!(!m.lifetime);
    assert!(m.fields.is_empty());
    assert!(m.values.is_empty());
    assert_eq!(m.items, vec![Item::Context]);
    assert_eq!(m.core, None);
    assert!(m.priority);
    assert!(!m.instant);
}

#[test]
fn a_full_idle_has_bound_handles_and_no_instant() {
    let m = codegen(Context::Idle, false, &full(), &TIMED);
    assert!(m.lifetime);
    assert_eq!(
        m.fields,
        vec![
            Field::Resources { tick: false },
            Field::Schedule { bound: true },
            Field::Spawn { bound: true },
        ]
    );
    assert_eq!(
        m.values,
        vec![
            Value::Resources { priority: true },
            Value::Schedule { priority: true },
            Value::Spawn { priority: true, instant: false },
        ]
    );
    assert_eq!(
        m.items,
        vec![
            Item::Locals,
            Item::Resources,
            Item::Schedule { bound: true },
            Item::Spawn { bound: true, instant: false },
            Item::SpawnGetters { instant: false },
            Item::Context,
        ]
    );
    assert!(m.priority);
    assert!(!m.instant);
}

#[test]
fn idle_needs_no_monotonic_timer() {
    let m = codegen(Context::Idle, false, &full(), &PLAIN);
    assert!(!m.instant);
    assert_eq!(m.fields.len(), 3);
}

#[test]
fn a_full_hardware_task_starts_at_an_instant() {
    let m = codegen(Context::HardwareTask(2), true, &full(), &TIMED);
    assert_eq!(m.name, 2);
    assert_eq!(m.doc, Doc::HardwareTask);
    assert!(m.lifetime);
    assert_eq!(
        m.fields,
        vec![
            Field::Start,
            Field::Resources { tick: true },
            Field::Schedule { bound: true },
            Field::Spawn { bound: true },
        ]
    );
    assert_eq!(
        m.values,
        vec![
            Value::StartInstant,
            Value::Resources { priority: true },
            Value::Schedule { priority: true },
            Value::Spawn { priority: true, instant: true },
        ]
    );
    assert_eq!(
        m.items,
        vec![
            Item::Locals,
            Item::Resources,
            Item::Schedule { bound: true },
            Item::Spawn { bound: true, instant: true },
            Item::SpawnGetters { instant: true },
            Item::Context,
        ]
    );
    assert_eq!(m.core, None);
    assert!(m.priority);
    assert!(m.instant);
}

#[test]
fn a_full_software_task_knows_when_it_was_scheduled() {
    let m = codegen(Context::SoftwareTask(3), false, &full(), &TIMED);
    assert_eq!(m.name, 3);
    assert_eq!(m.doc, Doc::SoftwareTask);
    assert!(m.lifetime);
    assert_eq!(m.fields[0], Field::Scheduled);
    assert_eq!(m.values[0], Value::ScheduledInstant);
    assert_eq!(m.fields[1], Field::Resources { tick: false });
    assert!(m.instant);
}

#[test]
fn a_task_that_only_spawns_carries_no_instant_without_a_schedule() {
    let mut app = bare();
    app.tasks[3].uses_spawn = true;
    let m = codegen(Context::SoftwareTask(3), false, &app, &PLAIN);
    assert!(m.lifetime);
    assert_eq!(m.fields, vec![Field::Spawn { bound: true }]);
    assert_eq!(m.values, vec![Value::Spawn { priority: true, instant: false }]);
    assert_eq!(
        m.items,
        vec![Item::Spawn { bound: true, instant: false }, Item::SpawnGetters { instant: false }, Item::Context]
    );
    assert!(!m.instant);
}

#[test]
fn one_scheduling_task_gives_every_task_an_instant() {
    let mut app = bare();
    app.tasks[2].uses_schedule = true;
    let m = codegen(Context::SoftwareTask(3), false, &app, &TIMED);
    assert!(!m.lifetime);
    assert_eq!(m.fields, vec![Field::Scheduled]);
    assert_eq!(m.values, vec![Value::ScheduledInstant]);
    assert!(m.instant);
    let init = codegen(Context::Init, false, &app, &TIMED);
    assert_eq!(init.fields[0], Field::Start);
    assert_eq!(init.core, Some(Peripherals::CoreWithoutSysTick));
}

#[test]
fn resources_borrow_only_where_told() {
    let mut app = bare();
    app.tasks[2].resources = vec![0];
    let without = codegen(Context::HardwareTask(2), false, &app, &PLAIN);
    assert!(!without.lifetime);
    assert_eq!(without.fields, vec![Field::Resources { tick: false }]);
    let with = codegen(Context::HardwareTask(2), true, &app, &PLAIN);
    assert!(with.lifetime);
    assert_eq!(with.fields, vec![Field::Resources { tick: true }]);
    assert_eq!(with.items, vec![Item::Resources, Item::Context]);
}

#[test]
fn the_accessors_of_a_context() {
    let app = full();
    assert!(Context::Init.is_init());
    assert!(!Context::Init.is_idle());
    assert!(Context::Idle.is_idle());
    assert!(Context::Init.runs_once());
    assert!(Context::Idle.runs_once());
    assert!(!Context::SoftwareTask(3).runs_once());
    assert_eq!(Context::Init.ident(&app), 0);
    assert_eq!(Context::Idle.ident(&app), 1);
    assert_eq!(Context::HardwareTask(2).ident(&app), 2);
    assert!(Context::SoftwareTask(3).has_locals(&app));
    assert!(Context::SoftwareTask(3).has_resources(&app));
    assert!(Context::SoftwareTask(3).uses_spawn(&app));
    assert!(Context::SoftwareTask(3).uses_schedule(&app));
    let none = bare();
    assert!(!Context::Idle.has_locals(&none));
    assert!(!Context::Idle.has_resources(&none));
    assert!(!Context::Idle.uses_spawn(&none));
    assert!(!Context::Idle.uses_schedule(&none));
}

#[test]
fn the_bundle_of_an_invocation() {
    let mut table = full();
    table.tasks[2].priority = 3;
    let mut s: System<u32, ()> = System::new(table, 4).unwrap();
    let init = s.start().unwrap();
    assert_eq!((init.task, init.priority, init.instant), (0, None, None));
    assert!(init.resources && init.spawn && init.schedule);
    let idle = s.finish(init.cs.unwrap(), ()).unwrap().unwrap();
    assert!(idle.cs.is_none());
    assert_eq!(idle.task, 1);
    assert_eq!(idle.priority.unwrap().get(), 0);
    assert_eq!(idle.instant, None);
    assert!(s.pend(2));
    let hard = s.dispatch(9).unwrap().context;
    assert_eq!(hard.task, 2);
    assert_eq!(hard.priority.unwrap().get(), 3);
    assert_eq!(hard.instant, Some(9));
    assert!(hard.resources && hard.spawn && hard.schedule);

    let mut quiet: System<u32, ()> = System::new(bare(), 4).unwrap();
    let cs = quiet.start().unwrap().cs.unwrap();
    assert!(quiet.finish(cs, ()).is_ok());
    assert!(quiet.spawn(3, 5).is_ok());
    let soft = quiet.dispatch(9).unwrap().context;
    assert_eq!(soft.task, 3);
    assert_eq!(soft.priority.unwrap().get(), 1);
    assert_eq!(soft.instant, None);
    assert!(!soft.resources && !soft.spawn && !soft.schedule);
}
