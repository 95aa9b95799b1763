//! The context factory: which capabilities each kind of task receives when
//! it is invoked, and the shape of the module that carries them.

use vstd::prelude::*;
use crate::app::{App, TaskKind};

verus! {

/// An execution context: where a piece of user code runs.
#[derive(Clone, Copy, Debug, PartialEq, Eq, Structural)]
pub enum Context {
    /// The `idle` loop.
    Idle,
    /// The initialization function.
    Init,
    /// A software task, by its index in the task table.
    SoftwareTask(usize),
    /// A hardware task, by its index in the task table.
    HardwareTask(usize),
}

/// What the build knows besides the task table.
#[derive(Clone, Copy, Debug, PartialEq, Eq, Structural)]
pub struct Extra {
    /// Whether `init` is handed the device peripherals.
    pub peripherals: bool,
    /// Whether a monotonic timer has been named.
    pub monotonic: bool,
}

/// Which handle to the core peripherals `init` receives.
#[derive(Clone, Copy, Debug, PartialEq, Eq, Structural)]
pub enum Peripherals {
    /// All core peripherals.
    Core,
    /// The core peripherals without the system timer, which the timer
    /// queue keeps for itself.
    CoreWithoutSysTick,
}

/// A field of the context structure.
#[derive(Clone, Copy, Debug, PartialEq, Eq, Structural)]
pub enum Field {
    /// `start`: system start time in `init`, time of firing in a hardware task.
    Start,
    /// `core`: the core peripherals.
    Core(Peripherals),
    /// `device`: the device peripherals.
    Device,
    /// `cs`: the critical-section token of `init`.
    Cs,
    /// `scheduled`: the instant a software task was asked to run at.
    Scheduled,
    /// `resources`: the resources granted; `tick` tells whether the type
    /// borrows for the invocation.
    Resources { tick: bool },
    /// `schedule`: the tasks that can be scheduled; `bound` tells whether
    /// the handle is tied to the invocation's priority token.
    Schedule { bound: bool },
    /// `spawn`: the tasks that can be spawned; `bound` as for `schedule`.
    Spawn { bound: bool },
}

/// How the constructor fills a field of the context structure.
#[derive(Clone, Copy, Debug, PartialEq, Eq, Structural)]
pub enum Value {
    /// `start` is the zero instant.
    StartZero,
    /// `start` is the constructor's `instant` argument.
    StartInstant,
    /// `scheduled` is the constructor's `instant` argument.
    ScheduledInstant,
    /// `device` is taken from the device crate.
    DeviceSteal,
    /// `cs` is a fresh critical-section token.
    CsNew,
    /// `core` is the constructor's `core` argument.
    Core,
    /// `resources` is built, from the priority token where `priority` holds.
    Resources { priority: bool },
    /// `schedule` holds the priority token where `priority` holds.
    Schedule { priority: bool },
    /// `spawn` holds the priority token and the instant as told.
    Spawn { priority: bool, instant: bool },
}

/// An item of the context module.
#[derive(Clone, Copy, Debug, PartialEq, Eq, Structural)]
pub enum Item {
    /// Re-export of the task's local statics as `Locals`.
    Locals,
    /// Re-export of the task's resource structure as `Resources`.
    Resources,
    /// The `Schedule` handle; a bound handle also has a `priority` getter.
    Schedule { bound: bool },
    /// The `Spawn` handle; `instant` tells whether it carries the instant.
    Spawn { bound: bool, instant: bool },
    /// The getters of a bound `Spawn` handle.
    SpawnGetters { instant: bool },
    /// Re-export of what `init` returns as `LateResources`.
    LateResources,
    /// The `Context` structure and its constructor.
    Context,
}

/// The heading of the context module.
#[derive(Clone, Copy, Debug, PartialEq, Eq, Structural)]
pub enum Doc {
    Idle,
    Init,
    HardwareTask,
    SoftwareTask,
}

/// The context module of one task: the capability bundle that an
/// invocation of the task receives, and how it is put together.
#[derive(Debug)]
pub struct Module {
    /// The task the module is named after.
    pub name: usize,
    pub doc: Doc,
    /// Whether the context borrows for the length of the invocation.
    pub lifetime: bool,
    pub items: Vec<Item>,
    pub fields: Vec<Field>,
    pub values: Vec<Value>,
    /// The constructor's `core` parameter.
    pub core: Option<Peripherals>,
    /// Whether the constructor takes the priority token.
    pub priority: bool,
    /// Whether the constructor takes an instant.
    pub instant: bool,
}

/// The witness of the priority that an invocation runs at. Only the
/// runtime makes one, when it builds the context of an invocation.
#[derive(Clone, Copy, Debug, PartialEq, Eq, Structural)]
pub struct Priority {
    level: u8,
}

impl Priority {
    /// The priority that the token stands for.
    pub closed spec fn level(&self) -> u8 {
        self.level
    }

    pub(crate) fn new(level: u8) -> (token: Self)
        ensures
            token.level() == level,
    {
        Priority { level }
    }

    /// Reads the priority that the token stands for.
    pub fn get(&self) -> (level: u8)
        ensures
            level == self.level(),
    {
        self.level
    }
}

/// The critical-section token of `init`: while it exists, every
/// interrupt is masked. The runtime makes it when `init` begins and takes
/// it back when `init` ends.
#[derive(Debug)]
pub struct CriticalSection {
    held: (),
}

impl CriticalSection {
    pub(crate) fn new() -> (token: Self) {
        CriticalSection { held: () }
    }
}

/// The capability bundle of one invocation. It is built just before the
/// task's body runs and is handed to it by value.
#[derive(Debug)]
pub struct Bundle {
    /// The task that is invoked.
    pub task: usize,
    /// The priority token; `init` has none.
    pub priority: Option<Priority>,
    /// When a hardware task fired, or when a software task was asked to
    /// run; present once the application schedules.
    pub instant: Option<u64>,
    /// Whether the invocation is granted resources.
    pub resources: bool,
    /// Whether the invocation may spawn.
    pub spawn: bool,
    /// Whether the invocation may schedule.
    pub schedule: bool,
    /// The critical-section token, which `init` alone holds.
    pub cs: Option<CriticalSection>,
}

/// The bundle that an invocation of `ctxt` at priority `level` and instant
/// `instant` is entitled to.
pub open spec fn bundle_for(bundle: Bundle, ctxt: Context, app: &App, level: u8, instant: u64) -> bool {
    &&& bundle.task as int == ctxt.task(app)
    &&& bundle.priority is Some <==> !(ctxt is Init)
    &&& bundle.priority matches Some(token) ==> token.level() == level
    &&& bundle.instant == if takes_instant(ctxt, app) {
        Some(instant)
    } else {
        None
    }
    &&& bundle.resources == ctxt.resources(app)
    &&& bundle.spawn == ctxt.spawns(app)
    &&& bundle.schedule == ctxt.schedules(app)
    &&& bundle.cs is Some <==> ctxt is Init
}

/// `s` with `x` added at its end where `present` holds, `s` otherwise.
pub open spec fn with<T>(s: Seq<T>, present: bool, x: T) -> Seq<T> {
    if present {
        s.push(x)
    } else {
        s
    }
}

impl Context {
    /// The context names a task of `app` of the right kind.
    pub open spec fn known_to(&self, app: &App) -> bool {
        match *self {
            Context::Idle => app.has_idle(),
            Context::Init => app.has_init(),
            Context::SoftwareTask(t) => app.software_at(t as int),
            Context::HardwareTask(t) => app.hardware_at(t as int),
        }
    }

    /// The index of the context's task.
    pub open spec fn task(&self, app: &App) -> int {
        match *self {
            Context::Idle => app.idle_index(),
            Context::Init => app.init_index(),
            Context::SoftwareTask(t) => t as int,
            Context::HardwareTask(t) => t as int,
        }
    }

    /// Whether the context's task owns local statics.
    pub open spec fn locals(&self, app: &App) -> bool {
        app.tasks@[self.task(app)].has_locals
    }

    /// Whether the context's task accesses any resource.
    pub open spec fn resources(&self, app: &App) -> bool {
        app.tasks@[self.task(app)].resources@.len() > 0
    }

    /// Whether the context's task schedules.
    pub open spec fn schedules(&self, app: &App) -> bool {
        app.tasks@[self.task(app)].uses_schedule
    }

    /// Whether the context's task spawns.
    pub open spec fn spawns(&self, app: &App) -> bool {
        app.tasks@[self.task(app)].uses_spawn
    }

    /// Whether this is `init` and it returns late resources.
    pub open spec fn returns_late(&self, app: &App) -> bool {
        *self is Init && app.tasks@[self.task(app)].kind->returns_late_resources
    }

    /// Is this the `idle` context?
    pub fn is_idle(&self) -> (yes: bool)
        ensures
            yes == (*self is Idle),
    {
        matches!(self, Context::Idle)
    }

    /// Is this the initialization context?
    pub fn is_init(&self) -> (yes: bool)
        ensures
            yes == (*self is Init),
    {
        matches!(self, Context::Init)
    }

    /// Whether this context runs only once.
    pub fn runs_once(&self) -> (yes: bool)
        ensures
            yes == (*self is Init || *self is Idle),
    {
        self.is_init() || self.is_idle()
    }

    /// The task this context belongs to.
    pub fn ident(&self, app: &App) -> (t: usize)
        requires
            self.known_to(app),
        ensures
            t as int == self.task(app),
            t < app.tasks@.len(),
            *self is Idle ==> app.first_idle(t as int),
            *self is Init ==> app.first_init(t as int),
    {
        match *self {
            Context::Idle => app.idle().unwrap(),
            Context::Init => app.init().unwrap(),
            Context::SoftwareTask(t) => t,
            Context::HardwareTask(t) => t,
        }
    }

    /// Whether this context has local statics.
    pub fn has_locals(&self, app: &App) -> (yes: bool)
        requires
            self.known_to(app),
        ensures
            yes == self.locals(app),
    {
        app.tasks[self.ident(app)].has_locals
    }

    /// Whether this context has resources.
    pub fn has_resources(&self, app: &App) -> (yes: bool)
        requires
            self.known_to(app),
        ensures
            yes == self.resources(app),
    {
        app.tasks[self.ident(app)].resources.len() > 0
    }

    /// Whether this context schedules tasks.
    pub fn uses_schedule(&self, app: &App) -> (yes: bool)
        requires
            self.known_to(app),
        ensures
            yes == self.schedules(app),
    {
        app.tasks[self.ident(app)].uses_schedule
    }

    /// Whether this context spawns tasks.
    pub fn uses_spawn(&self, app: &App) -> (yes: bool)
        requires
            self.known_to(app),
        ensures
            yes == self.spawns(app),
    {
        app.tasks[self.ident(app)].uses_spawn
    }
}

/// Whether an invocation of `ctxt` is handed an instant: tasks are, once
/// the application schedules; `init` and `idle` never.
pub open spec fn takes_instant(ctxt: Context, app: &App) -> bool {
    (ctxt is HardwareTask || ctxt is SoftwareTask) && app.schedules()
}

/// Whether the context structure of `ctxt` borrows for the invocation.
pub open spec fn borrows(ctxt: Context, resources_tick: bool, app: &App) -> bool {
    ||| ctxt is Init
    ||| ctxt.resources(app) && resources_tick
    ||| ctxt.schedules(app)
    ||| ctxt.spawns(app)
}

/// The handle to the core peripherals that `init` receives.
pub open spec fn core_of(app: &App) -> Peripherals {
    if app.schedules() {
        Peripherals::CoreWithoutSysTick
    } else {
        Peripherals::Core
    }
}

/// The fields that only one kind of context has, in order.
pub open spec fn own_fields(ctxt: Context, app: &App, extra: &Extra) -> Seq<Field> {
    match ctxt {
        Context::Init => with(
            with(Seq::empty(), app.schedules(), Field::Start).push(Field::Core(core_of(app))),
            extra.peripherals,
            Field::Device,
        ).push(Field::Cs),
        Context::Idle => Seq::empty(),
        Context::HardwareTask(_) => with(Seq::empty(), app.schedules(), Field::Start),
        Context::SoftwareTask(_) => with(Seq::empty(), app.schedules(), Field::Scheduled),
    }
}

/// The fields of the context structure of `ctxt`, in order: its own, then
/// `resources`, `schedule` and `spawn`, each where the task uses it.
pub open spec fn fields_for(ctxt: Context, resources_tick: bool, app: &App, extra: &Extra) -> Seq<
    Field,
> {
    let own = own_fields(ctxt, app, extra);
    let granted = with(own, ctxt.resources(app), Field::Resources { tick: resources_tick });
    let timed = with(granted, ctxt.schedules(app), Field::Schedule { bound: !(ctxt is Init) });
    with(timed, ctxt.spawns(app), Field::Spawn { bound: !(ctxt is Init) })
}

/// The values that only one kind of context has, in order.
pub open spec fn own_values(ctxt: Context, app: &App, extra: &Extra) -> Seq<Value> {
    match ctxt {
        Context::Init => with(
            with(Seq::empty(), app.schedules(), Value::StartZero),
            extra.peripherals,
            Value::DeviceSteal,
        ).push(Value::CsNew).push(Value::Core),
        Context::Idle => Seq::empty(),
        Context::HardwareTask(_) => with(Seq::empty(), app.schedules(), Value::StartInstant),
        Context::SoftwareTask(_) => with(Seq::empty(), app.schedules(), Value::ScheduledInstant),
    }
}

/// The values the constructor of `ctxt` writes, in order.
pub open spec fn values_for(ctxt: Context, app: &App, extra: &Extra) -> Seq<Value> {
    let own = own_values(ctxt, app, extra);
    let granted = with(own, ctxt.resources(app), Value::Resources { priority: !(ctxt is Init) });
    let timed = with(granted, ctxt.schedules(app), Value::Schedule { priority: !(ctxt is Init) });
    with(
        timed,
        ctxt.spawns(app),
        Value::Spawn { priority: !(ctxt is Init), instant: takes_instant(ctxt, app) },
    )
}

/// `s` followed by the `spawn` items of the context module of `ctxt`.
pub open spec fn with_spawn_items(s: Seq<Item>, ctxt: Context, app: &App) -> Seq<Item> {
    if !ctxt.spawns(app) {
        s
    } else if ctxt is Init {
        s.push(Item::Spawn { bound: false, instant: false })
    } else {
        s.push(Item::Spawn { bound: true, instant: takes_instant(ctxt, app) }).push(
            Item::SpawnGetters { instant: takes_instant(ctxt, app) },
        )
    }
}

/// The items of the context module of `ctxt`, in order.
pub open spec fn items_for(ctxt: Context, app: &App) -> Seq<Item> {
    let local = with(Seq::empty(), ctxt.locals(app), Item::Locals);
    let granted = with(local, ctxt.resources(app), Item::Resources);
    let timed = with(granted, ctxt.schedules(app), Item::Schedule { bound: !(ctxt is Init) });
    let spawning = with_spawn_items(timed, ctxt, app);
    with(spawning, ctxt.returns_late(app), Item::LateResources).push(Item::Context)
}

/// The `core` parameter of the constructor of `ctxt`.
pub open spec fn core_for(ctxt: Context, app: &App) -> Option<Peripherals> {
    if ctxt is Init {
        Some(core_of(app))
    } else {
        None
    }
}

/// The heading for each kind of context.
pub open spec fn doc_for(ctxt: Context) -> Doc {
    match ctxt {
        Context::Idle => Doc::Idle,
        Context::Init => Doc::Init,
        Context::HardwareTask(_) => Doc::HardwareTask,
        Context::SoftwareTask(_) => Doc::SoftwareTask,
    }
}

/// Lays out the context module of `ctxt`: the fields of its `Context`
/// structure, the value the constructor gives each, the parameters the
/// constructor takes, and the items that stand beside the structure.
///
/// `init` alone receives the peripherals and the critical-section token
/// and takes no priority token; every other context takes one and binds
/// its `spawn` and `schedule` handles to it. Tasks receive an instant once
/// the application schedules: a hardware task as `start`, a software task
/// as `scheduled`.
pub fn codegen(ctxt: Context, resources_tick: bool, app: &App, extra: &Extra) -> (module: Module)
    requires
        ctxt.known_to(app),
        app.schedules() && !(ctxt is Idle) ==> extra.monotonic,
    ensures
        module.name as int == ctxt.task(app),
        module.doc == doc_for(ctxt),
        module.lifetime == borrows(ctxt, resources_tick, app),
        module.items@ == items_for(ctxt, app),
        module.fields@ == fields_for(ctxt, resources_tick, app, extra),
        module.values@ == values_for(ctxt, app, extra),
        module.core == core_for(ctxt, app),
        module.priority == !(ctxt is Init),
        module.instant == takes_instant(ctxt, app),
{
    let mut items: Vec<Item> = Vec::new();
    let mut fields: Vec<Field> = Vec::new();
    let mut values: Vec<Value> = Vec::new();

    let name: usize = ctxt.ident(app);
    let schedule_in_app: bool = app.uses_schedule();

    let mut needs_instant: bool = false;
    let mut lt: bool = false;
    match ctxt {
        Context::Init => {
            if schedule_in_app {
                fields.push(Field::Start);
                values.push(Value::StartZero);
                fields.push(Field::Core(Peripherals::CoreWithoutSysTick));
            } else {
                fields.push(Field::Core(Peripherals::Core));
            }

            if extra.peripherals {
                fields.push(Field::Device);
                values.push(Value::DeviceSteal);
            }

            lt = true;
            fields.push(Field::Cs);
            values.push(Value::CsNew);
            values.push(Value::Core);
        },
        Context::Idle => {},
        Context::HardwareTask(_) => {
            if schedule_in_app {
                fields.push(Field::Start);
                values.push(Value::StartInstant);
                needs_instant = true;
            }
        },
        Context::SoftwareTask(_) => {
            if schedule_in_app {
                fields.push(Field::Scheduled);
                values.push(Value::ScheduledInstant);
                needs_instant = true;
            }
        },
    }

    if ctxt.has_locals(app) {
        items.push(Item::Locals);
    }

    if ctxt.has_resources(app) {
        if resources_tick {
            lt = true;
        }
        items.push(Item::Resources);
        fields.push(Field::Resources { tick: resources_tick });
        values.push(Value::Resources { priority: !ctxt.is_init() });
    }

    if ctxt.uses_schedule(app) {
        if ctxt.is_init() {
            items.push(Item::Schedule { bound: false });
            fields.push(Field::Schedule { bound: false });
            values.push(Value::Schedule { priority: false });
        } else {
            lt = true;
            items.push(Item::Schedule { bound: true });
            fields.push(Field::Schedule { bound: true });
            values.push(Value::Schedule { priority: true });
        }
    }

    if ctxt.uses_spawn(app) {
        if ctxt.is_init() {
            fields.push(Field::Spawn { bound: false });
            items.push(Item::Spawn { bound: false, instant: false });
            values.push(Value::Spawn { priority: false, instant: false });
        } else {
            lt = true;
            fields.push(Field::Spawn { bound: true });

            let mut instant_method: bool = false;
            if ctxt.is_idle() {
                items.push(Item::Spawn { bound: true, instant: false });
                values.push(Value::Spawn { priority: true, instant: false });
            } else {
                let instant_field: bool = schedule_in_app;
                if schedule_in_app {
                    needs_instant = true;
                    instant_method = true;
                }
                items.push(Item::Spawn { bound: true, instant: instant_field });
                values.push(Value::Spawn { priority: true, instant: needs_instant });
            }

            items.push(Item::SpawnGetters { instant: instant_method });
        }
    }

    if let Context::Init = ctxt {
        if let TaskKind::Init { returns_late_resources } = app.tasks[name].kind {
            if returns_late_resources {
                items.push(Item::LateResources);
            }
        }
    }

    let doc: Doc = match ctxt {
        Context::Idle => Doc::Idle,
        Context::Init => Doc::Init,
        Context::HardwareTask(_) => Doc::HardwareTask,
        Context::SoftwareTask(_) => Doc::SoftwareTask,
    };

    let core: Option<Peripherals> = if ctxt.is_init() {
        if schedule_in_app {
            Some(Peripherals::CoreWithoutSysTick)
        } else {
            Some(Peripherals::Core)
        }
    } else {
        None
    };

    let priority: bool = !ctxt.is_init();

    items.push(Item::Context);

    Module { name, doc, lifetime: lt, items, fields, values, core, priority, instant: needs_instant }
}

/// A member of the context structure, by name.
#[derive(Clone, Copy, Debug, PartialEq, Eq, Structural)]
pub enum Member {
    Start,
    Core,
    Device,
    Cs,
    Scheduled,
    Resources,
    Schedule,
    Spawn,
}

/// The member that a field declares.
pub open spec fn declares(f: Field) -> Member {
    match f {
        Field::Start => Member::Start,
        Field::Core(_) => Member::Core,
        Field::Device => Member::Device,
        Field::Cs => Member::Cs,
        Field::Scheduled => Member::Scheduled,
        Field::Resources { .. } => Member::Resources,
        Field::Schedule { .. } => Member::Schedule,
        Field::Spawn { .. } => Member::Spawn,
    }
}

/// The member that a value is written to.
pub open spec fn writes(v: Value) -> Member {
    match v {
        Value::StartZero => Member::Start,
        Value::StartInstant => Member::Start,
        Value::ScheduledInstant => Member::Scheduled,
        Value::DeviceSteal => Member::Device,
        Value::CsNew => Member::Cs,
        Value::Core => Member::Core,
        Value::Resources { .. } => Member::Resources,
        Value::Schedule { .. } => Member::Schedule,
        Value::Spawn { .. } => Member::Spawn,
    }
}

/// What each kind of context is entitled to: `init` alone to the
/// peripherals and the critical-section token; `init` and hardware tasks
/// to `start` and software tasks to `scheduled`, once the application
/// schedules; every context to the resources and the handles that its
/// task declares.
pub open spec fn entitled(ctxt: Context, app: &App, extra: &Extra, m: Member) -> bool {
    match m {
        Member::Start => (ctxt is Init || ctxt is HardwareTask) && app.schedules(),
        Member::Core => ctxt is Init,
        Member::Device => ctxt is Init && extra.peripherals,
        Member::Cs => ctxt is Init,
        Member::Scheduled => ctxt is SoftwareTask && app.schedules(),
        Member::Resources => ctxt.resources(app),
        Member::Schedule => ctxt.schedules(app),
        Member::Spawn => ctxt.spawns(app),
    }
}

/// How many of the fields `s` declare member `m`.
pub open spec fn declared_times(s: Seq<Field>, m: Member) -> nat
    decreases s.len(),
{
    if s.len() == 0 {
        0
    } else {
        declared_times(s.drop_last(), m) + if declares(s.last()) == m {
            1nat
        } else {
            0nat
        }
    }
}

/// How many of the values `s` are written to member `m`.
pub open spec fn written_times(s: Seq<Value>, m: Member) -> nat
    decreases s.len(),
{
    if s.len() == 0 {
        0
    } else {
        written_times(s.drop_last(), m) + if writes(s.last()) == m {
            1nat
        } else {
            0nat
        }
    }
}

proof fn lemma_declared_with(s: Seq<Field>, present: bool, f: Field, m: Member)
    ensures
        declared_times(with(s, present, f), m) == declared_times(s, m) + if present && declares(f)
            == m {
            1nat
        } else {
            0nat
        },
{
    if present {
        assert(s.push(f).drop_last() =~= s);
    }
}

proof fn lemma_written_with(s: Seq<Value>, present: bool, v: Value, m: Member)
    ensures
        written_times(with(s, present, v), m) == written_times(s, m) + if present && writes(v)
            == m {
            1nat
        } else {
            0nat
        },
{
    if present {
        assert(s.push(v).drop_last() =~= s);
    }
}

/// The context structure holds exactly what the context is entitled to,
/// and the constructor fills exactly that: each member that `ctxt` is
/// entitled to is declared by one field and written by one value, and no
/// other member is declared or written at all.
pub proof fn lemma_exact_bundle(
    ctxt: Context,
    resources_tick: bool,
    app: &App,
    extra: &Extra,
    m: Member,
)
    ensures
        declared_times(fields_for(ctxt, resources_tick, app, extra), m) == if entitled(
            ctxt,
            app,
            extra,
            m,
        ) {
            1nat
        } else {
            0nat
        },
        written_times(values_for(ctxt, app, extra), m) == declared_times(
            fields_for(ctxt, resources_tick, app, extra),
            m,
        ),
{
    let bound = !(ctxt is Init);
    let none = Seq::<Field>::empty();
    let f0 = with(none, app.schedules(), Field::Start);
    let f1 = f0.push(Field::Core(core_of(app)));
    let f2 = with(f1, extra.peripherals, Field::Device);
    lemma_declared_with(none, app.schedules(), Field::Start, m);
    lemma_declared_with(f0, true, Field::Core(core_of(app)), m);
    lemma_declared_with(f1, extra.peripherals, Field::Device, m);
    lemma_declared_with(f2, true, Field::Cs, m);
    lemma_declared_with(none, app.schedules(), Field::Scheduled, m);
    let own = own_fields(ctxt, app, extra);
    let granted = with(own, ctxt.resources(app), Field::Resources { tick: resources_tick });
    let timed = with(granted, ctxt.schedules(app), Field::Schedule { bound });
    lemma_declared_with(own, ctxt.resources(app), Field::Resources { tick: resources_tick }, m);
    lemma_declared_with(granted, ctxt.schedules(app), Field::Schedule { bound }, m);
    lemma_declared_with(timed, ctxt.spawns(app), Field::Spawn { bound }, m);

    let nothing = Seq::<Value>::empty();
    let v0 = with(nothing, app.schedules(), Value::StartZero);
    let v1 = with(v0, extra.peripherals, Value::DeviceSteal);
    let v2 = v1.push(Value::CsNew);
    lemma_written_with(nothing, app.schedules(), Value::StartZero, m);
    lemma_written_with(v0, extra.peripherals, Value::DeviceSteal, m);
    lemma_written_with(v1, true, Value::CsNew, m);
    lemma_written_with(v2, true, Value::Core, m);
    lemma_written_with(nothing, app.schedules(), Value::StartInstant, m);
    lemma_written_with(nothing, app.schedules(), Value::ScheduledInstant, m);
    let own_v = own_values(ctxt, app, extra);
    let granted_v = with(own_v, ctxt.resources(app), Value::Resources { priority: bound });
    let timed_v = with(granted_v, ctxt.schedules(app), Value::Schedule { priority: bound });
    let spawn = Value::Spawn { priority: bound, instant: takes_instant(ctxt, app) };
    lemma_written_with(own_v, ctxt.resources(app), Value::Resources { priority: bound }, m);
    lemma_written_with(granted_v, ctxt.schedules(app), Value::Schedule { priority: bound }, m);
    lemma_written_with(timed_v, ctxt.spawns(app), spawn, m);
}

/// What a value reads when the constructor writes it.
pub open spec fn reads_priority(v: Value) -> bool {
    match v {
        Value::Resources { priority } => priority,
        Value::Schedule { priority } => priority,
        Value::Spawn { priority, .. } => priority,
        _ => false,
    }
}

/// Whether a value is made from the constructor's `instant` argument.
pub open spec fn reads_instant(v: Value) -> bool {
    match v {
        Value::StartInstant => true,
        Value::ScheduledInstant => true,
        Value::Spawn { instant, .. } => instant,
        _ => false,
    }
}

/// The constructor reads only what it is handed: a value is made from the
/// priority token only in a context that takes one, which is every
/// context but `init`; from the instant only where the constructor takes
/// an instant; and from `core` only in `init`.
pub proof fn lemma_values_read_parameters(ctxt: Context, app: &App, extra: &Extra, i: int)
    requires
        0 <= i < values_for(ctxt, app, extra).len(),
    ensures
        reads_priority(values_for(ctxt, app, extra)[i]) ==> !(ctxt is Init),
        reads_instant(values_for(ctxt, app, extra)[i]) ==> takes_instant(ctxt, app),
        values_for(ctxt, app, extra)[i] == Value::Core ==> core_for(ctxt, app) is Some,
{
}

/// Builds the capability bundle of one invocation of `ctxt`: the priority
/// token for every context but `init`, the critical-section token for
/// `init`, the instant for tasks once the application schedules, and the
/// capabilities that the task declares.
pub(crate) fn build(ctxt: Context, app: &App, level: u8, instant: u64) -> (bundle: Bundle)
    requires
        ctxt.known_to(app),
    ensures
        bundle_for(bundle, ctxt, app, level, instant),
{
    let task: usize = ctxt.ident(app);
    let timed: bool = match ctxt {
        Context::HardwareTask(_) => app.uses_schedule(),
        Context::SoftwareTask(_) => app.uses_schedule(),
        _ => false,
    };
    Bundle {
        task,
        priority: if ctxt.is_init() {
            None
        } else {
            Some(Priority::new(level))
        },
        instant: if timed {
            Some(instant)
        } else {
            None
        },
        resources: ctxt.has_resources(app),
        spawn: ctxt.uses_spawn(app),
        schedule: ctxt.uses_schedule(app),
        cs: if ctxt.is_init() {
            Some(CriticalSection::new())
        } else {
            None
        },
    }
}

} // verus!
