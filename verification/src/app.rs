//! The static description of an application: its tasks, its resources and
//! who may touch what. It is fixed before the system starts and never
//! changes afterwards.

use vstd::prelude::*;
use crate::mask::higher;

verus! {

/// Why a task and resource table cannot be built into a system.
#[derive(Clone, Copy, Debug, PartialEq, Eq, Structural)]
pub enum ConfigError {
    /// No task is an `init` task.
    MissingInit,
    /// More than one task is an `init` task.
    DuplicateInit,
    /// More than one task is an `idle` task.
    DuplicateIdle,
    /// A resource lists an accessor that is no task of the table.
    UnknownTask { resource: usize, task: usize },
    /// A task names a resource that does not list it as an accessor.
    AccessOutsideSet { task: usize, resource: usize },
    /// A task-local resource is named more than once.
    TaskLocalShared { resource: usize },
}

/// Whether `x` occurs in `list`.
pub fn lists(list: &Vec<usize>, x: usize) -> (found: bool)
    ensures
        found == list@.contains(x),
{
    let mut i: usize = 0;
    while i < list.len()
        invariant
            i <= list@.len(),
            forall|j: int| 0 <= j < i ==> list@[j] != x,
        decreases list@.len() - i,
    {
        if list[i] == x {
            return true;
        }
        i += 1;
    }
    false
}

/// What kind of task this is, with what only that kind has.
#[derive(Clone, Copy, Debug, PartialEq, Eq, Structural)]
pub enum TaskKind {
    /// Runs once, before interrupts are enabled.
    Init { returns_late_resources: bool },
    /// Runs at priority zero whenever nothing else does.
    Idle,
    /// Started by the hardware interrupt it binds.
    Hardware { binds: u16 },
    /// Started by `spawn` or `schedule`; holds `capacity` message slots.
    Software { capacity: u8 },
}

/// One task of the application.
#[derive(Debug)]
pub struct Task {
    pub kind: TaskKind,
    /// Static priority; higher is more urgent.
    pub priority: u8,
    /// The resources the task declares it accesses, by index.
    pub resources: Vec<usize>,
    /// Whether the task owns local statics.
    pub has_locals: bool,
    /// Whether the task spawns software tasks.
    pub uses_spawn: bool,
    /// Whether the task schedules software tasks for a later instant.
    pub uses_schedule: bool,
}

/// One resource of the application.
#[derive(Debug)]
pub struct Resource {
    /// Owned by a single task and accessed without a lock.
    pub task_local: bool,
    /// The tasks that may access this resource, by index.
    pub accessors: Vec<usize>,
}

/// The task and resource tables.
#[derive(Debug)]
pub struct App {
    pub tasks: Vec<Task>,
    pub resources: Vec<Resource>,
}

impl Task {
    /// The priority the task runs at: `idle` always runs at zero.
    pub open spec fn level(&self) -> u8 {
        if self.kind is Idle {
            0
        } else {
            self.priority
        }
    }

    /// Computes `level`.
    pub fn run_level(&self) -> (level: u8)
        ensures
            level == self.level(),
    {
        match self.kind {
            TaskKind::Idle => 0,
            _ => self.priority,
        }
    }
}

impl App {
    /// Task `i` exists and is an `init` task.
    pub open spec fn init_at(&self, i: int) -> bool {
        0 <= i < self.tasks@.len() && self.tasks@[i].kind is Init
    }

    /// Task `i` exists and is an `idle` task.
    pub open spec fn idle_at(&self, i: int) -> bool {
        0 <= i < self.tasks@.len() && self.tasks@[i].kind is Idle
    }

    /// Task `i` exists and is a hardware task.
    pub open spec fn hardware_at(&self, i: int) -> bool {
        0 <= i < self.tasks@.len() && self.tasks@[i].kind is Hardware
    }

    /// Task `i` exists and is a software task.
    pub open spec fn software_at(&self, i: int) -> bool {
        0 <= i < self.tasks@.len() && self.tasks@[i].kind is Software
    }

    /// Some task is an `init` task.
    pub open spec fn has_init(&self) -> bool {
        exists|i: int| self.init_at(i)
    }

    /// Some task is an `idle` task.
    pub open spec fn has_idle(&self) -> bool {
        exists|i: int| self.idle_at(i)
    }

    /// `i` is the first `init` task of the table.
    pub open spec fn first_init(&self, i: int) -> bool {
        self.init_at(i) && forall|j: int| 0 <= j < i ==> !self.init_at(j)
    }

    /// `i` is the first `idle` task of the table.
    pub open spec fn first_idle(&self, i: int) -> bool {
        self.idle_at(i) && forall|j: int| 0 <= j < i ==> !self.idle_at(j)
    }

    /// The index of the first `init` task, where there is one.
    pub open spec fn init_index(&self) -> int {
        choose|i: int| self.first_init(i)
    }

    /// The index of the first `idle` task, where there is one.
    pub open spec fn idle_index(&self) -> int {
        choose|i: int| self.first_idle(i)
    }

    /// Some task of the application schedules.
    pub open spec fn schedules(&self) -> bool {
        exists|i: int| 0 <= i < self.tasks@.len() && (#[trigger] self.tasks@[i]).uses_schedule
    }

    /// Finds the first `init` task.
    pub fn init(&self) -> (found: Option<usize>)
        ensures
            found is Some <==> self.has_init(),
            found matches Some(i) ==> self.first_init(i as int) && i as int == self.init_index(),
    {
        let mut i: usize = 0;
        while i < self.tasks.len()
            invariant
                i <= self.tasks@.len(),
                forall|j: int| 0 <= j < i ==> !self.init_at(j),
            decreases self.tasks@.len() - i,
        {
            if let TaskKind::Init { .. } = self.tasks[i].kind {
                proof {
                    self.lemma_first_init_unique(i as int);
                }
                return Some(i);
            }
            i += 1;
        }
        None
    }

    /// Finds the first `idle` task.
    pub fn idle(&self) -> (found: Option<usize>)
        ensures
            found is Some <==> self.has_idle(),
            found matches Some(i) ==> self.first_idle(i as int) && i as int == self.idle_index(),
    {
        let mut i: usize = 0;
        while i < self.tasks.len()
            invariant
                i <= self.tasks@.len(),
                forall|j: int| 0 <= j < i ==> !self.idle_at(j),
            decreases self.tasks@.len() - i,
        {
            if let TaskKind::Idle = self.tasks[i].kind {
                proof {
                    self.lemma_first_idle_unique(i as int);
                }
                return Some(i);
            }
            i += 1;
        }
        None
    }

    /// Whether any task of the application schedules.
    pub fn uses_schedule(&self) -> (yes: bool)
        ensures
            yes == self.schedules(),
    {
        let mut i: usize = 0;
        while i < self.tasks.len()
            invariant
                i <= self.tasks@.len(),
                forall|j: int| 0 <= j < i ==> !(#[trigger] self.tasks@[j]).uses_schedule,
            decreases self.tasks@.len() - i,
        {
            if self.tasks[i].uses_schedule {
                return true;
            }
            i += 1;
        }
        false
    }

    /// Exactly one task is an `init` task.
    pub open spec fn one_init(&self) -> bool {
        self.has_init() && forall|i: int, j: int| self.init_at(i) && self.init_at(j) ==> i == j
    }

    /// At most one task is an `idle` task.
    pub open spec fn one_idle(&self) -> bool {
        forall|i: int, j: int| self.idle_at(i) && self.idle_at(j) ==> i == j
    }

    /// Entry `k` of the accessor list of resource `r` names a task that
    /// does not exist.
    pub open spec fn unknown_at(&self, r: int, k: int) -> bool {
        &&& 0 <= r < self.resources@.len()
        &&& 0 <= k < self.resources@[r].accessors@.len()
        &&& self.resources@[r].accessors@[k] >= self.tasks@.len()
    }

    /// Every accessor that a resource lists is a task of the table.
    pub open spec fn accessors_known(&self) -> bool {
        forall|r: int, k: int| !self.unknown_at(r, k)
    }

    /// Resource `r` exists and lists task `t` as an accessor.
    pub open spec fn declared(&self, t: int, r: int) -> bool {
        0 <= r < self.resources@.len() && 0 <= t <= usize::MAX && self.resources@[r].accessors@.contains(
            t as usize,
        )
    }

    /// Slot `k` of the access list of task `t` names resource `r`.
    pub open spec fn uses(&self, t: int, k: int, r: int) -> bool {
        &&& 0 <= t < self.tasks@.len()
        &&& 0 <= k < self.tasks@[t].resources@.len()
        &&& self.tasks@[t].resources@[k] == r
    }

    /// Slot `k` of task `t` names a resource that does not list `t`.
    pub open spec fn undeclared_at(&self, t: int, k: int) -> bool {
        &&& 0 <= t < self.tasks@.len()
        &&& 0 <= k < self.tasks@[t].resources@.len()
        &&& !self.declared(t, self.tasks@[t].resources@[k] as int)
    }

    /// Every access that a task declares is inside the resource's set.
    pub open spec fn accesses_declared(&self) -> bool {
        forall|t: int, k: int| !self.undeclared_at(t, k)
    }

    /// At most one access slot in the whole table names resource `r`.
    pub open spec fn exclusive(&self, r: int) -> bool {
        forall|t1: int, k1: int, t2: int, k2: int|
            #[trigger] self.uses(t1, k1, r) && #[trigger] self.uses(t2, k2, r) ==> t1 == t2 && k1
                == k2
    }

    /// Resource `r` is task-local and yet named by more than one slot.
    pub open spec fn shared_local(&self, r: int) -> bool {
        0 <= r < self.resources@.len() && self.resources@[r].task_local && !self.exclusive(r)
    }

    /// Every task-local resource is named by at most one access slot.
    pub open spec fn locals_exclusive(&self) -> bool {
        forall|r: int| !self.shared_local(r)
    }

    /// The table can be built into a system.
    pub open spec fn valid(&self) -> bool {
        &&& self.one_init()
        &&& self.one_idle()
        &&& self.accessors_known()
        &&& self.accesses_declared()
        &&& self.locals_exclusive()
    }

    /// Task `t` is a software task of priority `p`, whose invocations
    /// wait in the ready queue of level `p`.
    pub open spec fn queues_at(&self, t: int, p: u8) -> bool {
        self.software_at(t) && self.tasks@[t].priority == p
    }

    /// Task `t` may lock resource `r`: the resource is shared, the task
    /// names it, and the resource lists the task.
    pub open spec fn lockable(&self, t: int, r: int) -> bool {
        &&& 0 <= t < self.tasks@.len()
        &&& 0 <= r < self.resources@.len()
        &&& !self.resources@[r].task_local
        &&& 0 <= r <= usize::MAX && self.tasks@[t].resources@.contains(r as usize)
        &&& self.declared(t, r)
    }

    /// What is wrong with the table, where `e` is what `validate` says: the
    /// rule that `e` stands for is the first one broken, and the place
    /// that `e` names is the first that breaks it.
    pub open spec fn rejects(&self, e: ConfigError) -> bool {
        &&& self.points_at(e)
        &&& match e {
            ConfigError::MissingInit => !self.has_init(),
            ConfigError::DuplicateInit => self.has_init() && !self.one_init(),
            ConfigError::DuplicateIdle => self.one_init() && !self.one_idle(),
            ConfigError::UnknownTask { .. } => self.one_init() && self.one_idle()
                && !self.accessors_known(),
            ConfigError::AccessOutsideSet { .. } => self.one_init() && self.one_idle()
                && self.accessors_known() && !self.accesses_declared(),
            ConfigError::TaskLocalShared { .. } => self.one_init() && self.one_idle()
                && self.accessors_known() && self.accesses_declared() && !self.locals_exclusive(),
        }
    }

    /// The level that accessor `t` of a resource contributes to its
    /// ceiling: `init` runs with everything masked and contributes nothing.
    pub open spec fn level_of(&self, t: int) -> u8 {
        if 0 <= t < self.tasks@.len() && !(self.tasks@[t].kind is Init) {
            self.tasks@[t].level()
        } else {
            0
        }
    }

    /// The highest level among the first `n` tasks that `who` lists.
    pub open spec fn highest_level(&self, who: Seq<usize>, n: nat) -> u8
        decreases n,
    {
        if n == 0 {
            0
        } else {
            higher(self.highest_level(who, (n - 1) as nat), self.level_of(who[n - 1] as int))
        }
    }

    /// The ceiling of resource `r`: the highest level among the tasks that
    /// may access it.
    pub open spec fn ceiling_of(&self, r: int) -> u8 {
        if 0 <= r < self.resources@.len() {
            self.highest_level(self.resources@[r].accessors@, self.resources@[r].accessors@.len())
        } else {
            0
        }
    }

    /// The message slots that task `t` adds to level `p`: its capacity
    /// where it is a software task of that priority, nothing otherwise.
    pub open spec fn slots_of(&self, t: int, p: u8) -> nat {
        if self.software_at(t) && self.tasks@[t].priority == p {
            self.tasks@[t].kind->capacity as nat
        } else {
            0
        }
    }

    /// The message slots that the first `n` tasks add to level `p`.
    pub open spec fn slots_upto(&self, p: u8, n: nat) -> nat
        decreases n,
    {
        if n == 0 {
            0
        } else {
            self.slots_upto(p, (n - 1) as nat) + self.slots_of(n - 1, p)
        }
    }

    /// The capacity of the ready queue of level `p`: the sum of the
    /// capacities of the software tasks of that priority, as far as a
    /// `usize` can say it.
    pub open spec fn level_slots(&self, p: u8) -> nat {
        let sum = self.slots_upto(p, self.tasks@.len());
        if sum <= usize::MAX {
            sum
        } else {
            usize::MAX as nat
        }
    }

    /// Computes `level_slots`.
    pub fn slots(&self, p: u8) -> (slots: usize)
        ensures
            slots == self.level_slots(p),
    {
        let mut sum: usize = 0;
        let mut i: usize = 0;
        while i < self.tasks.len()
            invariant
                i <= self.tasks@.len(),
                sum == if self.slots_upto(p, i as nat) <= usize::MAX {
                    self.slots_upto(p, i as nat)
                } else {
                    usize::MAX as nat
                },
            decreases self.tasks@.len() - i,
        {
            if let TaskKind::Software { capacity } = self.tasks[i].kind {
                if self.tasks[i].priority == p {
                    let more: usize = capacity as usize;
                    if sum > usize::MAX - more {
                        sum = usize::MAX;
                    } else {
                        sum = sum + more;
                    }
                }
            }
            i += 1;
        }
        sum
    }

    /// Whether a second `init` task stands after the first one, at `first`.
    fn init_repeats(&self, first: usize) -> (again: bool)
        requires
            self.first_init(first as int),
        ensures
            again == !self.one_init(),
    {
        let n: usize = self.tasks.len();
        let mut i: usize = first + 1;
        while i < self.tasks.len()
            invariant
                first < i <= self.tasks@.len(),
                self.first_init(first as int),
                forall|j: int| first < j < i ==> !self.init_at(j),
            decreases self.tasks@.len() - i,
        {
            if let TaskKind::Init { .. } = self.tasks[i].kind {
                assert(self.init_at(i as int) && self.init_at(first as int));
                return true;
            }
            i += 1;
        }
        false
    }

    /// Whether more than one task is an `idle` task.
    fn idle_repeats(&self) -> (again: bool)
        ensures
            again == !self.one_idle(),
    {
        match self.idle() {
            None => false,
            Some(first) => {
                let n: usize = self.tasks.len();
                let mut i: usize = first + 1;
                while i < self.tasks.len()
                    invariant
                        first < i <= self.tasks@.len(),
                        self.first_idle(first as int),
                        forall|j: int| first < j < i ==> !self.idle_at(j),
                    decreases self.tasks@.len() - i,
                {
                    if let TaskKind::Idle = self.tasks[i].kind {
                        assert(self.idle_at(i as int) && self.idle_at(first as int));
                        return true;
                    }
                    i += 1;
                }
                false
            },
        }
    }

    /// `(r, k)` is the first accessor entry, in table order, that names a
    /// task that does not exist.
    pub open spec fn first_unknown(&self, r: int, k: int) -> bool {
        &&& self.unknown_at(r, k)
        &&& forall|r2: int, k2: int| r2 < r || (r2 == r && k2 < k) ==> !self.unknown_at(r2, k2)
    }

    /// Finds the first accessor entry that names a task that does not exist.
    fn find_unknown(&self) -> (found: Option<(usize, usize)>)
        ensures
            found is None <==> self.accessors_known(),
            found matches Some((r, k)) ==> self.first_unknown(r as int, k as int),
    {
        let mut r: usize = 0;
        while r < self.resources.len()
            invariant
                r <= self.resources@.len(),
                forall|r2: int, k2: int| r2 < r ==> !self.unknown_at(r2, k2),
            decreases self.resources@.len() - r,
        {
            let list = &self.resources[r].accessors;
            let mut k: usize = 0;
            while k < list.len()
                invariant
                    r < self.resources@.len(),
                    list@ == self.resources@[r as int].accessors@,
                    k <= list@.len(),
                    forall|r2: int, k2: int|
                        r2 < r || (r2 == r && k2 < k) ==> !self.unknown_at(r2, k2),
                decreases list@.len() - k,
            {
                if list[k] >= self.tasks.len() {
                    assert(self.unknown_at(r as int, k as int));
                    return Some((r, k));
                }
                k += 1;
            }
            r += 1;
        }
        None
    }

    /// `(t, k)` is the first access slot, in table order, that names a
    /// resource which does not list the task.
    pub open spec fn first_undeclared(&self, t: int, k: int) -> bool {
        &&& self.undeclared_at(t, k)
        &&& forall|t2: int, k2: int| t2 < t || (t2 == t && k2 < k) ==> !self.undeclared_at(t2, k2)
    }

    /// Finds the first access slot that is outside the resource's set.
    fn find_undeclared(&self) -> (found: Option<(usize, usize)>)
        ensures
            found is None <==> self.accesses_declared(),
            found matches Some((t, k)) ==> self.first_undeclared(t as int, k as int),
    {
        let mut t: usize = 0;
        while t < self.tasks.len()
            invariant
                t <= self.tasks@.len(),
                forall|t2: int, k2: int| t2 < t ==> !self.undeclared_at(t2, k2),
            decreases self.tasks@.len() - t,
        {
            let list = &self.tasks[t].resources;
            let mut k: usize = 0;
            while k < list.len()
                invariant
                    t < self.tasks@.len(),
                    list@ == self.tasks@[t as int].resources@,
                    k <= list@.len(),
                    forall|t2: int, k2: int|
                        t2 < t || (t2 == t && k2 < k) ==> !self.undeclared_at(t2, k2),
                decreases list@.len() - k,
            {
                let r: usize = list[k];
                let inside: bool = r < self.resources.len() && lists(&self.resources[r].accessors, t);
                if !inside {
                    assert(self.undeclared_at(t as int, k as int));
                    return Some((t, k));
                }
                k += 1;
            }
            t += 1;
        }
        None
    }

    /// Whether more than one access slot of the table names resource `r`.
    fn named_twice(&self, r: usize) -> (twice: bool)
        ensures
            twice == !self.exclusive(r as int),
    {
        let mut seen: bool = false;
        let ghost mut at: (int, int) = (0, 0);
        let mut t: usize = 0;
        while t < self.tasks.len()
            invariant
                t <= self.tasks@.len(),
                seen ==> self.uses(at.0, at.1, r as int) && at.0 < t,
                forall|i: int, j: int| i < t && #[trigger] self.uses(i, j, r as int) ==> seen && at == (i, j),
            decreases self.tasks@.len() - t,
        {
            let list = &self.tasks[t].resources;
            let mut k: usize = 0;
            while k < list.len()
                invariant
                    t < self.tasks@.len(),
                    list@ == self.tasks@[t as int].resources@,
                    k <= list@.len(),
                    seen ==> self.uses(at.0, at.1, r as int) && (at.0 < t || (at.0 == t && at.1 < k)),
                    forall|i: int, j: int|
                        (i < t || (i == t && j < k)) && #[trigger] self.uses(i, j, r as int) ==> seen
                            && at == (i, j),
                decreases list@.len() - k,
            {
                if list[k] == r {
                    assert(self.uses(t as int, k as int, r as int));
                    if seen {
                        return true;
                    }
                    seen = true;
                    proof {
                        at = (t as int, k as int);
                    }
                }
                k += 1;
            }
            t += 1;
        }
        false
    }

    /// `r` is the first task-local resource that more than one slot names.
    pub open spec fn first_shared_local(&self, r: int) -> bool {
        self.shared_local(r) && forall|r2: int| r2 < r ==> !self.shared_local(r2)
    }

    /// Finds the first task-local resource that more than one slot names.
    fn find_shared_local(&self) -> (found: Option<usize>)
        ensures
            found is None <==> self.locals_exclusive(),
            found matches Some(r) ==> self.first_shared_local(r as int),
    {
        let mut r: usize = 0;
        while r < self.resources.len()
            invariant
                r <= self.resources@.len(),
                forall|r2: int| r2 < r ==> !self.shared_local(r2),
            decreases self.resources@.len() - r,
        {
            if self.resources[r].task_local && self.named_twice(r) {
                assert(self.shared_local(r as int));
                return Some(r);
            }
            r += 1;
        }
        None
    }

    /// The place that `e` names is the first, in table order, that breaks
    /// the rule which `e` stands for.
    pub open spec fn points_at(&self, e: ConfigError) -> bool {
        match e {
            ConfigError::UnknownTask { resource, task } => self.unknown_first(
                resource as int,
                task as int,
            ),
            ConfigError::AccessOutsideSet { task, resource } => self.undeclared_first(
                task as int,
                resource as int,
            ),
            ConfigError::TaskLocalShared { resource } => self.first_shared_local(resource as int),
            _ => true,
        }
    }

    /// The first accessor entry that names no task stands in the list of
    /// resource `r` and names `t`.
    pub open spec fn unknown_first(&self, r: int, t: int) -> bool {
        exists|k: int| #[trigger] self.first_unknown(r, k) && self.resources@[r].accessors@[k] == t
    }

    /// The first access slot outside its resource's set stands in the list
    /// of task `t` and names `r`.
    pub open spec fn undeclared_first(&self, t: int, r: int) -> bool {
        exists|k: int| #[trigger] self.first_undeclared(t, k) && self.tasks@[t].resources@[k] == r
    }

    /// Checks the table against the rules that a system relies on, in this
    /// order: exactly one `init`; at most one `idle`; every listed accessor
    /// exists; every access a task declares is inside the resource's set;
    /// no task-local resource is named twice. The first rule that fails
    /// gives the error, with the first place in table order that breaks it.
    pub fn validate(&self) -> (checked: Result<(), ConfigError>)
        ensures
            checked is Ok <==> self.valid(),
            checked matches Err(e) ==> self.rejects(e),
    {
        let first: usize = match self.init() {
            None => {
                return Err(ConfigError::MissingInit);
            },
            Some(first) => first,
        };
        if self.init_repeats(first) {
            return Err(ConfigError::DuplicateInit);
        }
        if self.idle_repeats() {
            return Err(ConfigError::DuplicateIdle);
        }
        if let Some((r, k)) = self.find_unknown() {
            let task: usize = self.resources[r].accessors[k];
            return Err(ConfigError::UnknownTask { resource: r, task });
        }
        if let Some((t, k)) = self.find_undeclared() {
            let resource: usize = self.tasks[t].resources[k];
            return Err(ConfigError::AccessOutsideSet { task: t, resource });
        }
        if let Some(r) = self.find_shared_local() {
            return Err(ConfigError::TaskLocalShared { resource: r });
        }
        Ok(())
    }

    /// The highest level among the first `n` tasks that schedule.
    pub open spec fn scheduling_level(&self, n: nat) -> u8
        decreases n,
    {
        if n == 0 {
            0
        } else {
            higher(
                self.scheduling_level((n - 1) as nat),
                if self.tasks@[n - 1].uses_schedule {
                    self.level_of(n - 1)
                } else {
                    0
                },
            )
        }
    }

    /// The ceiling of the timer queue, which is a shared resource of the
    /// tasks that schedule: the highest level among them.
    pub open spec fn timer_ceiling_of(&self) -> u8 {
        self.scheduling_level(self.tasks@.len())
    }

    /// Computes the ceiling of the timer queue.
    pub fn timer_ceiling(&self) -> (ceiling: u8)
        ensures
            ceiling == self.timer_ceiling_of(),
    {
        let mut ceiling: u8 = 0;
        let mut i: usize = 0;
        while i < self.tasks.len()
            invariant
                i <= self.tasks@.len(),
                ceiling == self.scheduling_level(i as nat),
            decreases self.tasks@.len() - i,
        {
            if self.tasks[i].uses_schedule {
                let mut level: u8 = 0;
                if let TaskKind::Init { .. } = self.tasks[i].kind {
                } else {
                    level = self.tasks[i].run_level();
                }
                if level > ceiling {
                    ceiling = level;
                }
            }
            i += 1;
        }
        ceiling
    }

    /// No task that schedules runs above the ceiling of the timer queue.
    pub proof fn lemma_timer_ceiling_covers(&self, t: int, n: nat)
        requires
            0 <= t < n <= self.tasks@.len(),
            self.tasks@[t].uses_schedule,
        ensures
            self.level_of(t) <= self.scheduling_level(n),
        decreases n,
    {
        if t < n - 1 {
            self.lemma_timer_ceiling_covers(t, (n - 1) as nat);
        }
    }

    /// A table is rejected for one reason: two errors that both say what is
    /// wrong with it are the same error.
    pub proof fn lemma_one_error(&self, a: ConfigError, b: ConfigError)
        requires
            self.rejects(a),
            self.rejects(b),
        ensures
            a == b,
    {
    }

    /// A task-local resource of a valid table belongs to one task: no
    /// second task names it, and its task names it once. A table in which
    /// two tasks name a task-local resource is therefore rejected.
    pub proof fn lemma_local_has_one_owner(&self, r: int, t1: int, k1: int, t2: int, k2: int)
        requires
            self.valid(),
            0 <= r < self.resources@.len(),
            self.resources@[r].task_local,
            self.uses(t1, k1, r),
            self.uses(t2, k2, r),
        ensures
            t1 == t2,
            k1 == k2,
    {
        assert(!self.shared_local(r));
    }

    /// Computes the ceiling of resource `r`.
    pub fn ceiling(&self, r: usize) -> (ceiling: u8)
        ensures
            ceiling == self.ceiling_of(r as int),
    {
        if r >= self.resources.len() {
            return 0;
        }
        let who = &self.resources[r].accessors;
        let mut ceiling: u8 = 0;
        let mut i: usize = 0;
        while i < who.len()
            invariant
                i <= who@.len(),
                ceiling == self.highest_level(who@, i as nat),
            decreases who@.len() - i,
        {
            let t: usize = who[i];
            let mut level: u8 = 0;
            if t < self.tasks.len() {
                if let TaskKind::Init { .. } = self.tasks[t].kind {
                } else {
                    level = self.tasks[t].run_level();
                }
            }
            if level > ceiling {
                ceiling = level;
            }
            i += 1;
        }
        ceiling
    }

    /// No task among the first `n` that `who` lists runs above
    /// `highest_level(who, n)`.
    pub proof fn lemma_highest_bounds(&self, who: Seq<usize>, n: nat, k: int)
        requires
            0 <= k < n,
        ensures
            self.level_of(who[k] as int) <= self.highest_level(who, n),
        decreases n,
    {
        if k < n - 1 {
            self.lemma_highest_bounds(who, (n - 1) as nat, k);
        }
    }

    /// `highest_level(who, n)` is zero or the level of one of the tasks.
    pub proof fn lemma_highest_attained(&self, who: Seq<usize>, n: nat)
        ensures
            self.highest_level(who, n) == 0 || exists|k: int|
                0 <= k < n && self.highest_level(who, n) == #[trigger] self.level_of(who[k] as int),
        decreases n,
    {
        if n > 0 {
            self.lemma_highest_attained(who, (n - 1) as nat);
        }
    }

    /// A task that a resource lists never runs above the resource's
    /// ceiling, unless it is `init`.
    pub proof fn lemma_ceiling_covers(&self, t: int, r: int)
        requires
            self.declared(t, r),
        ensures
            self.level_of(t) <= self.ceiling_of(r),
    {
        let who = self.resources@[r].accessors@;
        let k = choose|k: int| 0 <= k < who.len() && who[k] == t as usize;
        self.lemma_highest_bounds(who, who.len(), k);
    }

    /// There is at most one first `init` task, so `init_index` names it.
    pub proof fn lemma_first_init_unique(&self, i: int)
        requires
            self.first_init(i),
        ensures
            self.init_index() == i,
    {
    }

    /// There is at most one first `idle` task, so `idle_index` names it.
    pub proof fn lemma_first_idle_unique(&self, i: int)
        requires
            self.first_idle(i),
        ensures
            self.idle_index() == i,
    {
    }
}

} // verus!
