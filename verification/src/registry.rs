//! The task registry: the one shared store of per-task mutable state.
//!
//! Each registered task carries a mode (run, pause or stop), a concurrency
//! counter bounded by the task's own cap, and the registry keeps the set of
//! process ids of invocations still running. Every operation is a single
//! atomic step with respect to the registry value; callers serialize access.

use vstd::prelude::*;

use crate::task::str_eq;
use crate::task::TaskMode;

verus! {

/// The mathematical content of one registered task's state.
#[verifier::ext_equal]
pub ghost struct TaskInfo {
    pub name: Seq<char>,
    pub concurrent_count: int,
    pub max_concurrent: int,
    pub mode: TaskMode,
}

/// The mathematical content of the registry.
#[verifier::ext_equal]
pub ghost struct RegistryView {
    pub tasks: Seq<TaskInfo>,
    pub active_pids: Seq<u32>,
    pub propagate: bool,
}

/// A task that has not reached the terminal condition: it still counts as
/// runnable unless it is both drained (no running invocation) and stopped.
pub open spec fn runnable(t: TaskInfo) -> bool {
    !(t.concurrent_count == 0 && t.mode is Stop)
}

/// The number of runnable tasks in a sequence.
pub open spec fn runnable_count(tasks: Seq<TaskInfo>) -> int
    decreases tasks.len(),
{
    if tasks.len() == 0 {
        0
    } else {
        runnable_count(tasks.drop_last()) + if runnable(tasks.last()) {
            1int
        } else {
            0int
        }
    }
}

/// The sequence of process ids with every occurrence of `pid` removed.
pub open spec fn remove_pid(pids: Seq<u32>, pid: u32) -> Seq<u32>
    decreases pids.len(),
{
    if pids.len() == 0 {
        Seq::empty()
    } else {
        let rest = remove_pid(pids.drop_last(), pid);
        if pids.last() == pid {
            rest
        } else {
            rest.push(pids.last())
        }
    }
}

impl RegistryView {
    /// Every concurrency counter stays between zero and its task's cap.
    pub open spec fn counts_bounded(self) -> bool {
        forall|i: int|
            0 <= i < self.tasks.len() ==> 0 <= #[trigger] self.tasks[i].concurrent_count
                <= self.tasks[i].max_concurrent
    }

    /// Task names identify tasks: no two entries share a name.
    pub open spec fn names_unique(self) -> bool {
        forall|i: int, j: int|
            0 <= i < j < self.tasks.len() ==> #[trigger] self.tasks[i].name
                != #[trigger] self.tasks[j].name
    }

    /// The registry's invariant.
    pub open spec fn wf(self) -> bool {
        self.counts_bounded() && self.names_unique()
    }

    /// Whether a task of this name is registered.
    pub open spec fn contains_task(self, name: Seq<char>) -> bool {
        exists|i: int| 0 <= i < self.tasks.len() && #[trigger] self.tasks[i].name == name
    }

    /// The position of the task of this name (meaningful when registered and
    /// names are unique).
    pub open spec fn task_index(self, name: Seq<char>) -> int {
        choose|i: int| 0 <= i < self.tasks.len() && #[trigger] self.tasks[i].name == name
    }

    /// The state of the task of this name.
    pub open spec fn task_named(self, name: Seq<char>) -> TaskInfo {
        self.tasks[self.task_index(name)]
    }

    /// When names are unique, any position whose entry carries `name` is the
    /// one that `task_index` denotes.
    pub proof fn lemma_task_index(self, name: Seq<char>, i: int)
        requires
            self.names_unique(),
            0 <= i < self.tasks.len(),
            self.tasks[i].name == name,
        ensures
            self.contains_task(name),
            self.task_index(name) == i,
    {
        assert(self.contains_task(name));
        let j = self.task_index(name);
        if i < j {
            assert(self.tasks[i].name != self.tasks[j].name);
        } else if j < i {
            assert(self.tasks[j].name != self.tasks[i].name);
        }
    }

    /// The registry after one more task is registered, with a fresh state:
    /// no running invocation, mode run.
    pub open spec fn registered(self, name: Seq<char>, max_concurrent: int) -> RegistryView {
        RegistryView {
            tasks: self.tasks.push(
                TaskInfo { name, concurrent_count: 0, max_concurrent, mode: TaskMode::Run },
            ),
            ..self
        }
    }

    /// The registry after an invocation of the named task is admitted: its
    /// counter grows by one.
    pub open spec fn after_begin(self, name: Seq<char>) -> RegistryView {
        let i = self.task_index(name);
        RegistryView {
            tasks: self.tasks.update(
                i,
                TaskInfo { concurrent_count: self.tasks[i].concurrent_count + 1, ..self.tasks[i] },
            ),
            ..self
        }
    }

    /// The registry after an invocation of the named task ends: its counter
    /// shrinks by one and the terminated process id leaves the active set.
    pub open spec fn after_end(self, name: Seq<char>, pid: u32) -> RegistryView {
        let i = self.task_index(name);
        RegistryView {
            tasks: self.tasks.update(
                i,
                TaskInfo { concurrent_count: self.tasks[i].concurrent_count - 1, ..self.tasks[i] },
            ),
            active_pids: remove_pid(self.active_pids, pid),
            ..self
        }
    }

    /// The registry after an invocation of the named task that never started:
    /// its counter shrinks by one; no process id was ever recorded.
    pub open spec fn after_cleanup(self, name: Seq<char>) -> RegistryView {
        let i = self.task_index(name);
        RegistryView {
            tasks: self.tasks.update(
                i,
                TaskInfo { concurrent_count: self.tasks[i].concurrent_count - 1, ..self.tasks[i] },
            ),
            ..self
        }
    }

    /// The registry after a process id is recorded as active.
    pub open spec fn after_pid_started(self, pid: u32) -> RegistryView {
        RegistryView { active_pids: self.active_pids.push(pid), ..self }
    }

    /// The registry after every task's mode is overwritten.
    pub open spec fn with_all_modes(self, mode: TaskMode) -> RegistryView {
        RegistryView {
            tasks: Seq::new(self.tasks.len(), |i: int| TaskInfo { mode, ..self.tasks[i] }),
            ..self
        }
    }

    /// The registry after the named task's mode is overwritten; a name that
    /// is not registered changes nothing.
    pub open spec fn with_mode(self, name: Seq<char>, mode: TaskMode) -> RegistryView {
        if self.contains_task(name) {
            let i = self.task_index(name);
            RegistryView {
                tasks: self.tasks.update(i, TaskInfo { mode, ..self.tasks[i] }),
                ..self
            }
        } else {
            self
        }
    }

    /// The registry after a control file's entries are applied in order.
    pub open spec fn after_entries(self, entries: Seq<(Seq<char>, TaskMode)>) -> RegistryView
        decreases entries.len(),
    {
        if entries.len() == 0 {
            self
        } else {
            self.after_entries(entries.drop_last()).with_mode(
                entries.last().0,
                entries.last().1,
            )
        }
    }
}

/// One directive of the control file: set the named task to the given mode.
pub struct ControlEntry {
    pub name: String,
    pub mode: TaskMode,
}

impl View for ControlEntry {
    type V = (Seq<char>, TaskMode);

    open spec fn view(&self) -> (Seq<char>, TaskMode) {
        (self.name@, self.mode)
    }
}

/// The views of a sequence of control entries.
pub open spec fn entries_view(entries: Seq<ControlEntry>) -> Seq<(Seq<char>, TaskMode)> {
    entries.map_values(|e: ControlEntry| e@)
}

/// One registered task's mutable state, keyed by its name.
pub struct TaskState {
    name: String,
    concurrent_count: u32,
    max_concurrent: u32,
    mode: TaskMode,
}

impl View for TaskState {
    type V = TaskInfo;

    closed spec fn view(&self) -> TaskInfo {
        TaskInfo {
            name: self.name@,
            concurrent_count: self.concurrent_count as int,
            max_concurrent: self.max_concurrent as int,
            mode: self.mode,
        }
    }
}

impl TaskState {
    /// A fresh state: no running invocation, mode run.
    pub fn new(task_name: &str, max_concurrent: u32) -> (s: TaskState)
        ensures
            s@ == (TaskInfo {
                name: task_name@,
                concurrent_count: 0,
                max_concurrent: max_concurrent as int,
                mode: TaskMode::Run,
            }),
    {
        TaskState {
            name: task_name.to_owned(),
            concurrent_count: 0,
            max_concurrent,
            mode: TaskMode::Run,
        }
    }
}

/// The registry itself.
pub struct TaskStateDb {
    propagate_sigterm_to_children: bool,
    tasks: Vec<TaskState>,
    active_pids: Vec<u32>,
}

impl View for TaskStateDb {
    type V = RegistryView;

    closed spec fn view(&self) -> RegistryView {
        RegistryView {
            tasks: self.tasks@.map_values(|t: TaskState| t@),
            active_pids: self.active_pids@,
            propagate: self.propagate_sigterm_to_children,
        }
    }
}

impl TaskStateDb {
    /// An empty registry. When `propagate_sigterm_to_children` is set, a
    /// global stop asks for the termination signal to be passed on to the
    /// active processes; otherwise they are waited for.
    pub fn new(propagate_sigterm_to_children: bool) -> (db: TaskStateDb)
        ensures
            db@ == (RegistryView {
                tasks: Seq::<TaskInfo>::empty(),
                active_pids: Seq::<u32>::empty(),
                propagate: propagate_sigterm_to_children,
            }),
            db@.wf(),
    {
        let db = TaskStateDb {
            propagate_sigterm_to_children,
            tasks: Vec::new(),
            active_pids: Vec::new(),
        };
        proof {
            assert(db@.tasks =~= Seq::<TaskInfo>::empty());
        }
        db
    }

    /// Whether the registry propagates the termination signal to children on
    /// a global stop.
    pub fn propagates_to_children(&self) -> (r: bool)
        ensures
            r == self@.propagate,
    {
        self.propagate_sigterm_to_children
    }

    /// Finds the position of the named task.
    fn find_task(&self, task_name: &str) -> (r: Option<usize>)
        ensures
            r matches Some(i) ==> i < self@.tasks.len() && self@.tasks[i as int].name
                == task_name@,
            r is None ==> !self@.contains_task(task_name@),
    {
        let n = self.tasks.len();
        let mut i: usize = 0;
        while i < n
            invariant
                n == self.tasks.len(),
                i <= n,
                forall|j: int| 0 <= j < i ==> #[trigger] self@.tasks[j].name != task_name@,
            decreases n - i,
        {
            if str_eq(self.tasks[i].name.as_str(), task_name) {
                return Some(i);
            }
            i += 1;
        }
        None
    }

    /// Whether a task of this name is registered.
    pub fn contains_task(&self, task_name: &str) -> (r: bool)
        ensures
            r == self@.contains_task(task_name@),
    {
        match self.find_task(task_name) {
            Some(i) => {
                proof {
                    assert(self@.contains_task(task_name@));
                }
                true
            },
            None => false,
        }
    }

    /// Registers a task with a fresh state. Registering a name twice is a
    /// no-op: the first registration stands.
    pub fn add_new_task(&mut self, task_name: &str, max_concurrent: u32)
        ensures
            old(self)@.contains_task(task_name@) ==> final(self)@ == old(self)@,
            !old(self)@.contains_task(task_name@) ==> final(self)@ == old(self)@.registered(
                task_name@,
                max_concurrent as int,
            ),
            old(self)@.wf() ==> final(self)@.wf(),
    {
        match self.find_task(task_name) {
            Some(_) => {
                proof {
                    assert(self@.contains_task(task_name@));
                }
            },
            None => {
                self.tasks.push(TaskState::new(task_name, max_concurrent));
                proof {
                    assert(self@.tasks =~= old(self)@.registered(
                        task_name@,
                        max_concurrent as int,
                    ).tasks);
                    assert(self@ =~= old(self)@.registered(task_name@, max_concurrent as int));
                    if old(self)@.wf() {
                        let v = self@;
                        assert forall|i: int, j: int| 0 <= i < j < v.tasks.len() implies #[trigger] v.tasks[i].name != #[trigger] v.tasks[j].name by {
                            if j == v.tasks.len() - 1 {
                                assert(old(self)@.tasks[i].name != task_name@);
                            }
                        }
                    }
                }
            },
        }
    }
    /// Reads the named task's current mode.
    pub fn get_task_mode(&self, task_name: &str) -> (m: TaskMode)
        requires
            self@.wf(),
            self@.contains_task(task_name@),
        ensures
            m == self@.task_named(task_name@).mode,
    {
        match self.find_task(task_name) {
            Some(i) => {
                proof {
                    self@.lemma_task_index(task_name@, i as int);
                }
                self.tasks[i].mode
            },
            None => {
                proof {
                    assert(false);
                }
                TaskMode::Run
            },
        }
    }

    /// Reads the named task's current concurrency counter.
    pub fn get_concurrent_count(&self, task_name: &str) -> (c: u32)
        requires
            self@.wf(),
            self@.contains_task(task_name@),
        ensures
            c as int == self@.task_named(task_name@).concurrent_count,
    {
        match self.find_task(task_name) {
            Some(i) => {
                proof {
                    self@.lemma_task_index(task_name@, i as int);
                }
                self.tasks[i].concurrent_count
            },
            None => {
                proof {
                    assert(false);
                }
                0
            },
        }
    }

    /// Overwrites the named task's mode; a name that is not registered
    /// changes nothing.
    pub fn set_task_mode(&mut self, task_name: &str, mode: TaskMode)
        requires
            old(self)@.wf(),
        ensures
            final(self)@ == old(self)@.with_mode(task_name@, mode),
            final(self)@.wf(),
    {
        match self.find_task(task_name) {
            Some(i) => {
                proof {
                    self@.lemma_task_index(task_name@, i as int);
                }
                self.tasks[i].mode = mode;
                proof {
                    assert(self@.tasks =~= old(self)@.with_mode(task_name@, mode).tasks);
                    assert(self@ =~= old(self)@.with_mode(task_name@, mode));
                }
            },
            None => {},
        }
    }

    /// Overwrites every task's mode. On a global stop the caller receives the
    /// snapshot of the active process ids, to propagate the signal to them or
    /// to report them as still outstanding.
    pub fn set_all_task_modes(&mut self, mode: TaskMode) -> (stop_pids: Option<Vec<u32>>)
        requires
            old(self)@.wf(),
        ensures
            final(self)@ == old(self)@.with_all_modes(mode),
            final(self)@.wf(),
            stop_pids is Some <==> mode is Stop,
            stop_pids matches Some(pids) ==> pids@ == old(self)@.active_pids,
    {
        let n = self.tasks.len();
        let mut i: usize = 0;
        while i < n
            invariant
                n == self.tasks.len(),
                i <= n,
                self@.active_pids == old(self)@.active_pids,
                self@.propagate == old(self)@.propagate,
                self@.tasks.len() == old(self)@.tasks.len(),
                forall|j: int|
                    0 <= j < i ==> self@.tasks[j] == (TaskInfo { mode, ..old(self)@.tasks[j] }),
                forall|j: int| i <= j < n ==> self@.tasks[j] == old(self)@.tasks[j],
            decreases n - i,
        {
            let ghost prev = *self;
            self.tasks[i].mode = mode;
            proof {
                assert forall|j: int|
                    0 <= j < i + 1 implies self@.tasks[j] == (TaskInfo {
                        mode,
                        ..old(self)@.tasks[j]
                    }) by {
                    if j == i {
                        assert(self@.tasks[j] =~= (TaskInfo { mode, ..old(self)@.tasks[j] }));
                    } else {
                        assert(self@.tasks[j] == prev@.tasks[j]);
                        assert(prev@.tasks[j] == (TaskInfo { mode, ..old(self)@.tasks[j] }));
                    }
                }
            }
            i += 1;
        }
        proof {
            assert(self@.tasks =~= old(self)@.with_all_modes(mode).tasks);
            assert(self@ =~= old(self)@.with_all_modes(mode));
        }
        if mode == TaskMode::Stop {
            let np = self.active_pids.len();
            let mut pids: Vec<u32> = Vec::new();
            let mut k: usize = 0;
            while k < np
                invariant
                    np == self.active_pids.len(),
                    k <= np,
                    pids@ == self.active_pids@.take(k as int),
                decreases np - k,
            {
                proof {
                    assert(self.active_pids@.take(k as int).push(self.active_pids@[k as int])
                        =~= self.active_pids@.take(k as int + 1));
                }
                pids.push(self.active_pids[k]);
                k += 1;
            }
            proof {
                assert(self.active_pids@.take(np as int) =~= self.active_pids@);
            }
            Some(pids)
        } else {
            None
        }
    }

    /// Applies a control file's directives in order: for every entry whose
    /// name is registered, the task's mode is overwritten; entries with
    /// unknown names change nothing.
    pub fn set_task_modes_from_control_file(&mut self, entries: &Vec<ControlEntry>)
        requires
            old(self)@.wf(),
        ensures
            final(self)@ == old(self)@.after_entries(entries_view(entries@)),
            final(self)@.wf(),
    {
        let n = entries.len();
        let mut k: usize = 0;
        while k < n
            invariant
                n == entries.len(),
                k <= n,
                self@ == old(self)@.after_entries(entries_view(entries@).take(k as int)),
                self@.wf(),
            decreases n - k,
        {
            proof {
                assert(entries_view(entries@).take(k as int + 1).drop_last() =~= entries_view(
                    entries@,
                ).take(k as int));
            }
            self.set_task_mode(entries[k].name.as_str(), entries[k].mode);
            k += 1;
        }
        proof {
            assert(entries_view(entries@).take(n as int) =~= entries_view(entries@));
        }
    }

    /// Admits one invocation of the named task if its counter is below the
    /// task's cap, incrementing the counter; else changes nothing. This
    /// check-and-increment is the concurrency cap's sole enforcement point.
    pub fn init_process_if_allowed(&mut self, task_name: &str) -> (allowed: bool)
        requires
            old(self)@.wf(),
            old(self)@.contains_task(task_name@),
        ensures
            final(self)@.wf(),
            allowed == (old(self)@.task_named(task_name@).concurrent_count < old(
                self,
            )@.task_named(task_name@).max_concurrent),
            allowed ==> final(self)@ == old(self)@.after_begin(task_name@),
            !allowed ==> final(self)@ == old(self)@,
    {
        let i = match self.find_task(task_name) {
            Some(i) => i,
            None => {
                proof {
                    assert(false);
                }
                0
            },
        };
        proof {
            self@.lemma_task_index(task_name@, i as int);
        }
        if self.tasks[i].concurrent_count < self.tasks[i].max_concurrent {
            let c = self.tasks[i].concurrent_count;
            self.tasks[i].concurrent_count = c + 1;
            proof {
                assert(self@.tasks =~= old(self)@.after_begin(task_name@).tasks);
                assert(self@ =~= old(self)@.after_begin(task_name@));
            }
            true
        } else {
            false
        }
    }

    /// Records a process id as active, after a successful launch.
    pub fn start_process(&mut self, pid: u32)
        ensures
            final(self)@ == old(self)@.after_pid_started(pid),
            old(self)@.wf() ==> final(self)@.wf(),
    {
        self.active_pids.push(pid);
        proof {
            assert(self@ =~= old(self)@.after_pid_started(pid));
        }
    }

    /// Releases one invocation of the named task after its process
    /// terminated: the counter shrinks by one and the process id leaves the
    /// active set. Returns how many invocations of the task are still
    /// running. Must be called exactly once per admitted invocation whose
    /// process was launched.
    pub fn finish_process(&mut self, task_name: &str, terminated_pid: u32) -> (still_running: u32)
        requires
            old(self)@.wf(),
            old(self)@.contains_task(task_name@),
            old(self)@.task_named(task_name@).concurrent_count >= 1,
        ensures
            final(self)@ == old(self)@.after_end(task_name@, terminated_pid),
            final(self)@.wf(),
            still_running as int == old(self)@.task_named(task_name@).concurrent_count - 1,
    {
        let i = match self.find_task(task_name) {
            Some(i) => i,
            None => {
                proof {
                    assert(false);
                }
                0
            },
        };
        proof {
            self@.lemma_task_index(task_name@, i as int);
        }
        let c = self.tasks[i].concurrent_count;
        self.tasks[i].concurrent_count = c - 1;
        let np = self.active_pids.len();
        let mut remaining: Vec<u32> = Vec::new();
        let mut k: usize = 0;
        while k < np
            invariant
                np == self.active_pids.len(),
                k <= np,
                remaining@ == remove_pid(self.active_pids@.take(k as int), terminated_pid),
            decreases np - k,
        {
            proof {
                assert(self.active_pids@.take(k as int + 1).drop_last() =~= self.active_pids@.take(
                    k as int,
                ));
            }
            let p = self.active_pids[k];
            if p != terminated_pid {
                remaining.push(p);
            }
            k += 1;
        }
        proof {
            assert(self.active_pids@.take(np as int) =~= self.active_pids@);
        }
        self.active_pids = remaining;
        proof {
            assert(self@.tasks =~= old(self)@.after_end(task_name@, terminated_pid).tasks);
            assert(self@ =~= old(self)@.after_end(task_name@, terminated_pid));
        }
        c - 1
    }

    /// Releases one invocation of the named task whose process never
    /// started: the counter shrinks by one, immediately and synchronously.
    /// Must be called exactly once per admitted invocation whose launch
    /// failed.
    pub fn cleanup_failed_process(&mut self, task_name: &str)
        requires
            old(self)@.wf(),
            old(self)@.contains_task(task_name@),
            old(self)@.task_named(task_name@).concurrent_count >= 1,
        ensures
            final(self)@ == old(self)@.after_cleanup(task_name@),
            final(self)@.wf(),
    {
        let i = match self.find_task(task_name) {
            Some(i) => i,
            None => {
                proof {
                    assert(false);
                }
                0
            },
        };
        proof {
            self@.lemma_task_index(task_name@, i as int);
        }
        let c = self.tasks[i].concurrent_count;
        self.tasks[i].concurrent_count = c - 1;
        proof {
            assert(self@.tasks =~= old(self)@.after_cleanup(task_name@).tasks);
            assert(self@ =~= old(self)@.after_cleanup(task_name@));
        }
    }

    /// Counts the tasks that have not reached the terminal drained-and-
    /// stopped condition. The engine shuts down exactly when this reaches
    /// zero.
    pub fn count_runnable(&self) -> (n: usize)
        ensures
            n as int == runnable_count(self@.tasks),
    {
        let nt = self.tasks.len();
        let mut count: usize = 0;
        let mut i: usize = 0;
        while i < nt
            invariant
                nt == self.tasks.len(),
                i <= nt,
                count <= i,
                count as int == runnable_count(self@.tasks.take(i as int)),
            decreases nt - i,
        {
            proof {
                assert(self@.tasks.take(i as int + 1).drop_last() =~= self@.tasks.take(i as int));
            }
            if !(self.tasks[i].concurrent_count == 0 && self.tasks[i].mode == TaskMode::Stop) {
                count += 1;
            }
            i += 1;
        }
        proof {
            assert(self@.tasks.take(nt as int) =~= self@.tasks);
        }
        count
    }

    /// One step of the shutdown monitor: applies the control file's
    /// directives, then reports whether every task is simultaneously drained
    /// and stopped, which is the engine's sole normal termination condition.
    pub fn monitor_step(&mut self, entries: &Vec<ControlEntry>) -> (done: bool)
        requires
            old(self)@.wf(),
        ensures
            final(self)@ == old(self)@.after_entries(entries_view(entries@)),
            final(self)@.wf(),
            done <==> runnable_count(final(self)@.tasks) == 0,
    {
        self.set_task_modes_from_control_file(entries);
        let n = self.count_runnable();
        n == 0
    }

    /// One tick of the named task's scheduler: in pause or stop mode nothing
    /// happens; in run mode one invocation is admitted unless the task is at
    /// its concurrency cap. Exactly on `Invoke` the caller must launch the
    /// process and later release the invocation.
    pub fn handle_tick(&mut self, task_name: &str) -> (action: TickAction)
        requires
            old(self)@.wf(),
            old(self)@.contains_task(task_name@),
        ensures
            final(self)@.wf(),
            ({
                let t = old(self)@.task_named(task_name@);
                match t.mode {
                    TaskMode::Pause => action == TickAction::SkipPaused && final(self)@ == old(
                        self,
                    )@,
                    TaskMode::Stop => action == TickAction::SkipStopped && final(self)@ == old(
                        self,
                    )@,
                    TaskMode::Run => if t.concurrent_count < t.max_concurrent {
                        action == TickAction::Invoke && final(self)@ == old(self)@.after_begin(
                            task_name@,
                        )
                    } else {
                        action == TickAction::AtMaxConcurrent && final(self)@ == old(self)@
                    },
                }
            }),
    {
        let mode = self.get_task_mode(task_name);
        match mode {
            TaskMode::Run => {
                if self.init_process_if_allowed(task_name) {
                    TickAction::Invoke
                } else {
                    TickAction::AtMaxConcurrent
                }
            },
            TaskMode::Pause => TickAction::SkipPaused,
            TaskMode::Stop => TickAction::SkipStopped,
        }
    }
}

/// Law: for every task and at all times, the concurrency counter stays
/// between zero and the task's own cap: no invocation is ever admitted past
/// the cap, and the counter never underflows.
pub proof fn lemma_counts_within_cap(v: RegistryView, i: int)
    requires
        v.wf(),
        0 <= i < v.tasks.len(),
    ensures
        0 <= v.tasks[i].concurrent_count <= v.tasks[i].max_concurrent,
{
}

/// Removing a process id that is not in the sequence changes nothing.
proof fn lemma_remove_pid_absent(pids: Seq<u32>, pid: u32)
    requires
        !pids.contains(pid),
    ensures
        remove_pid(pids, pid) == pids,
    decreases pids.len(),
{
    if pids.len() == 0 {
        assert(remove_pid(pids, pid) =~= pids);
    } else {
        assert(!pids.drop_last().contains(pid)) by {
            if pids.drop_last().contains(pid) {
                let k = choose|k: int|
                    0 <= k < pids.drop_last().len() && pids.drop_last()[k] == pid;
                assert(pids[k] == pid);
            }
        }
        lemma_remove_pid_absent(pids.drop_last(), pid);
        assert(pids.last() != pid) by {
            assert(pids[pids.len() - 1] == pids.last());
        }
        assert(pids.drop_last().push(pids.last()) =~= pids);
    }
}

/// Law: one `finish_process` — or, when the launch failed, one immediate
/// `cleanup_failed_process` — per admitted invocation balances the books
/// exactly: beginning an invocation and ending it once restores the
/// registry, whichever way the process went.
pub proof fn lemma_begin_end_balanced(v: RegistryView, name: Seq<char>, pid: u32)
    requires
        v.wf(),
        v.contains_task(name),
        v.task_named(name).concurrent_count < v.task_named(name).max_concurrent,
        !v.active_pids.contains(pid),
    ensures
        v.after_begin(name).after_pid_started(pid).after_end(name, pid) == v,
        v.after_begin(name).after_cleanup(name) == v,
{
    let i = v.task_index(name);
    let w = v.after_begin(name);
    assert(forall|j: int| 0 <= j < w.tasks.len() ==> #[trigger] w.tasks[j].name == v.tasks[j].name);
    let w2 = w.after_pid_started(pid);
    w.lemma_task_index(name, i);
    w2.lemma_task_index(name, i);
    assert(remove_pid(w2.active_pids, pid) == v.active_pids) by {
        assert(w2.active_pids.last() == pid);
        assert(w2.active_pids.drop_last() =~= v.active_pids);
        lemma_remove_pid_absent(v.active_pids, pid);
    }
    assert(w2.after_end(name, pid).tasks =~= v.tasks);
    assert(w2.after_end(name, pid) =~= v);
    assert(w.after_cleanup(name).tasks =~= v.tasks);
    assert(w.after_cleanup(name) =~= v);
}

/// The runnable count lies between zero and the number of tasks.
pub proof fn lemma_runnable_count_bounds(tasks: Seq<TaskInfo>)
    ensures
        0 <= runnable_count(tasks) <= tasks.len(),
    decreases tasks.len(),
{
    if tasks.len() > 0 {
        lemma_runnable_count_bounds(tasks.drop_last());
    }
}

/// Law: the runnable count is the number of tasks that are runnable — the
/// length of the subsequence of tasks not both drained and stopped.
pub proof fn lemma_runnable_count_is_filter_len(tasks: Seq<TaskInfo>)
    ensures
        runnable_count(tasks) == tasks.filter(|t: TaskInfo| runnable(t)).len(),
    decreases tasks.len(),
{
    reveal(Seq::filter);
    if tasks.len() > 0 {
        lemma_runnable_count_is_filter_len(tasks.drop_last());
    }
}

/// Law: the runnable count reaches zero exactly when every task is
/// simultaneously drained and stopped.
pub proof fn lemma_runnable_count_zero(tasks: Seq<TaskInfo>)
    ensures
        runnable_count(tasks) == 0 <==> (forall|i: int|
            0 <= i < tasks.len() ==> !runnable(#[trigger] tasks[i])),
    decreases tasks.len(),
{
    if tasks.len() == 0 {
    } else {
        lemma_runnable_count_zero(tasks.drop_last());
        lemma_runnable_count_bounds(tasks.drop_last());
        assert(tasks.last() == tasks[tasks.len() - 1]);
        if runnable_count(tasks) == 0 {
            assert(runnable_count(tasks.drop_last()) == 0);
            assert forall|i: int| 0 <= i < tasks.len() implies !runnable(#[trigger] tasks[i]) by {
                if i < tasks.len() - 1 {
                    assert(!runnable(tasks.drop_last()[i]));
                    assert(tasks.drop_last()[i] == tasks[i]);
                }
            }
        }
        if forall|i: int| 0 <= i < tasks.len() ==> !runnable(#[trigger] tasks[i]) {
            assert forall|i: int|
                0 <= i < tasks.drop_last().len() implies !runnable(
                #[trigger] tasks.drop_last()[i],
            ) by {
                assert(tasks.drop_last()[i] == tasks[i]);
                assert(!runnable(tasks[i]));
            }
            assert(runnable_count(tasks.drop_last()) == 0);
            assert(!runnable(tasks.last()));
        }
    }
}

/// Law: a control-file entry whose task name is not registered has no
/// observable effect; a whole control file of unknown names changes nothing.
pub proof fn lemma_unknown_entries_no_effect(v: RegistryView, entries: Seq<(Seq<char>, TaskMode)>)
    requires
        forall|k: int| 0 <= k < entries.len() ==> !v.contains_task((#[trigger] entries[k]).0),
    ensures
        v.after_entries(entries) == v,
    decreases entries.len(),
{
    if entries.len() > 0 {
        assert(forall|k: int|
            0 <= k < entries.len() - 1 ==> #[trigger] entries.drop_last()[k] == entries[k]);
        lemma_unknown_entries_no_effect(v, entries.drop_last());
        assert(!v.contains_task(entries.last().0)) by {
            assert(entries.last() == entries[entries.len() - 1]);
        }
    }
}

/// Law: setting every task's mode to pause and then to run restores every
/// task's eligibility without altering any concurrency counter, any cap, any
/// name, or the active process ids.
pub proof fn lemma_pause_then_run(v: RegistryView)
    ensures
        ({
            let w = v.with_all_modes(TaskMode::Pause).with_all_modes(TaskMode::Run);
            &&& w == v.with_all_modes(TaskMode::Run)
            &&& w.tasks.len() == v.tasks.len()
            &&& forall|i: int|
                0 <= i < v.tasks.len() ==> #[trigger] w.tasks[i] == (TaskInfo {
                    mode: TaskMode::Run,
                    ..v.tasks[i]
                })
            &&& w.active_pids == v.active_pids
            &&& w.propagate == v.propagate
        }),
{
    let w = v.with_all_modes(TaskMode::Pause).with_all_modes(TaskMode::Run);
    assert(w.tasks =~= v.with_all_modes(TaskMode::Run).tasks);
    assert(w =~= v.with_all_modes(TaskMode::Run));
}

/// What one tick of a task's scheduler decided.
#[derive(Clone, Copy, Debug, PartialEq, Eq, Structural)]
pub enum TickAction {
    /// An invocation was admitted: launch the task's command now.
    Invoke,
    /// The task is paused; nothing happens.
    SkipPaused,
    /// The task is stopped; nothing happens.
    SkipStopped,
    /// The task is at its concurrency cap; this tick is skipped.
    AtMaxConcurrent,
}

} // verus!
