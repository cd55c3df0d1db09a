use std::collections::HashMap;
use vstd::prelude::*;
use vstd::std_specs::iter::IteratorSpec;

verus! {

broadcast use vstd::std_specs::hash::group_hash_axioms;

/// What a finished task produced: the script's text, or the reason it failed.
pub type TaskOutcome = Result<String, String>;

/// The mathematical value of an outcome.
pub open spec fn outcome_view(o: TaskOutcome) -> Result<Seq<char>, Seq<char>> {
    match o {
        Ok(s) => Ok(s@),
        Err(e) => Err(e@),
    }
}

/// Per-task bookkeeping of the asynchronous runtime.
pub enum TaskState {
    Pending,
    Running,
    Done(TaskOutcome),
    Dropped,
}

/// The mathematical value of a task's state.
pub enum TaskStateView {
    Pending,
    Running,
    Done(Result<Seq<char>, Seq<char>>),
    Dropped,
}

impl TaskStateView {
    /// A task is active while it waits for, or runs, its script.
    pub open spec fn active(self) -> bool {
        self is Pending || self is Running
    }
}

impl View for TaskState {
    type V = TaskStateView;

    open spec fn view(&self) -> TaskStateView {
        match self {
            TaskState::Pending => TaskStateView::Pending,
            TaskState::Running => TaskStateView::Running,
            TaskState::Done(o) => TaskStateView::Done(outcome_view(*o)),
            TaskState::Dropped => TaskStateView::Dropped,
        }
    }
}

/// Counts of the tasks a runtime knows of, by state.
#[derive(Debug, Clone)]
pub struct RuntimeTaskStats {
    pub pending: usize,
    pub running: usize,
    pub done: usize,
    pub dropped: usize,
}

/// The outcome handed to a task's waiter when the task is dropped.
pub open spec fn dropped_message() -> Seq<char> {
    "task dropped"@
}

/// The transition of `mark_running_if_available`.
pub open spec fn spec_mark_running(m: Map<u64, TaskStateView>, id: u64) -> (Map<u64, TaskStateView>, bool) {
    if !m.contains_key(id) || m[id] is Dropped {
        (m, false)
    } else {
        (m.insert(id, TaskStateView::Running), true)
    }
}

/// The transition of `finalize_task`.
pub open spec fn spec_finalize(
    m: Map<u64, TaskStateView>,
    id: u64,
    o: Result<Seq<char>, Seq<char>>,
) -> (Map<u64, TaskStateView>, bool) {
    if !m.contains_key(id) || m[id] is Dropped {
        (m.remove(id), false)
    } else {
        (m.insert(id, TaskStateView::Done(o)), true)
    }
}

/// What `read_done_outcome` reports for a task.
pub open spec fn spec_read_done(m: Map<u64, TaskStateView>, id: u64) -> Result<Seq<char>, Seq<char>> {
    if !m.contains_key(id) {
        Err("读取任务结果失败: 任务不存在"@)
    } else {
        match m[id] {
            TaskStateView::Done(o) => o,
            TaskStateView::Dropped => Err(dropped_message()),
            _ => Err("读取任务结果失败: 任务尚未完成"@),
        }
    }
}

/// Whether a task is known and active.
pub open spec fn spec_is_active(m: Map<u64, TaskStateView>, id: u64) -> bool {
    m.contains_key(id) && m[id].active()
}


/// Which of the four states a task is in, as a number: pending, running,
/// done, dropped in that order.
pub open spec fn kind_of(v: TaskStateView) -> int {
    match v {
        TaskStateView::Pending => 0,
        TaskStateView::Running => 1,
        TaskStateView::Done(_) => 2,
        TaskStateView::Dropped => 3,
    }
}

/// The number of tasks of the table in the given state.
pub open spec fn count_kind(m: Map<u64, TaskStateView>, kind: int) -> nat {
    m.dom().filter(|k: u64| kind_of(m[k]) == kind).len()
}

/// The ids of the active tasks of a table.
pub open spec fn active_ids(m: Map<u64, TaskStateView>) -> Set<u64> {
    m.dom().filter(|k: u64| m[k].active())
}

/// The task table after the tasks in `failed` failed with `msg`: each one
/// is done with that error, and one without a waiter is forgotten.
pub open spec fn spec_fail_on(
    m: Map<u64, TaskStateView>,
    w: Set<u64>,
    msg: Seq<char>,
    failed: Set<u64>,
) -> Map<u64, TaskStateView> {
    Map::new(
        |k: u64| m.contains_key(k) && !(failed.contains(k) && !w.contains(k)),
        |k: u64| if failed.contains(k) { TaskStateView::Done(Err(msg)) } else { m[k] },
    )
}


/// A request from a runtime's handle to its worker.
pub enum AsyncCommand {
    Submit { id: u64, script: String },
    Drop { id: u64 },
    Shutdown,
}

/// What the worker has to do after the table took in a command.
pub enum WorkerAction<W> {
    /// Nothing.
    Idle,
    /// Hand the script of task `id` to the script engine.
    RunScript { id: u64, script: String },
    /// Hand `outcome` to `waiter`.
    Deliver { waiter: W, outcome: TaskOutcome },
    /// Leave the worker loop.
    Stop,
}

/// What the worker found when it looked for a command: a command, an empty
/// queue, or a queue whose every sender is gone.
pub enum Received {
    Command(AsyncCommand),
    Empty,
    Disconnected,
}

/// What the worker does with what it received.
pub enum DrainStep<W> {
    /// Carry out the action the table gave for a command, then look for
    /// the next command.
    Act(WorkerAction<W>),
    /// No command is waiting: run the engine's pending jobs.
    Pump,
    /// Leave the worker loop.
    Stop,
}

/// What the worker does after the engine ran its pending jobs.
pub enum AfterPump {
    /// Jobs ran, so more may be ready: look for commands and pump again.
    DrainAgain,
    /// Nothing was left to run: wait for the next command.
    Block,
    /// The engine broke down: every active task has failed, leave the loop.
    Stop,
}

/// The outcome that the script engine reports for a task.
pub fn task_outcome(ok: bool, payload: String) -> (o: TaskOutcome)
    ensures
        o == (if ok { Ok::<String, String>(payload) } else { Err::<String, String>(payload) }),
{
    if ok {
        Ok(payload)
    } else {
        Err(payload)
    }
}

/// The table after a drop request for task `id`: an active task becomes
/// `Dropped`, or is forgotten when it has no waiter; any other task stays.
pub open spec fn spec_drop(m: Map<u64, TaskStateView>, has_waiter: bool, id: u64) -> Map<u64, TaskStateView> {
    if !spec_is_active(m, id) {
        m
    } else if has_waiter {
        m.insert(id, TaskStateView::Dropped)
    } else {
        m.remove(id)
    }
}

/// What taking in `cmd` does to a task table, from `before` to `after`,
/// and the action `a` the worker is left with.
pub open spec fn command_effect<W>(before: TaskTable<W>, cmd: AsyncCommand, after: TaskTable<W>, a: WorkerAction<W>) -> bool {
    match cmd {
        AsyncCommand::Submit { id, script } => {
            let (m1, run) = spec_mark_running(before.states(), id);
            &&& after.states() == m1
            &&& after.waiters() == before.waiters()
            &&& if run {
                a matches WorkerAction::RunScript { id: rid, script: s } && rid == id && s == script
            } else {
                a is Idle
            }
        },
        AsyncCommand::Drop { id } => {
            let has = before.waiters().contains_key(id);
            let live = spec_is_active(before.states(), id);
            &&& after.states() == spec_drop(before.states(), has, id)
            &&& after.waiters() == if live { before.waiters().remove(id) } else { before.waiters() }
            &&& if live && has {
                a matches WorkerAction::Deliver { waiter, outcome }
                    && waiter == before.waiters()[id]
                    && outcome_view(outcome) == Err::<Seq<char>, Seq<char>>(dropped_message())
            } else {
                a is Idle
            }
        },
        AsyncCommand::Shutdown => {
            &&& after.states() == before.states()
            &&& after.waiters() == before.waiters()
            &&& a is Stop
        },
    }
}

/// What failing every active task with `message` does to a task table,
/// from `before` to `after`, with the deliveries `d` it hands back.
pub open spec fn fail_all_effect<W>(before: TaskTable<W>, message: Seq<char>, after: TaskTable<W>, d: Seq<(u64, W, TaskOutcome)>) -> bool {
    let active = active_ids(before.states());
    &&& after.states() == spec_fail_on(before.states(), before.waiters().dom(), message, active)
    &&& after.waiters() == before.waiters().remove_keys(active)
    &&& forall|i: int| 0 <= i < d.len() ==> {
        let (k, w, o) = #[trigger] d[i];
        &&& spec_is_active(before.states(), k)
        &&& before.waiters().contains_key(k)
        &&& w == before.waiters()[k]
        &&& outcome_view(o) == Err::<Seq<char>, Seq<char>>(message)
    }
    &&& forall|i: int, j: int| 0 <= i < d.len() && 0 <= j < d.len() && i != j ==> #[trigger] d[i].0 != #[trigger] d[j].0
    &&& forall|k: u64| spec_is_active(before.states(), k) && before.waiters().contains_key(k)
        ==> exists|i: int| 0 <= i < d.len() && #[trigger] d[i].0 == k
}

/// What releasing the handle of task `id` does to a task table, from
/// `before` to `after`: the waiter goes; an active task stays for the
/// worker to drop (`must_drop`), any other task is forgotten.
pub open spec fn release_effect<W>(before: TaskTable<W>, id: u64, after: TaskTable<W>, must_drop: bool) -> bool {
    &&& must_drop == spec_is_active(before.states(), id)
    &&& after.waiters() == before.waiters().remove(id)
    &&& after.states() == if must_drop { before.states() } else { before.states().remove(id) }
}

/// What the worker does after running the engine's jobs: look for commands
/// again after jobs ran, wait after none ran, stop when the engine failed.
pub open spec fn after_pump_decision(pumped: Result<usize, String>) -> AfterPump {
    match pumped {
        Ok(n) => if n > 0 { AfterPump::DrainAgain } else { AfterPump::Block },
        Err(_) => AfterPump::Stop,
    }
}

/// The task table of an asynchronous runtime: the state of every task it
/// knows of, and the waiter that a task's result goes to.
pub struct TaskTable<W> {
    states: HashMap<u64, TaskState>,
    waiters: HashMap<u64, W>,
}

impl<W> TaskTable<W> {
    /// The state of every task, by id.
    pub closed spec fn states(&self) -> Map<u64, TaskStateView> {
        self.states@.map_values(|s: TaskState| s@)
    }

    /// The waiter of every task that still has one, by id.
    pub closed spec fn waiters(&self) -> Map<u64, W> {
        self.waiters@
    }

    pub fn new() -> (t: Self)
        ensures
            t.states() == Map::<u64, TaskStateView>::empty(),
            t.waiters() == Map::<u64, W>::empty(),
    {
        let t = TaskTable { states: HashMap::new(), waiters: HashMap::new() };
        assert(t.states() =~= Map::<u64, TaskStateView>::empty());
        t
    }

    /// Registers a freshly submitted task: it is pending and `waiter` receives its result.
    pub fn register(&mut self, id: u64, waiter: W)
        ensures
            final(self).states() == old(self).states().insert(id, TaskStateView::Pending),
            final(self).waiters() == old(self).waiters().insert(id, waiter),
    {
        self.states.insert(id, TaskState::Pending);
        self.waiters.insert(id, waiter);
        assert(self.states() =~= old(self).states().insert(id, TaskStateView::Pending));
    }

    /// Forgets a task whose submission could not reach the worker.
    pub fn abandon(&mut self, id: u64)
        ensures
            final(self).states() == old(self).states().remove(id),
            final(self).waiters() == old(self).waiters().remove(id),
    {
        self.clear_task_state(id);
        self.remove_waiter(id);
    }

    /// Removes what the table records of a task's state.
    pub fn clear_task_state(&mut self, id: u64)
        ensures
            final(self).states() == old(self).states().remove(id),
            final(self).waiters() == old(self).waiters(),
    {
        self.states.remove(&id);
        assert(self.states() =~= old(self).states().remove(id));
    }

    /// Removes a task's waiter, if it has one.
    pub fn remove_waiter(&mut self, id: u64)
        ensures
            final(self).states() == old(self).states(),
            final(self).waiters() == old(self).waiters().remove(id),
    {
        self.waiters.remove(&id);
    }

    /// Takes a task's waiter out of the table, so that the task's result can go to it.
    pub fn notify_waiter(&mut self, id: u64) -> (w: Option<W>)
        ensures
            final(self).states() == old(self).states(),
            final(self).waiters() == old(self).waiters().remove(id),
            w == old(self).waiters().get(id),
    {
        self.waiters.remove(&id)
    }

    /// Whether the task is known and still pending or running.
    pub fn is_task_active(&self, id: u64) -> (r: bool)
        ensures
            r == spec_is_active(self.states(), id),
    {
        match self.states.get(&id) {
            Some(TaskState::Pending) | Some(TaskState::Running) => true,
            _ => false,
        }
    }

    /// Moves a known task that was not dropped to `Running`; reports whether it did.
    pub fn mark_running_if_available(&mut self, id: u64) -> (r: bool)
        ensures
            (final(self).states(), r) == spec_mark_running(old(self).states(), id),
            final(self).waiters() == old(self).waiters(),
    {
        let available = match self.states.get(&id) {
            Some(TaskState::Dropped) | None => false,
            _ => true,
        };
        if available {
            self.states.insert(id, TaskState::Running);
            assert(self.states() =~= old(self).states().insert(id, TaskStateView::Running));
        }
        available
    }

    /// Records the outcome of a known task that was not dropped, and reports
    /// whether it did; a dropped or unknown task is forgotten instead.
    pub fn finalize_task(&mut self, id: u64, outcome: TaskOutcome) -> (r: bool)
        ensures
            (final(self).states(), r) == spec_finalize(old(self).states(), id, outcome_view(outcome)),
            final(self).waiters() == old(self).waiters(),
    {
        let keep = match self.states.get(&id) {
            Some(TaskState::Dropped) | None => false,
            _ => true,
        };
        if keep {
            let ghost o = outcome_view(outcome);
            self.states.insert(id, TaskState::Done(outcome));
            assert(self.states() =~= old(self).states().insert(id, TaskStateView::Done(o)));
        } else {
            self.states.remove(&id);
            assert(self.states() =~= old(self).states().remove(id));
        }
        keep
    }

    /// The result of a finished task, or why there is none.
    pub fn read_done_outcome(&self, id: u64) -> (r: TaskOutcome)
        ensures
            outcome_view(r) == spec_read_done(self.states(), id),
    {
        match self.states.get(&id) {
            Some(TaskState::Done(Ok(value))) => Ok(value.clone()),
            Some(TaskState::Done(Err(err))) => Err(err.clone()),
            Some(TaskState::Dropped) => Err("task dropped".to_string()),
            Some(TaskState::Pending) | Some(TaskState::Running) => {
                Err("读取任务结果失败: 任务尚未完成".to_string())
            },
            None => Err("读取任务结果失败: 任务不存在".to_string()),
        }
    }

    /// Records a task's outcome and hands it to the task's waiter: the
    /// delivery to make, if the task was live and had a waiter. A task whose
    /// outcome finds no waiter is forgotten.
    pub fn finalize_task_with_waiter(&mut self, id: u64, outcome: TaskOutcome) -> (d: Option<(W, TaskOutcome)>)
        ensures
            ({
                let (m1, live) = spec_finalize(old(self).states(), id, outcome_view(outcome));
                if !live {
                    &&& final(self).states() == m1
                    &&& final(self).waiters() == old(self).waiters()
                    &&& d is None
                } else if old(self).waiters().contains_key(id) {
                    &&& final(self).states() == m1
                    &&& final(self).waiters() == old(self).waiters().remove(id)
                    &&& d matches Some((w, o)) && w == old(self).waiters()[id] && outcome_view(o) == outcome_view(outcome)
                } else {
                    &&& final(self).states() == m1.remove(id)
                    &&& final(self).waiters() == old(self).waiters()
                    &&& d is None
                }
            }),
    {
        if self.finalize_task(id, outcome) {
            let result = self.read_done_outcome(id);
            match self.notify_waiter(id) {
                Some(w) => Some((w, result)),
                None => {
                    self.clear_task_state(id);
                    None
                },
            }
        } else {
            None
        }
    }

    /// Drops a task that is still pending or running: it becomes `Dropped`
    /// and its waiter is told so. Without a waiter the task is forgotten.
    pub fn mark_dropped_and_notify(&mut self, id: u64) -> (d: Option<(W, TaskOutcome)>)
        ensures
            ({
                let m = old(self).states();
                if !spec_is_active(m, id) {
                    &&& final(self).states() == m
                    &&& final(self).waiters() == old(self).waiters()
                    &&& d is None
                } else if old(self).waiters().contains_key(id) {
                    &&& final(self).states() == m.insert(id, TaskStateView::Dropped)
                    &&& final(self).waiters() == old(self).waiters().remove(id)
                    &&& d matches Some((w, o)) && w == old(self).waiters()[id] && outcome_view(o) == Err::<Seq<char>, Seq<char>>(dropped_message())
                } else {
                    &&& final(self).states() == m.remove(id)
                    &&& final(self).waiters() == old(self).waiters()
                    &&& d is None
                }
            }),
    {
        if !self.is_task_active(id) {
            return None;
        }
        self.states.insert(id, TaskState::Dropped);
        assert(self.states() =~= old(self).states().insert(id, TaskStateView::Dropped));
        match self.notify_waiter(id) {
            Some(w) => Some((w, Err("task dropped".to_string()))),
            None => {
                self.clear_task_state(id);
                assert(self.states() =~= old(self).states().remove(id));
                None
            },
        }
    }

    /// What the table does when a task's handle goes away without waiting:
    /// the waiter is removed; an active task must then be dropped by the
    /// worker (`true`), any other task is forgotten at once (`false`).
    pub fn release_handle(&mut self, id: u64) -> (must_drop: bool)
        ensures
            release_effect(*old(self), id, *final(self), must_drop),
    {
        self.remove_waiter(id);
        if self.is_task_active(id) {
            true
        } else {
            self.clear_task_state(id);
            false
        }
    }

    /// Counts the tasks in each state.
    pub fn stats(&self) -> (s: RuntimeTaskStats)
        ensures
            s.pending == count_kind(self.states(), 0),
            s.running == count_kind(self.states(), 1),
            s.done == count_kind(self.states(), 2),
            s.dropped == count_kind(self.states(), 3),
            self.states().dom().finite(),
            s.pending + s.running + s.done + s.dropped == self.states().dom().len(),
    {
        let ghost m = self.states();
        let mut pending: usize = 0;
        let mut running: usize = 0;
        let mut done: usize = 0;
        let mut dropped: usize = 0;
        let ghost mut seen: Set<u64> = Set::empty();
        let total = self.states.len();
        assert(m.dom() =~= self.states@.dom());
        assert(m.dom().len() == total);
        let keys = self.states.keys();
        assert(keys.remaining().unref().to_set() == m.dom());
        let ghost all = keys.remaining();
        proof {
            assert(seen.filter(|k: u64| kind_of(m[k]) == 0) =~= Set::empty());
            assert(seen.filter(|k: u64| kind_of(m[k]) == 1) =~= Set::empty());
            assert(seen.filter(|k: u64| kind_of(m[k]) == 2) =~= Set::empty());
            assert(seen.filter(|k: u64| kind_of(m[k]) == 3) =~= Set::empty());
            assert(all.take(0).unref().to_set() =~= Set::empty());
        }
        for id in it: keys
            invariant
                it.seq() == all,
                all.unref().to_set() == m.dom(),
                all.no_duplicates(),
                all.len() == m.dom().len(),
                m == self.states(),
                seen == all.take(it.index()).unref().to_set(),
                seen.finite(),
                seen.len() == it.index(),
                seen.subset_of(m.dom()),
                pending == seen.filter(|k: u64| kind_of(m[k]) == 0).len(),
                running == seen.filter(|k: u64| kind_of(m[k]) == 1).len(),
                done == seen.filter(|k: u64| kind_of(m[k]) == 2).len(),
                dropped == seen.filter(|k: u64| kind_of(m[k]) == 3).len(),
                pending + running + done + dropped == seen.len(),
                m.dom().len() <= usize::MAX,
        {
            let ghost k = *id;
            proof {
                assert(all.take(it.index() + 1) == all.take(it.index()).push(id));
                assert(all.take(it.index() + 1).unref() == all.take(it.index()).unref().push(k));
                assert(!seen.contains(k)) by {
                    if seen.contains(k) {
                        let j = choose|j: int| 0 <= j < it.index() && all.take(it.index()).unref()[j] == k;
                        assert(all[j] == all[it.index()]);
                    }
                }
                assert(all.unref().contains(k));
                assert(m.dom().contains(k));
                vstd::set_lib::lemma_len_subset(seen.insert(k), m.dom());
            }
            match self.states.get(id) {
                Some(TaskState::Pending) => pending += 1,
                Some(TaskState::Running) => running += 1,
                Some(TaskState::Done(_)) => done += 1,
                _ => dropped += 1,
            }
            proof {
                let s2 = seen.insert(k);
                assert(s2.filter(|x: u64| kind_of(m[x]) == 0) =~= if kind_of(m[k]) == 0 { seen.filter(|x: u64| kind_of(m[x]) == 0).insert(k) } else { seen.filter(|x: u64| kind_of(m[x]) == 0) });
                assert(s2.filter(|x: u64| kind_of(m[x]) == 1) =~= if kind_of(m[k]) == 1 { seen.filter(|x: u64| kind_of(m[x]) == 1).insert(k) } else { seen.filter(|x: u64| kind_of(m[x]) == 1) });
                assert(s2.filter(|x: u64| kind_of(m[x]) == 2) =~= if kind_of(m[k]) == 2 { seen.filter(|x: u64| kind_of(m[x]) == 2).insert(k) } else { seen.filter(|x: u64| kind_of(m[x]) == 2) });
                assert(s2.filter(|x: u64| kind_of(m[x]) == 3) =~= if kind_of(m[k]) == 3 { seen.filter(|x: u64| kind_of(m[x]) == 3).insert(k) } else { seen.filter(|x: u64| kind_of(m[x]) == 3) });
                assert(all.take(it.index() + 1).unref().to_set() =~= s2) by {
                    all.take(it.index()).unref().lemma_push_to_set_commute(k);
                }
                seen = s2;
            }
        }
        proof {
            assert(all.take(all.len() as int) == all);
            vstd::set_lib::lemma_subset_equality(seen, m.dom());
        }
        RuntimeTaskStats { pending, running, done, dropped }
    }

    /// Fails every active task with `message`, as when the script engine
    /// breaks down: each becomes done with that error and its waiter is told
    /// so; an active task without a waiter is forgotten. Returns the
    /// deliveries to make, with the id of each task.
    pub fn fail_all_active_tasks(&mut self, message: String) -> (d: Vec<(u64, W, TaskOutcome)>)
        ensures
            fail_all_effect(*old(self), message@, *final(self), d@),
    {
        let ghost m = self.states();
        let ghost wt = self.waiters();
        let ghost act = active_ids(m);
        let mut ids: Vec<u64> = Vec::new();
        let ghost mut seen: Set<u64> = Set::empty();
        let keys = self.states.keys();
        let ghost all = keys.remaining();
        assert(m.dom() =~= self.states@.dom());
        proof {
            assert(all.take(0).unref().to_set() =~= Set::empty());
        }
        for id in it: keys
            invariant
                it.seq() == all,
                all.unref().to_set() == m.dom(),
                all.no_duplicates(),
                m == self.states(),
                act == active_ids(m),
                seen == all.take(it.index()).unref().to_set(),
                seen.subset_of(m.dom()),
                ids@.no_duplicates(),
                forall|x: u64| ids@.contains(x) <==> seen.contains(x) && act.contains(x),
        {
            let ghost k = *id;
            proof {
                assert(all.take(it.index() + 1) == all.take(it.index()).push(id));
                assert(all.take(it.index() + 1).unref() == all.take(it.index()).unref().push(k));
                assert(!seen.contains(k)) by {
                    if seen.contains(k) {
                        let j = choose|j: int| 0 <= j < it.index() && all.take(it.index()).unref()[j] == k;
                        assert(all[j] == all[it.index()]);
                    }
                }
                assert(all.unref().contains(k));
            }
            let ghost ids_before = ids@;
            if self.is_task_active(*id) {
                ids.push(*id);
                proof {
                    assert forall|x: u64| ids@.contains(x) <==> ids_before.contains(x) || x == k by {
                        if ids@.contains(x) {
                            let j = choose|j: int| 0 <= j < ids@.len() && ids@[j] == x;
                            if j < ids_before.len() {
                                assert(ids_before[j] == x);
                            }
                        }
                        if ids_before.contains(x) {
                            let j = choose|j: int| 0 <= j < ids_before.len() && ids_before[j] == x;
                            assert(ids@[j] == x);
                        }
                        if x == k {
                            assert(ids@[ids_before.len() as int] == x);
                        }
                    }
                    assert(act.contains(k));
                }
            } else {
                assert(!act.contains(k));
            }
            proof {
                let s2 = seen.insert(k);
                assert(all.take(it.index() + 1).unref().to_set() =~= s2) by {
                    all.take(it.index()).unref().lemma_push_to_set_commute(k);
                }
                seen = s2;
            }
        }
        proof {
            assert(all.take(all.len() as int) == all);
            assert(seen =~= m.dom());
        }
        let mut out: Vec<(u64, W, TaskOutcome)> = Vec::new();
        let n = ids.len();
        for i in 0..n
            invariant
                n == ids.len(),
                ids@.no_duplicates(),
                forall|x: u64| ids@.contains(x) <==> act.contains(x),
                act == active_ids(m),
                self.states() == spec_fail_on(m, wt.dom(), message@, ids@.take(i as int).to_set()),
                self.waiters() == wt.remove_keys(ids@.take(i as int).to_set()),
                forall|j: int| 0 <= j < out.len() ==> {
                    let (k, w, o) = #[trigger] out@[j];
                    &&& ids@.take(i as int).contains(k)
                    &&& wt.contains_key(k)
                    &&& w == wt[k]
                    &&& outcome_view(o) == Err::<Seq<char>, Seq<char>>(message@)
                },
                forall|a: int, b: int| 0 <= a < out.len() && 0 <= b < out.len() && a != b ==> #[trigger] out@[a].0 != #[trigger] out@[b].0,
                forall|k: u64| ids@.take(i as int).contains(k) && wt.contains_key(k)
                    ==> exists|j: int| 0 <= j < out.len() && #[trigger] out@[j].0 == k,
        {
            let id = ids[i];
            let ghost before = ids@.take(i as int).to_set();
            let ghost after = ids@.take(i as int + 1).to_set();
            proof {
                assert(ids@.take(i as int + 1) == ids@.take(i as int).push(id));
                assert(after =~= before.insert(id)) by {
                    ids@.take(i as int).lemma_push_to_set_commute(id);
                }
                assert(!before.contains(id)) by {
                    if ids@.take(i as int).contains(id) {
                        let j = choose|j: int| 0 <= j < i && ids@.take(i as int)[j] == id;
                        assert(ids@[j] == ids@[i as int]);
                    }
                }
                assert(ids@.contains(id));
                assert(act.contains(id));
            }
            let ghost st_before = self.states();
            let ghost out_before = out@;
            let failure = message.clone();
            self.states.insert(id, TaskState::Done(Err(failure)));
            assert(self.states() =~= st_before.insert(id, TaskStateView::Done(Err(message@))));
            let notified = self.waiters.remove(&id);
            match notified {
                Some(w) => {
                    assert(wt.contains_key(id));
                    out.push((id, w, Err(message.clone())));
                    proof {
                        assert(self.states() =~= spec_fail_on(m, wt.dom(), message@, after));
                    }
                },
                None => {
                    assert(!wt.contains_key(id));
                    self.states.remove(&id);
                    proof {
                        assert(self.states() =~= st_before.remove(id));
                        assert(self.states() =~= spec_fail_on(m, wt.dom(), message@, after));
                    }
                },
            }
            proof {
                assert(self.waiters() =~= wt.remove_keys(after));
                assert forall|k: u64| ids@.take(i as int + 1).contains(k) && wt.contains_key(k)
                    implies exists|j: int| 0 <= j < out.len() && #[trigger] out@[j].0 == k by {
                    if k == id {
                        assert(out@[out.len() - 1].0 == k);
                    } else {
                        assert(before.contains(k));
                        assert(ids@.take(i as int).contains(k));
                        let j = choose|j: int| 0 <= j < out_before.len() && #[trigger] out_before[j].0 == k;
                        assert(out@[j] == out_before[j]);
                    }
                }
                assert forall|j: int| 0 <= j < out.len() implies ids@.take(i as int + 1).contains(#[trigger] out@[j].0) by {
                    if j < out.len() - 1 || notified is None {
                        assert(ids@.take(i as int).contains(out@[j].0));
                        assert(before.contains(out@[j].0));
                    } else {
                        assert(after.contains(id));
                    }
                }
            }
        }
        proof {
            assert(ids@.take(n as int) == ids@);
            assert(ids@.to_set() =~= act);
        }
        out
    }

    /// Takes in a command from a handle and says what the worker must do.
    /// A submitted task runs unless it was dropped or is unknown; a drop
    /// request drops an active task and tells its waiter; a shutdown stops
    /// the worker.
    pub fn handle_worker_command(&mut self, cmd: AsyncCommand) -> (a: WorkerAction<W>)
        ensures
            command_effect(*old(self), cmd, *final(self), a),
    {
        match cmd {
            AsyncCommand::Submit { id, script } => {
                if self.mark_running_if_available(id) {
                    WorkerAction::RunScript { id, script }
                } else {
                    WorkerAction::Idle
                }
            },
            AsyncCommand::Drop { id } => {
                let ghost before = *self;
                let d = self.mark_dropped_and_notify(id);
                proof {
                    let live = spec_is_active(before.states(), id);
                    assert(self.waiters() =~= if live { before.waiters().remove(id) } else { before.waiters() });
                    assert(self.states() =~= spec_drop(before.states(), before.waiters().contains_key(id), id));
                }
                match d {
                    Some((waiter, outcome)) => WorkerAction::Deliver { waiter, outcome },
                    None => WorkerAction::Idle,
                }
            },
            AsyncCommand::Shutdown => WorkerAction::Stop,
        }
    }

    /// Decides the worker's next step from what it received: a command is
    /// taken in as `handle_worker_command` does, an empty queue means
    /// running the pending jobs, and a closed queue stops the worker.
    pub fn drain_step(&mut self, received: Received) -> (s: DrainStep<W>)
        ensures
            match received {
                Received::Command(cmd) => s matches DrainStep::Act(a) && command_effect(*old(self), cmd, *final(self), a),
                Received::Empty => {
                    &&& s is Pump
                    &&& final(self).states() == old(self).states()
                    &&& final(self).waiters() == old(self).waiters()
                },
                Received::Disconnected => {
                    &&& s is Stop
                    &&& final(self).states() == old(self).states()
                    &&& final(self).waiters() == old(self).waiters()
                },
            },
    {
        match received {
            Received::Command(cmd) => DrainStep::Act(self.handle_worker_command(cmd)),
            Received::Empty => DrainStep::Pump,
            Received::Disconnected => DrainStep::Stop,
        }
    }

    /// Decides the worker's next step from what running the pending jobs
    /// gave: after `n > 0` jobs it looks for commands again, after none it
    /// waits for one, and when the engine failed with `m` every active task
    /// fails with `m` (the deliveries to make are returned) and the worker
    /// stops.
    pub fn after_pump(&mut self, pumped: Result<usize, String>) -> (r: (AfterPump, Vec<(u64, W, TaskOutcome)>))
        ensures
            match pumped {
                Ok(n) => {
                    &&& r.0 == after_pump_decision(pumped)
                    &&& (if n > 0 { r.0 is DrainAgain } else { r.0 is Block })
                    &&& r.1@.len() == 0
                    &&& final(self).states() == old(self).states()
                    &&& final(self).waiters() == old(self).waiters()
                },
                Err(m) => r.0 == after_pump_decision(pumped) && r.0 is Stop && fail_all_effect(*old(self), m@, *final(self), r.1@),
            },
    {
        match pumped {
            Ok(n) => {
                if n > 0 {
                    (AfterPump::DrainAgain, Vec::new())
                } else {
                    (AfterPump::Block, Vec::new())
                }
            },
            Err(m) => (AfterPump::Stop, self.fail_all_active_tasks(m)),
        }
    }

    /// What the table does when the script engine reports that task `id`
    /// finished: the outcome is recorded and goes to the task's waiter.
    pub fn complete_task(&mut self, id: u64, ok: bool, payload: String) -> (d: Option<(W, TaskOutcome)>)
        ensures
            ({
                let o = if ok { Ok::<Seq<char>, Seq<char>>(payload@) } else { Err::<Seq<char>, Seq<char>>(payload@) };
                let (m1, live) = spec_finalize(old(self).states(), id, o);
                if !live {
                    &&& final(self).states() == m1
                    &&& final(self).waiters() == old(self).waiters()
                    &&& d is None
                } else if old(self).waiters().contains_key(id) {
                    &&& final(self).states() == m1
                    &&& final(self).waiters() == old(self).waiters().remove(id)
                    &&& d matches Some((w, r)) && w == old(self).waiters()[id] && outcome_view(r) == o
                } else {
                    &&& final(self).states() == m1.remove(id)
                    &&& final(self).waiters() == old(self).waiters()
                    &&& d is None
                }
            }),
    {
        self.finalize_task_with_waiter(id, task_outcome(ok, payload))
    }
}

/// The shared task tables of the live asynchronous runtimes, by runtime id.
pub struct RuntimeRegistry<S> {
    runtimes: HashMap<u64, S>,
}

impl<S> RuntimeRegistry<S> {
    /// The shared state of every registered runtime, by runtime id.
    pub closed spec fn runtimes(&self) -> Map<u64, S> {
        self.runtimes@
    }

    pub fn new() -> (r: Self)
        ensures
            r.runtimes() == Map::<u64, S>::empty(),
    {
        RuntimeRegistry { runtimes: HashMap::new() }
    }

    /// Makes a runtime's shared state reachable by its id.
    pub fn register_runtime_shared(&mut self, runtime_id: u64, shared: S)
        ensures
            final(self).runtimes() == old(self).runtimes().insert(runtime_id, shared),
    {
        self.runtimes.insert(runtime_id, shared);
    }

    /// Forgets a runtime that shut down.
    pub fn unregister_runtime_shared(&mut self, runtime_id: u64)
        ensures
            final(self).runtimes() == old(self).runtimes().remove(runtime_id),
    {
        self.runtimes.remove(&runtime_id);
    }

    /// The shared state of a registered runtime.
    pub fn runtime_shared(&self, runtime_id: u64) -> (r: Option<&S>)
        ensures
            match r {
                Some(s) => self.runtimes().contains_key(runtime_id) && *s == self.runtimes()[runtime_id],
                None => !self.runtimes().contains_key(runtime_id),
            },
    {
        self.runtimes.get(&runtime_id)
    }
}

/// Reading a task's result right after its outcome was recorded gives back
/// that outcome.
pub proof fn law_read_after_finalize(m: Map<u64, TaskStateView>, id: u64, o: Result<Seq<char>, Seq<char>>)
    requires
        spec_finalize(m, id, o).1,
    ensures
        spec_read_done(spec_finalize(m, id, o).0, id) == o,
{
}

/// An outcome is recorded exactly for a task that is known and not dropped.
pub proof fn law_finalize_accepts_live_tasks(m: Map<u64, TaskStateView>, id: u64, o: Result<Seq<char>, Seq<char>>)
    ensures
        spec_finalize(m, id, o).1 <==> (m.contains_key(id) && !(m[id] is Dropped)),
{
}

/// A dropped task is never revived: it does not start running, and an
/// outcome that arrives for it only removes it.
pub proof fn law_dropped_stays_dropped(m: Map<u64, TaskStateView>, id: u64, o: Result<Seq<char>, Seq<char>>)
    requires
        m.contains_key(id),
        m[id] is Dropped,
    ensures
        spec_mark_running(m, id) == (m, false),
        spec_finalize(m, id, o) == (m.remove(id), false),
        spec_drop(m, true, id) == m,
        spec_drop(m, false, id) == m,
{
}

/// After a drop request the task is no longer active, so a second drop
/// request changes nothing.
pub proof fn law_drop_is_idempotent(m: Map<u64, TaskStateView>, has_waiter: bool, again: bool, id: u64)
    ensures
        !spec_is_active(spec_drop(m, has_waiter, id), id),
        spec_drop(spec_drop(m, has_waiter, id), again, id) == spec_drop(m, has_waiter, id),
{
}

/// A drop request touches no other task.
pub proof fn law_drop_is_local(m: Map<u64, TaskStateView>, has_waiter: bool, id: u64, other: u64)
    requires
        other != id,
    ensures
        spec_drop(m, has_waiter, id).contains_key(other) == m.contains_key(other),
        m.contains_key(other) ==> spec_drop(m, has_waiter, id)[other] == m[other],
{
}

/// The four counts of `stats` add up to the number of tasks: every task is
/// in exactly one state.
pub proof fn law_stats_partition(m: Map<u64, TaskStateView>)
    requires
        m.dom().finite(),
    ensures
        count_kind(m, 0) + count_kind(m, 1) + count_kind(m, 2) + count_kind(m, 3) == m.dom().len(),
{
    let d = m.dom();
    let f0 = d.filter(|k: u64| kind_of(m[k]) == 0);
    let f1 = d.filter(|k: u64| kind_of(m[k]) == 1);
    let f2 = d.filter(|k: u64| kind_of(m[k]) == 2);
    let f3 = d.filter(|k: u64| kind_of(m[k]) == 3);
    let f01 = d.filter(|k: u64| kind_of(m[k]) <= 1);
    let f23 = d.filter(|k: u64| kind_of(m[k]) >= 2);
    assert(f01 =~= f0 + f1);
    assert(f23 =~= f2 + f3);
    assert(d =~= f01 + f23);
    vstd::set_lib::lemma_set_disjoint_lens(f0, f1);
    vstd::set_lib::lemma_set_disjoint_lens(f2, f3);
    vstd::set_lib::lemma_set_disjoint_lens(f01, f23);
}

/// After every active task failed, no task is active any more, and every
/// task that was not active is untouched.
pub proof fn law_fail_all_leaves_nothing_active(m: Map<u64, TaskStateView>, w: Set<u64>, msg: Seq<char>)
    ensures
        active_ids(spec_fail_on(m, w, msg, active_ids(m))) == Set::<u64>::empty(),
        forall|k: u64| m.contains_key(k) && !m[k].active() ==> {
            &&& #[trigger] spec_fail_on(m, w, msg, active_ids(m)).contains_key(k)
            &&& spec_fail_on(m, w, msg, active_ids(m))[k] == m[k]
        },
{
    assert(active_ids(spec_fail_on(m, w, msg, active_ids(m))) =~= Set::<u64>::empty());
}

/// The worker never waits while jobs may be runnable: it waits for a
/// command only after a pump that ran no job; after a pump that ran jobs it
/// looks for commands and, once the queue is empty, pumps again.
pub proof fn law_worker_waits_only_when_idle(pumped: Result<usize, String>)
    ensures
        after_pump_decision(pumped) is Block <==> pumped == Ok::<usize, String>(0),
        after_pump_decision(pumped) is DrainAgain <==> (pumped matches Ok(n) && n > 0),
        after_pump_decision(pumped) is Stop <==> pumped is Err,
{
}

/// A task whose handle went away without waiting is forgotten once the
/// worker took in its queued submission and the drop request: neither its
/// state nor its waiter stays, whatever state it was in, and a completion
/// that comes later changes nothing.
pub proof fn law_released_task_is_forgotten<W>(
    before: TaskTable<W>,
    released: TaskTable<W>,
    submitted: TaskTable<W>,
    after: TaskTable<W>,
    id: u64,
    script: String,
    must_drop: bool,
    a1: WorkerAction<W>,
    a2: WorkerAction<W>,
    o: Result<Seq<char>, Seq<char>>,
)
    requires
        release_effect(before, id, released, must_drop),
        command_effect(released, AsyncCommand::Submit { id, script }, submitted, a1),
        must_drop ==> command_effect(submitted, AsyncCommand::Drop { id }, after, a2),
        !must_drop ==> after == submitted,
    ensures
        !after.states().contains_key(id),
        !after.waiters().contains_key(id),
        spec_finalize(after.states(), id, o) == (after.states(), false),
{
    assert(spec_finalize(after.states(), id, o).0 =~= after.states());
}

} // verus!
