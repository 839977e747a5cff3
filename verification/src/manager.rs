//! The registry of tasks, and the entry points that look a task up and set
//! out the procedures acting on its workers.

use vstd::prelude::*;
use crate::control::{entries_view, pid_in_reply, DirEntry, DirEntryView, EffectView, ReplyView};
use crate::error::{ErrorView, ManagerError};
use crate::info::{status_of_pid_reply, InfoAction, InfoActionView, InfoRun, InfoStage, InfoState,
    InfoStatus};
use crate::start::{StartAction, StartActionView, StartRun, StartStage, StartState};
use crate::stop::{is_task_dir, lemma_matching_dirs_contains, matching_dirs, select_task_dirs, InstanceStage, InstanceState, InstanceStop,
    StopAction, StopActionView, StopRun, StopState, SweepStage, SweepState, SweepStop};
use crate::pid::{lemma_pid_round_trip, pid_file_text};
use crate::task::{lemma_instance_name_shape, name_base, nameable, task_dir_name, ChildTask};
use crate::text::str_equal;

verus! {

/// Central controller that registers tasks and sets out the procedures that
/// launch, inspect and stop their background workers.
#[derive(Debug, Clone)]
pub struct ProcessManager<W> {
    /// The registered tasks, in registration order.
    pub tasks: Vec<ChildTask<W>>,
}

/// `i` is the first position in `tasks` of a task triggered by `name`.
pub open spec fn is_first_named<W>(tasks: Seq<ChildTask<W>>, name: Seq<char>, i: int) -> bool {
    &&& 0 <= i < tasks.len()
    &&& tasks[i].env_var@ == name
    &&& forall|k: int| 0 <= k < i ==> tasks[k].env_var@ != name
}

/// The position of the first task triggered by `name`, if any: the task that
/// a request under that name addresses.
pub open spec fn task_index<W>(tasks: Seq<ChildTask<W>>, name: Seq<char>) -> Option<int> {
    if exists|i: int| #[trigger] is_first_named(tasks, name, i) {
        Some(choose|i: int| #[trigger] is_first_named(tasks, name, i))
    } else {
        None
    }
}

/// There is at most one first position of a name.
proof fn lemma_first_named_unique<W>(tasks: Seq<ChildTask<W>>, name: Seq<char>, i: int, j: int)
    requires
        is_first_named(tasks, name, i),
        is_first_named(tasks, name, j),
    ensures
        i == j,
{
    if i < j {
        assert(tasks[i].env_var@ != name);
    } else if j < i {
        assert(tasks[j].env_var@ != name);
    }
}

/// The first position of a name is what [`task_index`] gives.
proof fn lemma_task_index_is<W>(tasks: Seq<ChildTask<W>>, name: Seq<char>, i: int)
    requires
        is_first_named(tasks, name, i),
    ensures
        task_index(tasks, name) == Some(i),
{
    let j = choose|j: int| #[trigger] is_first_named(tasks, name, j);
    lemma_first_named_unique(tasks, name, i, j);
}

/// The error for a request under a name that no task has.
pub open spec fn unknown_task(name: Seq<char>) -> ErrorView {
    ErrorView::UnknownTask { task_name: name }
}

impl<W: Copy> ProcessManager<W> {
    /// A manager with no task registered.
    pub fn new() -> (res: Self)
        ensures
            res.tasks@.len() == 0,
    {
        ProcessManager { tasks: Vec::new() }
    }

    /// Registers a task triggered by `env_var` and handled by `work`; its
    /// instance identifier is left empty.
    pub fn register_task(&mut self, env_var: &'static str, work: W)
        ensures
            final(self).tasks@.len() == old(self).tasks@.len() + 1,
            final(self).tasks@.take(old(self).tasks@.len() as int) == old(self).tasks@,
            final(self).tasks@.last().id@ == Seq::<char>::empty(),
            final(self).tasks@.last().env_var == env_var,
            final(self).tasks@.last().work == work,
    {
        let ghost before = self.tasks@;
        self.tasks.push(ChildTask { env_var, work, id: String::new() });
        assert(self.tasks@.take(before.len() as int) =~= before);
    }

    /// The position of the first task triggered by `task_name`.
    pub fn find_task(&self, task_name: &str) -> (res: Option<usize>)
        ensures
            match res {
                Some(i) => task_index(self.tasks@, task_name@) == Some(i as int),
                None => task_index(self.tasks@, task_name@) is None,
            },
    {
        let mut i: usize = 0;
        while i < self.tasks.len()
            invariant
                i <= self.tasks@.len(),
                forall|k: int| 0 <= k < i ==> self.tasks@[k].env_var@ != task_name@,
            decreases self.tasks.len() - i,
        {
            if str_equal(self.tasks[i].env_var, task_name) {
                proof {
                    lemma_task_index_is(self.tasks@, task_name@, i as int);
                }
                return Some(i);
            }
            i = i + 1;
        }
        proof {
            if exists|j: int| #[trigger] is_first_named(self.tasks@, task_name@, j) {
                let j = choose|j: int| #[trigger] is_first_named(self.tasks@, task_name@, j);
                assert(self.tasks@[j].env_var@ != task_name@);
            }
        }
        None
    }

    /// Which task the current process was started to run, given for each
    /// registered task whether its trigger variable is set in the
    /// environment: the first task whose variable is set, or `None` when the
    /// process is not a worker.
    pub fn check(&self, env_present: &Vec<bool>) -> (res: Option<usize>)
        requires
            env_present@.len() == self.tasks@.len(),
        ensures
            match res {
                Some(i) => i < env_present@.len() && env_present@[i as int] && forall|k: int|
                    0 <= k < i ==> !env_present@[k],
                None => forall|k: int| 0 <= k < env_present@.len() ==> !env_present@[k],
            },
    {
        let mut i: usize = 0;
        while i < env_present.len()
            invariant
                i <= env_present@.len(),
                forall|k: int| 0 <= k < i ==> !env_present@[k],
            decreases env_present.len() - i,
        {
            if env_present[i] {
                return Some(i);
            }
            i = i + 1;
        }
        None
    }

    /// The directories of `task`'s workers among the entries of the
    /// temporary directory: the sub-directories whose names begin with the
    /// task's base name.
    pub fn find_task_dirs(&self, task: &ChildTask<W>, entries: &Vec<DirEntry>) -> (res: Vec<String>)
        ensures
            res.deep_view() == matching_dirs(name_base(task.env_var@), entries_view(entries@)),
    {
        let base = task.task_name_base();
        select_task_dirs(base.as_str(), entries)
    }

    /// Sets out the start of instance `id` of the task requested as
    /// `task_name`, with `extra_env` added to the child's environment.  The
    /// identifier must be set.
    pub fn start(&self, task_name: &str, id: &str, extra_env: Vec<(String, String)>) -> (res: Result<
        (StartRun, StartAction),
        ManagerError,
    >)
        requires
            task_index(self.tasks@, task_name@) is Some ==> nameable(id@),
        ensures
            match task_index(self.tasks@, task_name@) {
                None => res matches Err(e) && e@ == unknown_task(task_name@),
                Some(i) => res matches Ok((run, action)) && run@ == (StartState {
                    task_name: task_name@,
                    env_var: self.tasks@[i].env_var@,
                    dir: task_dir_name(self.tasks@[i].env_var@, id@),
                    extra_env: extra_env.deep_view(),
                    stage: StartStage::MakeDir,
                }) && action@ == StartActionView::Perform(
                    EffectView::MakeDir { dir: task_dir_name(self.tasks@[i].env_var@, id@) },
                ),
            },
    {
        match self.find_task(task_name) {
            None => Err(ManagerError::UnknownTask { task_name: String::from_str(task_name) }),
            Some(i) => {
                let task = self.tasks[i].set_id(id);
                let dir = task.task_name();
                Ok(StartRun::new(task_name, task.env_var, dir, extra_env))
            },
        }
    }

    /// Sets out the inspection of instance `id` of the task requested as
    /// `task_name`.  The identifier must be set.
    pub fn info(&self, task_name: &str, id: &str) -> (res: Result<(InfoRun, InfoAction), ManagerError>)
        requires
            task_index(self.tasks@, task_name@) is Some ==> nameable(id@),
        ensures
            match task_index(self.tasks@, task_name@) {
                None => res matches Err(e) && e@ == unknown_task(task_name@),
                Some(i) => res matches Ok((run, action)) && run@ == (InfoState {
                    task_name: task_name@,
                    id: id@,
                    dir: task_dir_name(self.tasks@[i].env_var@, id@),
                    stage: InfoStage::CheckDir,
                }) && action@ == InfoActionView::Perform(
                    EffectView::DirExists { dir: task_dir_name(self.tasks@[i].env_var@, id@) },
                ),
            },
    {
        match self.find_task(task_name) {
            None => Err(ManagerError::UnknownTask { task_name: String::from_str(task_name) }),
            Some(i) => {
                let task = self.tasks[i].set_id(id);
                let dir = task.task_name();
                Ok(InfoRun::new(task_name, id, dir))
            },
        }
    }

    /// Sets out the stop of the workers of the task requested as
    /// `task_name`: of instance `id` when it is given (the identifier must be
    /// set), of every instance found otherwise.
    pub fn stop(&self, task_name: &str, id: Option<&str>) -> (res: Result<(StopRun, StopAction), ManagerError>)
        requires
            task_index(self.tasks@, task_name@) is Some && id is Some ==> nameable(id.unwrap()@),
        ensures
            match task_index(self.tasks@, task_name@) {
                None => res matches Err(e) && e@ == unknown_task(task_name@),
                Some(i) => res matches Ok((run, action)) && match id {
                    Some(x) => run@ == StopState::Instance(
                        InstanceState {
                            task_name: task_name@,
                            id: x@,
                            dir: task_dir_name(self.tasks@[i].env_var@, x@),
                            failure: None,
                            stage: InstanceStage::CheckDir,
                        },
                    ) && action@ == StopActionView::Perform(
                        EffectView::DirExists { dir: task_dir_name(self.tasks@[i].env_var@, x@) },
                    ),
                    None => run@ == StopState::Sweep(
                        SweepState {
                            task_name: task_name@,
                            base: name_base(self.tasks@[i].env_var@),
                            dirs: Seq::empty(),
                            current: 0,
                            found: 0,
                            failures: 0,
                            stage: SweepStage::ListDirs,
                        },
                    ) && action@ == StopActionView::Perform(EffectView::ListTempDir),
                },
            },
    {
        match self.find_task(task_name) {
            None => Err(ManagerError::UnknownTask { task_name: String::from_str(task_name) }),
            Some(i) => match id {
                Some(x) => {
                    let task = self.tasks[i].set_id(x);
                    let dir = task.task_name();
                    let (run, action) = InstanceStop::new(task_name, x, dir);
                    Ok((StopRun::Instance(run), action))
                },
                None => {
                    let base = self.tasks[i].task_name_base();
                    let (run, action) = SweepStop::new(task_name, base);
                    Ok((StopRun::Sweep(run), action))
                },
            },
        }
    }

}

/// Registering a task makes it reachable by its name: afterwards a request
/// under that name addresses the first task registered with it, which is the
/// new one unless an earlier task has the same name.
pub proof fn lemma_register_then_find<W>(before: Seq<ChildTask<W>>, after: Seq<ChildTask<W>>, name: Seq<char>)
    requires
        after.len() == before.len() + 1,
        after.take(before.len() as int) == before,
        after.last().env_var@ == name,
    ensures
        task_index(after, name) == match task_index(before, name) {
            Some(i) => Some(i),
            None => Some(before.len() as int),
        },
{
    if exists|i: int| #[trigger] is_first_named(before, name, i) {
        let i = choose|i: int| #[trigger] is_first_named(before, name, i);
        assert forall|k: int| 0 <= k < i implies after[k].env_var@ != name by {
            assert(after[k] == after.take(before.len() as int)[k]);
        }
        assert(after[i] == after.take(before.len() as int)[i]);
        lemma_task_index_is(after, name, i);
    } else {
        assert forall|k: int| 0 <= k < before.len() implies after[k].env_var@ != name by {
            assert(after[k] == before[k]);
            if before[k].env_var@ == name {
                if forall|m: int| 0 <= m < k ==> before[m].env_var@ != name {
                    assert(is_first_named(before, name, k));
                } else {
                    let m = choose|m: int| 0 <= m < k && before[m].env_var@ == name;
                    lemma_first_of_some(before, name, m);
                }
            }
        }
        lemma_task_index_is(after, name, before.len() as int);
    }
}

/// A name that some task has has a first position.
proof fn lemma_first_of_some<W>(tasks: Seq<ChildTask<W>>, name: Seq<char>, k: int)
    requires
        0 <= k < tasks.len(),
        tasks[k].env_var@ == name,
    ensures
        exists|i: int| #[trigger] is_first_named(tasks, name, i),
    decreases k,
{
    if forall|m: int| 0 <= m < k ==> tasks[m].env_var@ != name {
        assert(is_first_named(tasks, name, k));
    } else {
        let m = choose|m: int| 0 <= m < k && tasks[m].env_var@ == name;
        lemma_first_of_some(tasks, name, m);
    }
}

/// The directory of any instance of a task, when it is listed in the
/// temporary directory, is among the directories a sweep of that task
/// visits: `stop` without an identifier reaches every started instance.
pub proof fn lemma_sweep_reaches_instance(env_var: Seq<char>, id: Seq<char>, entries: Seq<DirEntryView>, k: int)
    requires
        0 <= k < entries.len(),
        entries[k] == (DirEntryView { name: task_dir_name(env_var, id), is_dir: true }),
    ensures
        matching_dirs(name_base(env_var), entries).contains(task_dir_name(env_var, id)),
{
    let base = name_base(env_var);
    lemma_instance_name_shape(base, crate::task::id_hash(id));
    assert(is_task_dir(base, entries[k]));
    lemma_matching_dirs_contains(base, entries, k);
}

/// What a start records in a worker's pid file is read back by the other
/// procedures: an inspection reports that process as running, and a stop
/// signals that process.
pub proof fn lemma_recorded_pid_is_read_back(pid: u32)
    ensures
        pid_in_reply(ReplyView::Contents(Some(pid_file_text(pid)))) == Some(pid),
        status_of_pid_reply(ReplyView::Contents(Some(pid_file_text(pid)))) == (InfoStatus::Running { pid }),
{
    lemma_pid_round_trip(pid);
}

} // verus!
