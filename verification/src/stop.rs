//! Stopping workers with `SIGTERM`: one instance, or every instance of a task
//! found in the temporary directory.  Once a worker's pid file is found, its
//! directory is removed whatever happens next: the signal is delivered, the
//! signal fails, or the pid file does not name a process (failures are still
//! reported).

use vstd::prelude::*;
use crate::control::{answers_present, entries_view, pid_in_reply, reason_of, reply_done,
    reply_pid, reply_present, take_reason, DirEntry, DirEntryView, Effect, EffectView, Reply,
    ReplyView};
use crate::error::{ErrorView, ManagerError};
use crate::task::{is_instance_dir_name, is_instance_name};

verus! {

/// `e` is an instance directory of the task with base name `base`: a
/// directory named by the base name, a hyphen and twelve base-36 digits.
pub open spec fn is_task_dir(base: Seq<char>, e: DirEntryView) -> bool {
    e.is_dir && is_instance_name(base, e.name)
}

/// The names of the directories among `entries` that belong to the task with
/// base name `base`, in listing order.
pub open spec fn matching_dirs(base: Seq<char>, entries: Seq<DirEntryView>) -> Seq<Seq<char>>
    decreases entries.len(),
{
    if entries.len() == 0 {
        Seq::empty()
    } else {
        let rest = matching_dirs(base, entries.drop_last());
        if is_task_dir(base, entries.last()) {
            rest.push(entries.last().name)
        } else {
            rest
        }
    }
}

/// Picks, from a listing of the temporary directory, the directories of the
/// task whose base name is `base`.
pub fn select_task_dirs(base: &str, entries: &Vec<DirEntry>) -> (res: Vec<String>)
    ensures
        res.deep_view() == matching_dirs(base@, entries_view(entries@)),
{
    let mut out: Vec<String> = Vec::new();
    let mut i: usize = 0;
    while i < entries.len()
        invariant
            i <= entries.len(),
            out.deep_view() == matching_dirs(base@, entries_view(entries@).take(i as int)),
        decreases entries.len() - i,
    {
        let e = &entries[i];
        let ghost before = entries_view(entries@).take(i as int);
        let ghost after = entries_view(entries@).take(i + 1);
        assert(after.drop_last() =~= before);
        assert(after.last() == e@);
        if e.is_dir && is_instance_dir_name(base, e.name.as_str()) {
            let ghost old_out = out.deep_view();
            out.push(e.name.clone());
            assert(out.deep_view() =~= old_out.push(e.name@));
        }
        i = i + 1;
    }
    assert(entries_view(entries@).take(entries.len() as int) =~= entries_view(entries@));
    out
}

/// The next step of a stop procedure: an effect to perform, or its end.
#[derive(Debug, PartialEq, Eq)]
pub enum StopAction {
    Perform(Effect),
    Finish(Result<(), ManagerError>),
}

/// [`StopAction`] with its texts as character sequences.
pub enum StopActionView {
    Perform(EffectView),
    Finish(Result<(), ErrorView>),
}

impl View for StopAction {
    type V = StopActionView;

    open spec fn view(&self) -> StopActionView {
        match self {
            StopAction::Perform(e) => StopActionView::Perform(e@),
            StopAction::Finish(Ok(())) => StopActionView::Finish(Ok(())),
            StopAction::Finish(Err(e)) => StopActionView::Finish(Err(e@)),
        }
    }
}

/// Where the stop of a single instance stands.
#[derive(Debug, Clone, Copy, PartialEq, Eq)]
pub enum InstanceStage {
    /// Waiting to learn whether the instance directory exists.
    CheckDir,
    /// Waiting for the pid file's text.
    ReadPid,
    /// Waiting for the signal to process `pid` to be sent.
    Kill { pid: u32 },
    /// Waiting for the instance directory to be removed.
    RemoveDir,
    /// The procedure has ended.
    Finished,
}

/// The stop of the instance `id` of a task, whose directory is `dir`.
#[derive(Debug, Clone)]
pub struct InstanceStop {
    /// The task name as requested.
    pub task_name: String,
    /// The instance identifier.
    pub id: String,
    /// The instance's directory.
    pub dir: String,
    /// The error to report once the directory is removed, if any.
    pub failure: Option<ManagerError>,
    /// Where the procedure stands.
    pub stage: InstanceStage,
}

/// [`InstanceStop`] with its texts as character sequences.
pub struct InstanceState {
    pub task_name: Seq<char>,
    pub id: Seq<char>,
    pub dir: Seq<char>,
    pub failure: Option<ErrorView>,
    pub stage: InstanceStage,
}

impl View for InstanceStop {
    type V = InstanceState;

    open spec fn view(&self) -> InstanceState {
        InstanceState {
            task_name: self.task_name@,
            id: self.id@,
            dir: self.dir@,
            failure: match self.failure {
                Some(e) => Some(e@),
                None => None,
            },
            stage: self.stage,
        }
    }
}

/// How the stop of a single instance answers a reply.
pub open spec fn instance_next(s: InstanceState, r: ReplyView) -> (InstanceState, StopActionView) {
    let remove = StopActionView::Perform(EffectView::RemoveDir { dir: s.dir });
    match s.stage {
        InstanceStage::CheckDir => if answers_present(r) {
            (
                InstanceState { stage: InstanceStage::ReadPid, ..s },
                StopActionView::Perform(EffectView::ReadPidFile { dir: s.dir }),
            )
        } else {
            (
                InstanceState { stage: InstanceStage::Finished, ..s },
                StopActionView::Finish(Err(ErrorView::NotRunning { task_name: s.task_name, id: s.id })),
            )
        },
        InstanceStage::ReadPid => match pid_in_reply(r) {
            Some(pid) => (
                InstanceState { stage: InstanceStage::Kill { pid }, ..s },
                StopActionView::Perform(EffectView::Kill { pid }),
            ),
            None => (
                InstanceState {
                    stage: InstanceStage::RemoveDir,
                    failure: Some(ErrorView::InvalidPidFile { dir: s.dir }),
                    ..s
                },
                remove,
            ),
        },
        InstanceStage::Kill { pid } => if r is Done {
            (InstanceState { stage: InstanceStage::RemoveDir, failure: None, ..s }, remove)
        } else {
            (
                InstanceState {
                    stage: InstanceStage::RemoveDir,
                    failure: Some(ErrorView::KillFailed { pid, reason: reason_of(r) }),
                    ..s
                },
                remove,
            )
        },
        InstanceStage::RemoveDir => (
            InstanceState { stage: InstanceStage::Finished, ..s },
            StopActionView::Finish(
                match s.failure {
                    Some(e) => Err(e),
                    None => Ok(()),
                },
            ),
        ),
        InstanceStage::Finished => (s, arbitrary()),
    }
}

impl InstanceStop {
    /// The stop of instance `id` of a task requested under `task_name`, with
    /// directory `dir`, and its first step: asking whether the directory
    /// exists.
    pub fn new(task_name: &str, id: &str, dir: String) -> (res: (InstanceStop, StopAction))
        ensures
            res.0@ == (InstanceState {
                task_name: task_name@,
                id: id@,
                dir: dir@,
                failure: None,
                stage: InstanceStage::CheckDir,
            }),
            res.1@ == StopActionView::Perform(EffectView::DirExists { dir: dir@ }),
    {
        let first = StopAction::Perform(Effect::DirExists { dir: dir.clone() });
        (
            InstanceStop {
                task_name: String::from_str(task_name),
                id: String::from_str(id),
                dir,
                failure: None,
                stage: InstanceStage::CheckDir,
            },
            first,
        )
    }

    /// Takes the caller's reply to the last effect and gives the next step.
    pub fn resume(&mut self, reply: Reply) -> (action: StopAction)
        requires
            !(old(self).stage is Finished),
        ensures
            (final(self)@, action@) == instance_next(old(self)@, reply@),
    {
        match self.stage {
            InstanceStage::CheckDir => {
                if reply_present(&reply) {
                    self.stage = InstanceStage::ReadPid;
                    StopAction::Perform(Effect::ReadPidFile { dir: self.dir.clone() })
                } else {
                    self.stage = InstanceStage::Finished;
                    StopAction::Finish(
                        Err(ManagerError::NotRunning { task_name: self.task_name.clone(), id: self.id.clone() }),
                    )
                }
            },
            InstanceStage::ReadPid => {
                match reply_pid(&reply) {
                    Some(pid) => {
                        self.stage = InstanceStage::Kill { pid };
                        StopAction::Perform(Effect::Kill { pid })
                    },
                    None => {
                        self.failure = Some(ManagerError::InvalidPidFile { dir: self.dir.clone() });
                        self.stage = InstanceStage::RemoveDir;
                        StopAction::Perform(Effect::RemoveDir { dir: self.dir.clone() })
                    },
                }
            },
            InstanceStage::Kill { pid } => {
                if reply_done(&reply) {
                    self.failure = None;
                } else {
                    self.failure = Some(ManagerError::KillFailed { pid, reason: take_reason(reply) });
                }
                self.stage = InstanceStage::RemoveDir;
                StopAction::Perform(Effect::RemoveDir { dir: self.dir.clone() })
            },
            InstanceStage::RemoveDir => {
                self.stage = InstanceStage::Finished;
                match &self.failure {
                    Some(e) => StopAction::Finish(Err(e.clone_error())),
                    None => StopAction::Finish(Ok(())),
                }
            },
            InstanceStage::Finished => vstd::pervasive::unreached(),
        }
    }
}

/// Where the stop of every instance of a task stands.
#[derive(Debug, Clone, Copy, PartialEq, Eq)]
pub enum SweepStage {
    /// Waiting for the listing of the temporary directory.
    ListDirs,
    /// Waiting to learn whether the current directory holds a pid file.
    CheckPidFile,
    /// Waiting for the current pid file's text.
    ReadPid,
    /// Waiting for the signal to process `pid` to be sent.
    Kill { pid: u32 },
    /// Waiting for the current directory to be removed.
    RemoveDir,
    /// The procedure has ended.
    Finished,
}

/// The stop of every instance of a task: each directory of the task found in
/// the temporary directory is visited in turn.
#[derive(Debug, Clone)]
pub struct SweepStop {
    /// The task name as requested.
    pub task_name: String,
    /// The task's base name, which starts the names of its directories.
    pub base: String,
    /// The task's directories, once listed.
    pub dirs: Vec<String>,
    /// The index of the directory being visited.
    pub current: usize,
    /// How many directories visited so far held a pid file.
    pub found: usize,
    /// How many workers could not be stopped so far.
    pub failures: usize,
    /// Where the procedure stands.
    pub stage: SweepStage,
}

/// [`SweepStop`] with its texts as character sequences.
pub struct SweepState {
    pub task_name: Seq<char>,
    pub base: Seq<char>,
    pub dirs: Seq<Seq<char>>,
    pub current: nat,
    pub found: nat,
    pub failures: nat,
    pub stage: SweepStage,
}

impl View for SweepStop {
    type V = SweepState;

    open spec fn view(&self) -> SweepState {
        SweepState {
            task_name: self.task_name@,
            base: self.base@,
            dirs: self.dirs.deep_view(),
            current: self.current as nat,
            found: self.found as nat,
            failures: self.failures as nat,
            stage: self.stage,
        }
    }
}

impl SweepState {
    /// The counters agree with the stage: a directory is being visited in
    /// every stage between the listing and the end, each directory visited
    /// counts at most once as holding a pid file, and at most one failure is
    /// counted for each pid file found.
    pub open spec fn well_formed(self) -> bool {
        match self.stage {
            SweepStage::ListDirs => self.dirs.len() == 0 && self.current == 0 && self.found == 0
                && self.failures == 0,
            SweepStage::CheckPidFile => self.current < self.dirs.len() && self.failures <= self.found
                <= self.current,
            SweepStage::RemoveDir => self.current < self.dirs.len() && self.failures <= self.found
                <= self.current + 1,
            SweepStage::Finished => true,
            _ => self.current < self.dirs.len() && self.failures < self.found <= self.current + 1,
        }
    }

    /// The directory being visited.
    pub open spec fn current_dir(self) -> Seq<char> {
        self.dirs[self.current as int]
    }

    /// The outcome of the whole sweep.
    pub open spec fn outcome(self) -> Result<(), ErrorView> {
        if self.found == 0 {
            Err(ErrorView::NoRunningProcesses { task_name: self.task_name })
        } else if self.failures > 0 {
            Err(ErrorView::SomeStopsFailed { failures: self.failures })
        } else {
            Ok(())
        }
    }

    /// Moves on to the next directory, or ends when none is left.
    pub open spec fn advance(self) -> (SweepState, StopActionView) {
        if self.current + 1 < self.dirs.len() {
            (
                SweepState { current: self.current + 1, stage: SweepStage::CheckPidFile, ..self },
                StopActionView::Perform(EffectView::PidFileExists { dir: self.dirs[(self.current + 1) as int] }),
            )
        } else {
            (SweepState { stage: SweepStage::Finished, ..self }, StopActionView::Finish(self.outcome()))
        }
    }
}

/// How the stop of every instance of a task answers a reply.
pub open spec fn sweep_next(s: SweepState, r: ReplyView) -> (SweepState, StopActionView) {
    match s.stage {
        SweepStage::ListDirs => match r {
            ReplyView::Listing(entries) => {
                let dirs = matching_dirs(s.base, entries);
                if dirs.len() == 0 {
                    (
                        SweepState { stage: SweepStage::Finished, ..s },
                        StopActionView::Finish(Err(ErrorView::NoRunningProcesses { task_name: s.task_name })),
                    )
                } else {
                    (
                        SweepState { dirs, current: 0, stage: SweepStage::CheckPidFile, ..s },
                        StopActionView::Perform(EffectView::PidFileExists { dir: dirs[0] }),
                    )
                }
            },
            _ => (
                SweepState { stage: SweepStage::Finished, ..s },
                StopActionView::Finish(Err(ErrorView::ListingFailed { reason: reason_of(r) })),
            ),
        },
        SweepStage::CheckPidFile => if answers_present(r) {
            (
                SweepState { found: s.found + 1, stage: SweepStage::ReadPid, ..s },
                StopActionView::Perform(EffectView::ReadPidFile { dir: s.current_dir() }),
            )
        } else {
            s.advance()
        },
        SweepStage::ReadPid => match pid_in_reply(r) {
            Some(pid) => (
                SweepState { stage: SweepStage::Kill { pid }, ..s },
                StopActionView::Perform(EffectView::Kill { pid }),
            ),
            None => (
                SweepState { failures: s.failures + 1, stage: SweepStage::RemoveDir, ..s },
                StopActionView::Perform(EffectView::RemoveDir { dir: s.current_dir() }),
            ),
        },
        SweepStage::Kill { pid } => if r is Done {
            (
                SweepState { stage: SweepStage::RemoveDir, ..s },
                StopActionView::Perform(EffectView::RemoveDir { dir: s.current_dir() }),
            )
        } else {
            (
                SweepState { failures: s.failures + 1, stage: SweepStage::RemoveDir, ..s },
                StopActionView::Perform(EffectView::RemoveDir { dir: s.current_dir() }),
            )
        },
        SweepStage::RemoveDir => s.advance(),
        SweepStage::Finished => (s, arbitrary()),
    }
}

impl SweepStop {
    /// The stop of every instance of a task requested under `task_name`,
    /// whose base name is `base`, and its first step: listing the temporary
    /// directory.
    pub fn new(task_name: &str, base: String) -> (res: (SweepStop, StopAction))
        ensures
            res.0@ == (SweepState {
                task_name: task_name@,
                base: base@,
                dirs: Seq::empty(),
                current: 0,
                found: 0,
                failures: 0,
                stage: SweepStage::ListDirs,
            }),
            res.1@ == StopActionView::Perform(EffectView::ListTempDir),
    {
        let run = SweepStop {
            task_name: String::from_str(task_name),
            base,
            dirs: Vec::new(),
            current: 0,
            found: 0,
            failures: 0,
            stage: SweepStage::ListDirs,
        };
        assert(run.dirs.deep_view() =~= Seq::<Seq<char>>::empty());
        (run, StopAction::Perform(Effect::ListTempDir))
    }

    fn advance(&mut self) -> (action: StopAction)
        requires
            old(self).current < old(self).dirs.len(),
        ensures
            (final(self)@, action@) == old(self)@.advance(),
    {
        if self.current + 1 < self.dirs.len() {
            self.current = self.current + 1;
            self.stage = SweepStage::CheckPidFile;
            StopAction::Perform(Effect::PidFileExists { dir: self.dirs[self.current].clone() })
        } else {
            self.stage = SweepStage::Finished;
            if self.found == 0 {
                StopAction::Finish(Err(ManagerError::NoRunningProcesses { task_name: self.task_name.clone() }))
            } else if self.failures > 0 {
                StopAction::Finish(Err(ManagerError::SomeStopsFailed { failures: self.failures }))
            } else {
                StopAction::Finish(Ok(()))
            }
        }
    }

    /// Takes the caller's reply to the last effect and gives the next step.
    pub fn resume(&mut self, reply: Reply) -> (action: StopAction)
        requires
            old(self)@.well_formed(),
            !(old(self).stage is Finished),
        ensures
            (final(self)@, action@) == sweep_next(old(self)@, reply@),
            final(self)@.well_formed(),
    {
        match self.stage {
            SweepStage::ListDirs => {
                match reply {
                    Reply::Listing(entries) => {
                        let dirs = select_task_dirs(self.base.as_str(), &entries);
                        if dirs.len() == 0 {
                            self.stage = SweepStage::Finished;
                            StopAction::Finish(
                                Err(ManagerError::NoRunningProcesses { task_name: self.task_name.clone() }),
                            )
                        } else {
                            let first = dirs[0].clone();
                            self.dirs = dirs;
                            self.current = 0;
                            self.stage = SweepStage::CheckPidFile;
                            StopAction::Perform(Effect::PidFileExists { dir: first })
                        }
                    },
                    other => {
                        self.stage = SweepStage::Finished;
                        StopAction::Finish(Err(ManagerError::ListingFailed { reason: take_reason(other) }))
                    },
                }
            },
            SweepStage::CheckPidFile => {
                if reply_present(&reply) {
                    let n = self.dirs.len();
                    assert(self.dirs.deep_view().len() == self.dirs@.len());
                    assert(self.found < n);
                    self.found = self.found + 1;
                    self.stage = SweepStage::ReadPid;
                    StopAction::Perform(Effect::ReadPidFile { dir: self.dirs[self.current].clone() })
                } else {
                    self.advance()
                }
            },
            SweepStage::ReadPid => {
                match reply_pid(&reply) {
                    Some(pid) => {
                        self.stage = SweepStage::Kill { pid };
                        StopAction::Perform(Effect::Kill { pid })
                    },
                    None => {
                        let n = self.dirs.len();
                        assert(self.dirs.deep_view().len() == self.dirs@.len());
                        assert(self.failures < n);
                        self.failures = self.failures + 1;
                        self.stage = SweepStage::RemoveDir;
                        StopAction::Perform(Effect::RemoveDir { dir: self.dirs[self.current].clone() })
                    },
                }
            },
            SweepStage::Kill { pid } => {
                if reply_done(&reply) {
                    self.stage = SweepStage::RemoveDir;
                    StopAction::Perform(Effect::RemoveDir { dir: self.dirs[self.current].clone() })
                } else {
                    let n = self.dirs.len();
                    assert(self.dirs.deep_view().len() == self.dirs@.len());
                    assert(self.failures < n);
                    self.failures = self.failures + 1;
                    self.stage = SweepStage::RemoveDir;
                    StopAction::Perform(Effect::RemoveDir { dir: self.dirs[self.current].clone() })
                }
            },
            SweepStage::RemoveDir => self.advance(),
            SweepStage::Finished => vstd::pervasive::unreached(),
        }
    }
}

/// A procedure that stops workers: one instance, or every instance of a
/// task.
#[derive(Debug, Clone)]
pub enum StopRun {
    Instance(InstanceStop),
    Sweep(SweepStop),
}

/// [`StopRun`] with its texts as character sequences.
pub enum StopState {
    Instance(InstanceState),
    Sweep(SweepState),
}

impl View for StopRun {
    type V = StopState;

    open spec fn view(&self) -> StopState {
        match self {
            StopRun::Instance(run) => StopState::Instance(run@),
            StopRun::Sweep(run) => StopState::Sweep(run@),
        }
    }
}

impl StopState {
    /// The procedure's state is consistent.
    pub open spec fn well_formed(self) -> bool {
        match self {
            StopState::Instance(_) => true,
            StopState::Sweep(s) => s.well_formed(),
        }
    }

    /// The procedure has ended.
    pub open spec fn is_finished(self) -> bool {
        match self {
            StopState::Instance(s) => s.stage is Finished,
            StopState::Sweep(s) => s.stage is Finished,
        }
    }
}

/// How a stop procedure answers a reply.
pub open spec fn stop_next(s: StopState, r: ReplyView) -> (StopState, StopActionView) {
    match s {
        StopState::Instance(i) => {
            let (next, action) = instance_next(i, r);
            (StopState::Instance(next), action)
        },
        StopState::Sweep(w) => {
            let (next, action) = sweep_next(w, r);
            (StopState::Sweep(next), action)
        },
    }
}

impl StopRun {
    /// Whether the procedure has ended.
    pub fn is_finished(&self) -> (res: bool)
        ensures
            res == self@.is_finished(),
    {
        match self {
            StopRun::Instance(run) => match run.stage {
                InstanceStage::Finished => true,
                _ => false,
            },
            StopRun::Sweep(run) => match run.stage {
                SweepStage::Finished => true,
                _ => false,
            },
        }
    }

    /// Takes the caller's reply to the last effect and gives the next step.
    pub fn resume(&mut self, reply: Reply) -> (action: StopAction)
        requires
            old(self)@.well_formed(),
            !old(self)@.is_finished(),
        ensures
            (final(self)@, action@) == stop_next(old(self)@, reply@),
            final(self)@.well_formed(),
    {
        match self {
            StopRun::Instance(run) => run.resume(reply),
            StopRun::Sweep(run) => run.resume(reply),
        }
    }
}

/// The state the stop of an instance reaches and the steps it gives when its
/// effects are answered by `replies` in turn (it stops at its end).
pub open spec fn instance_trace(s: InstanceState, replies: Seq<ReplyView>) -> (InstanceState, Seq<StopActionView>)
    decreases replies.len(),
{
    if replies.len() == 0 || s.stage is Finished {
        (s, Seq::empty())
    } else {
        let (next, action) = instance_next(s, replies[0]);
        let (last, rest) = instance_trace(next, replies.drop_first());
        (last, seq![action] + rest)
    }
}

/// How far the stop of an instance has come.
pub open spec fn instance_rank(stage: InstanceStage) -> nat {
    match stage {
        InstanceStage::CheckDir => 0,
        InstanceStage::ReadPid => 1,
        InstanceStage::Kill { .. } => 2,
        InstanceStage::RemoveDir => 3,
        InstanceStage::Finished => 4,
    }
}

/// The stop of an instance ends after at most four replies, whatever they
/// are.
pub proof fn lemma_instance_stop_ends(s: InstanceState, replies: Seq<ReplyView>)
    requires
        replies.len() + instance_rank(s.stage) >= 4,
    ensures
        instance_trace(s, replies).0.stage is Finished,
        instance_trace(s, replies).1.len() <= 4 - instance_rank(s.stage),
    decreases replies.len(),
{
    if !(s.stage is Finished) {
        let (next, action) = instance_next(s, replies[0]);
        assert(instance_rank(next.stage) > instance_rank(s.stage));
        lemma_instance_stop_ends(next, replies.drop_first());
    }
}

/// The stop of an instance succeeds only when its directory existed, its
/// pid file named a process, the signal to that process was delivered, and
/// the directory was then removed.
pub proof fn lemma_instance_stop_success(s: InstanceState, replies: Seq<ReplyView>)
    requires
        s.stage is CheckDir,
        s.failure is None,
        instance_trace(s, replies).1.len() > 0,
        instance_trace(s, replies).1.last() == StopActionView::Finish(Ok(())),
    ensures
        instance_trace(s, replies).1.len() == 4,
        answers_present(replies[0]),
        pid_in_reply(replies[1]) is Some,
        instance_trace(s, replies).1[1] == StopActionView::Perform(
            EffectView::Kill { pid: pid_in_reply(replies[1])->0 },
        ),
        replies[2] is Done,
        instance_trace(s, replies).1[2] == StopActionView::Perform(EffectView::RemoveDir { dir: s.dir }),
{
    reveal_with_fuel(instance_trace, 5);
}

/// Once the instance's directory is found, the stop of the instance removes
/// it before it ends, whether or not its pid file named a process and
/// whether or not the signal was delivered.
pub proof fn lemma_instance_stop_cleans_up(s: InstanceState, replies: Seq<ReplyView>)
    requires
        s.stage is CheckDir,
        answers_present(replies[0]),
        instance_trace(s, replies).0.stage is Finished,
    ensures
        instance_trace(s, replies).1.contains(StopActionView::Perform(EffectView::RemoveDir { dir: s.dir })),
{
    reveal_with_fuel(instance_trace, 5);
    let t = instance_trace(s, replies).1;
    let remove = StopActionView::Perform(EffectView::RemoveDir { dir: s.dir });
    if t.len() > 1 && t[1] == remove {
        assert(t.contains(remove));
    } else if t.len() > 2 && t[2] == remove {
        assert(t.contains(remove));
    }
}

/// The state the stop of every instance reaches and the steps it gives when
/// its effects are answered by `replies` in turn (it stops at its end).
pub open spec fn sweep_trace(s: SweepState, replies: Seq<ReplyView>) -> (SweepState, Seq<StopActionView>)
    decreases replies.len(),
{
    if replies.len() == 0 || s.stage is Finished {
        (s, Seq::empty())
    } else {
        let (next, action) = sweep_next(s, replies[0]);
        let (last, rest) = sweep_trace(next, replies.drop_first());
        (last, seq![action] + rest)
    }
}

/// A step of a sweep that fails to stop the worker it visits: its pid file
/// does not name a process, or the signal was not delivered.
pub open spec fn sweep_step_fails(s: SweepState, r: ReplyView) -> bool {
    ||| (s.stage is ReadPid && pid_in_reply(r) is None)
    ||| (s.stage is Kill && !(r is Done))
}

/// Some step of a sweep answered by `replies` fails.
pub open spec fn sweep_trace_fails(s: SweepState, replies: Seq<ReplyView>) -> bool
    decreases replies.len(),
{
    if replies.len() == 0 || s.stage is Finished {
        false
    } else {
        sweep_step_fails(s, replies[0]) || sweep_trace_fails(sweep_next(s, replies[0]).0, replies.drop_first())
    }
}

/// The replies a sweep may still need once its directories are listed: four
/// for each directory not yet visited, and those left for the current one.
pub open spec fn sweep_budget(s: SweepState) -> int {
    let left_here = match s.stage {
        SweepStage::CheckPidFile => 4int,
        SweepStage::ReadPid => 3int,
        SweepStage::Kill { .. } => 2int,
        SweepStage::RemoveDir => 1int,
        _ => 0int,
    };
    4 * (s.dirs.len() - s.current - 1) + left_here
}

/// A sweep whose directories are listed ends after at most four replies per
/// directory still to visit, whatever the replies are.
pub proof fn lemma_sweep_ends(s: SweepState, replies: Seq<ReplyView>)
    requires
        s.well_formed(),
        !(s.stage is ListDirs),
        replies.len() >= sweep_budget(s),
    ensures
        sweep_trace(s, replies).0.stage is Finished,
    decreases replies.len(),
{
    if !(s.stage is Finished) {
        let (next, action) = sweep_next(s, replies[0]);
        if !(next.stage is Finished) {
            assert(sweep_budget(next) < sweep_budget(s));
            assert(next.well_formed());
        }
        lemma_sweep_ends(next, replies.drop_first());
    }
}

/// A sweep ends, whatever the replies, once the temporary directory is
/// listed and four replies are given for each directory of the task.
pub proof fn lemma_sweep_ends_after_listing(s: SweepState, entries: Seq<DirEntryView>, replies: Seq<ReplyView>)
    requires
        s.well_formed(),
        s.stage is ListDirs,
        replies.len() >= 1 + 4 * matching_dirs(s.base, entries).len(),
        replies[0] == ReplyView::Listing(entries),
    ensures
        sweep_trace(s, replies).0.stage is Finished,
{
    let (next, action) = sweep_next(s, replies[0]);
    assert(sweep_trace(s, replies).0 == sweep_trace(next, replies.drop_first()).0);
    if !(next.stage is Finished) {
        assert(next.dirs == matching_dirs(s.base, entries));
        assert(next.well_formed());
        assert(sweep_budget(next) == 4 * matching_dirs(s.base, entries).len());
        lemma_sweep_ends(next, replies.drop_first());
    }
}

/// Failing steps are counted: a sweep ends with more failures than it
/// started with exactly when one of its steps fails.
pub proof fn lemma_sweep_counts_failures(s: SweepState, replies: Seq<ReplyView>)
    ensures
        sweep_trace_fails(s, replies) ==> sweep_trace(s, replies).0.failures > s.failures,
        !sweep_trace_fails(s, replies) ==> sweep_trace(s, replies).0.failures == s.failures,
    decreases replies.len(),
{
    if replies.len() > 0 && !(s.stage is Finished) {
        let (next, action) = sweep_next(s, replies[0]);
        lemma_sweep_counts_failures(next, replies.drop_first());
    }
}

proof fn lemma_sweep_trace_len(s: SweepState, replies: Seq<ReplyView>)
    ensures
        sweep_trace(s, replies).1.len() <= replies.len(),
        sweep_trace(s, replies).1.len() > 0 && !(sweep_trace(s, replies).1.last() is Perform) ==> sweep_trace(
            s,
            replies,
        ).0.stage is Finished,
        sweep_trace(s, replies).1.len() > 0 && sweep_trace(s, replies).1.last() == StopActionView::Finish(
            Ok(()),
        ) ==> sweep_trace(s, replies).0.failures == 0 && sweep_trace(s, replies).0.found > 0,
    decreases replies.len(),
{
    if replies.len() > 0 && !(s.stage is Finished) {
        let (next, action) = sweep_next(s, replies[0]);
        lemma_sweep_trace_len(next, replies.drop_first());
        let rest = sweep_trace(next, replies.drop_first()).1;
        if rest.len() == 0 {
            assert(sweep_trace(s, replies).1 =~= seq![action]);
        } else {
            assert(sweep_trace(s, replies).1.last() == rest.last());
        }
    }
}

/// A sweep that ends successfully found at least one pid file, and stopped
/// every worker it visited: no pid file it read failed to name a process,
/// and every signal was delivered.
pub proof fn lemma_sweep_success_means_no_failure(s: SweepState, replies: Seq<ReplyView>)
    requires
        s.failures == 0,
        sweep_trace(s, replies).1.len() > 0,
        sweep_trace(s, replies).1.last() == StopActionView::Finish(Ok(())),
    ensures
        !sweep_trace_fails(s, replies),
        sweep_trace(s, replies).0.found > 0,
{
    lemma_sweep_trace_len(s, replies);
    lemma_sweep_counts_failures(s, replies);
}

/// A sweep that has reached its end asked about the pid file of every
/// directory after the current one.
proof fn lemma_sweep_visits_rest(s: SweepState, replies: Seq<ReplyView>)
    requires
        s.well_formed(),
        !(s.stage is ListDirs),
        !(s.stage is Finished),
        sweep_trace(s, replies).0.stage is Finished,
    ensures
        forall|j: int|
            s.current < j < s.dirs.len() ==> sweep_trace(s, replies).1.contains(
                StopActionView::Perform(EffectView::PidFileExists { dir: #[trigger] s.dirs[j] }),
            ),
    decreases replies.len(),
{
    let (next, action) = sweep_next(s, replies[0]);
    let t = sweep_trace(s, replies).1;
    let rest = sweep_trace(next, replies.drop_first()).1;
    assert(t == seq![action] + rest);
    if !(next.stage is Finished) {
        lemma_sweep_visits_rest(next, replies.drop_first());
        assert forall|j: int| s.current < j < s.dirs.len() implies t.contains(
            StopActionView::Perform(EffectView::PidFileExists { dir: #[trigger] s.dirs[j] }),
        ) by {
            if next.current == s.current + 1 && j == next.current {
                assert(t[0] == action);
            } else {
                let k = choose|k: int| 0 <= k < rest.len() && rest[k] == StopActionView::Perform(
                    EffectView::PidFileExists { dir: next.dirs[j] });
                assert(t[k + 1] == rest[k]);
            }
        }
    }
}

/// A sweep that reaches its end asks about the pid file of every directory
/// of the task in the listing, in listing order: every worker of the task
/// found there is visited.
pub proof fn lemma_sweep_visits_every_task_dir(s: SweepState, entries: Seq<DirEntryView>, replies: Seq<ReplyView>)
    requires
        s.well_formed(),
        s.stage is ListDirs,
        replies.len() > 0,
        replies[0] == ReplyView::Listing(entries),
        sweep_trace(s, replies).0.stage is Finished,
    ensures
        forall|j: int|
            0 <= j < matching_dirs(s.base, entries).len() ==> sweep_trace(s, replies).1.contains(
                StopActionView::Perform(
                    EffectView::PidFileExists { dir: #[trigger] matching_dirs(s.base, entries)[j] },
                ),
            ),
{
    let dirs = matching_dirs(s.base, entries);
    let (next, action) = sweep_next(s, replies[0]);
    let t = sweep_trace(s, replies).1;
    let rest = sweep_trace(next, replies.drop_first()).1;
    assert(t == seq![action] + rest);
    if dirs.len() > 0 {
        assert(t[0] == action);
        if !(next.stage is Finished) {
            lemma_sweep_visits_rest(next, replies.drop_first());
            assert forall|j: int| 0 <= j < dirs.len() implies t.contains(
                StopActionView::Perform(EffectView::PidFileExists { dir: #[trigger] dirs[j] }),
            ) by {
                if j > 0 {
                    let k = choose|k: int| 0 <= k < rest.len() && rest[k] == StopActionView::Perform(
                        EffectView::PidFileExists { dir: next.dirs[j] });
                    assert(t[k + 1] == rest[k]);
                }
            }
        }
    }
}

/// A directory entry that belongs to the task is among the directories the
/// sweep visits.
pub proof fn lemma_matching_dirs_contains(base: Seq<char>, entries: Seq<DirEntryView>, k: int)
    requires
        0 <= k < entries.len(),
        is_task_dir(base, entries[k]),
    ensures
        matching_dirs(base, entries).contains(entries[k].name),
    decreases entries.len(),
{
    let rest = matching_dirs(base, entries.drop_last());
    if k == entries.len() - 1 {
        assert(matching_dirs(base, entries).last() == entries[k].name);
    } else {
        assert(entries.drop_last()[k] == entries[k]);
        lemma_matching_dirs_contains(base, entries.drop_last(), k);
        let i = choose|i: int| 0 <= i < rest.len() && rest[i] == entries[k].name;
        assert(matching_dirs(base, entries)[i] == rest[i]);
    }
}

/// In a sweep, once a directory's pid file is found, the directory is removed
/// before the sweep moves on: whether or not the pid file names a process,
/// and whether or not the signal is delivered.
pub proof fn lemma_sweep_cleans_up(s: SweepState, r1: ReplyView, r2: ReplyView, r3: ReplyView)
    requires
        s.well_formed(),
        s.stage is CheckPidFile,
        answers_present(r1),
    ensures
        sweep_trace(s, seq![r1, r2, r3]).1.contains(
            StopActionView::Perform(EffectView::RemoveDir { dir: s.current_dir() }),
        ),
{
    reveal_with_fuel(sweep_trace, 4);
    let replies = seq![r1, r2, r3];
    let t = sweep_trace(s, replies).1;
    let remove = StopActionView::Perform(EffectView::RemoveDir { dir: s.current_dir() });
    assert(replies.drop_first() =~= seq![r2, r3]);
    assert(replies.drop_first().drop_first() =~= seq![r3]);
    assert(seq![r3].drop_first() =~= Seq::<ReplyView>::empty());
    if pid_in_reply(r2) is None {
        assert(t[1] == remove);
    } else {
        assert(t[2] == remove);
    }
}

/// A sweep that visits directories none of which holds a pid file ends with
/// "no running processes".
pub proof fn lemma_sweep_without_pid_files(s: SweepState, replies: Seq<ReplyView>)
    requires
        s.well_formed(),
        s.found == 0,
        !(s.stage is ListDirs),
        sweep_trace(s, replies).0.stage is Finished,
        forall|i: int| 0 <= i < replies.len() ==> !answers_present(#[trigger] replies[i]),
    ensures
        s.stage is CheckPidFile ==> sweep_trace(s, replies).1.last() == StopActionView::Finish(
            Err(ErrorView::NoRunningProcesses { task_name: s.task_name }),
        ),
    decreases replies.len(),
{
    if s.stage is CheckPidFile {
        let (next, action) = sweep_next(s, replies[0]);
        let rest = sweep_trace(next, replies.drop_first());
        if next.stage is Finished {
            assert(sweep_trace(s, replies).1 =~= seq![action]);
        } else {
            assert forall|i: int| 0 <= i < replies.drop_first().len() implies !answers_present(
                #[trigger] replies.drop_first()[i],
            ) by {
                assert(replies.drop_first()[i] == replies[i + 1]);
            }
            lemma_sweep_without_pid_files(next, replies.drop_first());
            lemma_sweep_trace_len(next, replies.drop_first());
            assert(rest.1.len() > 0);
            assert(sweep_trace(s, replies).1.last() == rest.1.last());
        }
    }
}

/// A sweep visits only instance directories of its own task: every
/// directory it picks from a listing is named by the task's base name, a
/// hyphen and twelve base-36 digits (so, by `lemma_other_task_names_differ`,
/// never an instance directory of a task with another base name).
pub proof fn lemma_matching_dirs_only_task_dirs(base: Seq<char>, entries: Seq<DirEntryView>)
    ensures
        forall|j: int|
            0 <= j < matching_dirs(base, entries).len() ==> is_instance_name(
                base,
                #[trigger] matching_dirs(base, entries)[j],
            ),
    decreases entries.len(),
{
    if entries.len() > 0 {
        lemma_matching_dirs_only_task_dirs(base, entries.drop_last());
        let rest = matching_dirs(base, entries.drop_last());
        assert forall|j: int| 0 <= j < matching_dirs(base, entries).len() implies is_instance_name(
            base,
            #[trigger] matching_dirs(base, entries)[j],
        ) by {
            if j < rest.len() {
                assert(matching_dirs(base, entries)[j] == rest[j]);
            }
        }
    }
}

/// `a` asks to read a pid file.
pub open spec fn is_pid_read(a: StopActionView) -> bool {
    a matches StopActionView::Perform(EffectView::ReadPidFile { .. })
}

/// Whether the step a sweep takes from `s` enters the visit of a directory,
/// and then the question it asks names that directory.
proof fn lemma_sweep_entry_names_dir(s: SweepState, r: ReplyView)
    requires
        s.well_formed(),
        !(s.stage is Finished),
        sweep_next(s, r).0.stage is CheckPidFile,
    ensures
        sweep_next(s, r).1 == StopActionView::Perform(
            EffectView::PidFileExists { dir: sweep_next(s, r).0.dirs[sweep_next(s, r).0.current as int] },
        ),
{
}

proof fn lemma_sweep_reads_visited_dir(s: SweepState, replies: Seq<ReplyView>, k: int)
    requires
        s.well_formed(),
        !(s.stage is Finished),
        0 <= k < sweep_trace(s, replies).1.len(),
        sweep_trace(s, replies).1[k] matches StopActionView::Perform(EffectView::ReadPidFile { .. }),
    ensures
        k == 0 ==> s.stage is CheckPidFile && sweep_trace(s, replies).1[k] == StopActionView::Perform(
            EffectView::ReadPidFile { dir: s.dirs[s.current as int] },
        ),
        k > 0 ==> (sweep_trace(s, replies).1[k - 1] matches StopActionView::Perform(
            EffectView::PidFileExists { dir },
        ) && sweep_trace(s, replies).1[k] == StopActionView::Perform(EffectView::ReadPidFile { dir })),
    decreases k,
{
    let (next, action) = sweep_next(s, replies[0]);
    let t = sweep_trace(s, replies).1;
    let rest = sweep_trace(next, replies.drop_first()).1;
    assert(t == seq![action] + rest);
    if k > 0 {
        assert(t[k] == rest[k - 1]);
        assert(next.well_formed());
        lemma_sweep_reads_visited_dir(next, replies.drop_first(), k - 1);
        if k == 1 {
            lemma_sweep_entry_names_dir(s, replies[0]);
            assert(t[0] == action);
        } else {
            assert(t[k - 1] == rest[k - 2]);
        }
    } else {
        assert(t[0] == action);
    }
}

/// In a sweep, the pid file read while visiting a directory is that
/// directory's own: every `ReadPidFile` asks for the directory whose
/// `PidFileExists` was asked just before it, and the first directory visited
/// is the first of the task's directories in the listing.
pub proof fn lemma_sweep_reads_own_pid_file(s: SweepState, replies: Seq<ReplyView>, k: int)
    requires
        s.well_formed(),
        s.stage is ListDirs,
        0 <= k < sweep_trace(s, replies).1.len(),
        sweep_trace(s, replies).1[k] matches StopActionView::Perform(EffectView::ReadPidFile { .. }),
    ensures
        k > 0,
        sweep_trace(s, replies).1[k - 1] matches StopActionView::Perform(EffectView::PidFileExists { dir })
            && sweep_trace(s, replies).1[k] == StopActionView::Perform(EffectView::ReadPidFile { dir }),
{
    lemma_sweep_reads_visited_dir(s, replies, k);
}

proof fn lemma_sweep_kill_follows_read(s: SweepState, replies: Seq<ReplyView>, k: int)
    requires
        s.well_formed(),
        !(s.stage is Finished),
        0 <= k < sweep_trace(s, replies).1.len(),
        sweep_trace(s, replies).1[k] matches StopActionView::Perform(EffectView::Kill { .. }),
    ensures
        k == 0 ==> s.stage is ReadPid,
        k > 0 ==> is_pid_read(sweep_trace(s, replies).1[k - 1]),
        sweep_trace(s, replies).1[k] == StopActionView::Perform(
            EffectView::Kill { pid: pid_in_reply(replies[k])->0 },
        ),
        pid_in_reply(replies[k]) is Some,
    decreases k,
{
    lemma_sweep_trace_len(s, replies);
    let (next, action) = sweep_next(s, replies[0]);
    let t = sweep_trace(s, replies).1;
    let rest = sweep_trace(next, replies.drop_first()).1;
    assert(t == seq![action] + rest);
    if k > 0 {
        assert(t[k] == rest[k - 1]);
        assert(next.well_formed());
        lemma_sweep_kill_follows_read(next, replies.drop_first(), k - 1);
        assert(replies.drop_first()[k - 1] == replies[k]);
        if k == 1 {
            assert(t[0] == action);
        } else {
            assert(t[k - 1] == rest[k - 2]);
        }
    } else {
        assert(t[0] == action);
    }
}

/// In a sweep, every signal goes to the process named by the pid file just
/// read: a `Kill` comes right after a `ReadPidFile`, and its pid is the one
/// the reply to that read gave.
pub proof fn lemma_sweep_kills_pid_read(s: SweepState, replies: Seq<ReplyView>, k: int)
    requires
        s.well_formed(),
        s.stage is ListDirs,
        0 <= k < sweep_trace(s, replies).1.len(),
        sweep_trace(s, replies).1[k] matches StopActionView::Perform(EffectView::Kill { .. }),
    ensures
        k > 0,
        is_pid_read(sweep_trace(s, replies).1[k - 1]),
        pid_in_reply(replies[k]) is Some,
        sweep_trace(s, replies).1[k] == StopActionView::Perform(
            EffectView::Kill { pid: pid_in_reply(replies[k])->0 },
        ),
{
    lemma_sweep_kill_follows_read(s, replies, k);
}

proof fn lemma_sweep_found_counts_reads(s: SweepState, replies: Seq<ReplyView>)
    requires
        s.well_formed(),
    ensures
        sweep_trace(s, replies).0.found >= s.found,
        (exists|k: int|
            0 <= k < sweep_trace(s, replies).1.len() && is_pid_read(#[trigger] sweep_trace(s, replies).1[k])) ==> sweep_trace(s, replies).0.found
            > 0,
        sweep_trace(s, replies).0.well_formed(),
    decreases replies.len(),
{
    if replies.len() > 0 && !(s.stage is Finished) {
        let (next, action) = sweep_next(s, replies[0]);
        let t = sweep_trace(s, replies).1;
        let rest = sweep_trace(next, replies.drop_first()).1;
        assert(t == seq![action] + rest);
        lemma_sweep_found_counts_reads(next, replies.drop_first());
        if exists|k: int| 0 <= k < t.len() && is_pid_read(#[trigger] t[k]) {
            let k = choose|k: int| 0 <= k < t.len() && is_pid_read(#[trigger] t[k]);
            if k > 0 {
                assert(rest[k - 1] == t[k]);
            } else {
                assert(t[0] == action);
            }
        }
    }
}

proof fn lemma_sweep_finish_is_outcome(s: SweepState, replies: Seq<ReplyView>)
    requires
        s.well_formed(),
        !(s.stage is ListDirs),
        sweep_trace(s, replies).1.len() > 0,
        sweep_trace(s, replies).1.last() is Finish,
    ensures
        sweep_trace(s, replies).1.last() == StopActionView::Finish(sweep_trace(s, replies).0.outcome()),
    decreases replies.len(),
{
    let (next, action) = sweep_next(s, replies[0]);
    let rest = sweep_trace(next, replies.drop_first());
    if rest.1.len() == 0 {
        assert(sweep_trace(s, replies).1 =~= seq![action]);
    } else {
        assert(sweep_trace(s, replies).1.last() == rest.1.last());
        lemma_sweep_finish_is_outcome(next, replies.drop_first());
    }
}

/// A sweep that found a pid file and in which no step failed ends with
/// success: when every pid file read named a process and every signal was
/// delivered, the stop of all workers reports `Ok(())`.
pub proof fn lemma_sweep_without_failure_succeeds(s: SweepState, replies: Seq<ReplyView>)
    requires
        s.well_formed(),
        s.stage is ListDirs,
        sweep_trace(s, replies).1.len() > 0,
        sweep_trace(s, replies).1.last() is Finish,
        !sweep_trace_fails(s, replies),
        exists|k: int|
            0 <= k < sweep_trace(s, replies).1.len() && is_pid_read(#[trigger] sweep_trace(s, replies).1[k]),
    ensures
        sweep_trace(s, replies).1.last() == StopActionView::Finish(Ok(())),
{
    let (next, action) = sweep_next(s, replies[0]);
    let t = sweep_trace(s, replies).1;
    let rest = sweep_trace(next, replies.drop_first());
    assert(t == seq![action] + rest.1);
    lemma_sweep_found_counts_reads(s, replies);
    lemma_sweep_counts_failures(s, replies);
    if rest.1.len() == 0 {
        assert(t =~= seq![action]);
        let k = choose|k: int| 0 <= k < t.len() && is_pid_read(#[trigger] t[k]);
        assert(t[0] == action);
    } else {
        assert(t.last() == rest.1.last());
        assert(next.well_formed());
        assert(!(next.stage is ListDirs));
        lemma_sweep_finish_is_outcome(next, replies.drop_first());
        assert(sweep_trace(s, replies).0 == rest.0);
    }
}

} // verus!
