//! Starting a background worker: create the instance's directory, refuse to
//! start when a pid file shows the instance running, spawn the executable
//! again with the task's trigger variable set, and record the child's pid.

use vstd::prelude::*;
use crate::control::{answers_present, reason_of, reply_done, reply_present, take_reason, Effect,
    EffectView, Reply, ReplyView};
use crate::error::{ErrorView, ManagerError};
use crate::pid::{pid_file_text, render_pid};

verus! {

/// Where a start procedure stands.
#[derive(Debug, Clone, Copy, PartialEq, Eq)]
pub enum StartStage {
    /// Waiting for the instance directory to be created.
    MakeDir,
    /// Waiting to learn whether a pid file exists.
    CheckPid,
    /// Waiting for the path of the executable.
    FindExe,
    /// Waiting for the logs to be opened.
    OpenLogs,
    /// Waiting for the child to be spawned.
    Spawn,
    /// Waiting for the pid file of child `pid` to be created.
    CreatePidFile { pid: u32 },
    /// Waiting for the pid of child `pid` to be written.
    WritePid { pid: u32 },
    /// The procedure has ended.
    Finished,
}

/// A procedure that starts the worker instance whose directory is `dir`.
#[derive(Debug, Clone)]
pub struct StartRun {
    /// The task name as requested.
    pub task_name: String,
    /// The environment variable that triggers the task.
    pub env_var: &'static str,
    /// The instance's directory.
    pub dir: String,
    /// Further variables for the child's environment.
    pub extra_env: Vec<(String, String)>,
    /// Where the procedure stands.
    pub stage: StartStage,
}

/// [`StartRun`] with its texts as character sequences.
pub struct StartState {
    pub task_name: Seq<char>,
    pub env_var: Seq<char>,
    pub dir: Seq<char>,
    pub extra_env: Seq<(Seq<char>, Seq<char>)>,
    pub stage: StartStage,
}

impl View for StartRun {
    type V = StartState;

    open spec fn view(&self) -> StartState {
        StartState {
            task_name: self.task_name@,
            env_var: self.env_var@,
            dir: self.dir@,
            extra_env: self.extra_env.deep_view(),
            stage: self.stage,
        }
    }
}

/// The next step of a start procedure: an effect to perform, or its end with
/// the pid of the started child or an error.
#[derive(Debug, PartialEq, Eq)]
pub enum StartAction {
    Perform(Effect),
    Finish(Result<u32, ManagerError>),
}

/// [`StartAction`] with its texts as character sequences.
pub enum StartActionView {
    Perform(EffectView),
    Finish(Result<u32, ErrorView>),
}

impl View for StartAction {
    type V = StartActionView;

    open spec fn view(&self) -> StartActionView {
        match self {
            StartAction::Perform(e) => StartActionView::Perform(e@),
            StartAction::Finish(Ok(pid)) => StartActionView::Finish(Ok(*pid)),
            StartAction::Finish(Err(e)) => StartActionView::Finish(Err(e@)),
        }
    }
}

impl StartState {
    /// The same procedure at another stage.
    pub open spec fn at(self, stage: StartStage) -> StartState {
        StartState { stage, ..self }
    }

    /// The child's added environment: the trigger variable set to the task
    /// name, then the further variables in order.
    pub open spec fn child_env(self) -> Seq<(Seq<char>, Seq<char>)> {
        seq![(self.env_var, self.task_name)] + self.extra_env
    }

    /// Ends the procedure with an error.
    pub open spec fn fail(self, e: ErrorView) -> (StartState, StartActionView) {
        (self.at(StartStage::Finished), StartActionView::Finish(Err(e)))
    }

    /// Moves to `stage` and asks for `effect`.
    pub open spec fn ask(self, stage: StartStage, effect: EffectView) -> (
        StartState,
        StartActionView,
    ) {
        (self.at(stage), StartActionView::Perform(effect))
    }
}

/// How a start procedure answers a reply.
pub open spec fn start_next(s: StartState, r: ReplyView) -> (StartState, StartActionView) {
    match s.stage {
        StartStage::MakeDir => if r is Done {
            s.ask(StartStage::CheckPid, EffectView::PidFileExists { dir: s.dir })
        } else {
            s.fail(ErrorView::DirectoryFailed { task_name: s.task_name, reason: reason_of(r) })
        },
        StartStage::CheckPid => if answers_present(r) {
            s.fail(ErrorView::AlreadyRunning { dir: s.dir })
        } else {
            s.ask(StartStage::FindExe, EffectView::FindExecutable)
        },
        StartStage::FindExe => if r is Done {
            s.ask(StartStage::OpenLogs, EffectView::OpenLogs { dir: s.dir })
        } else {
            s.fail(ErrorView::ExecutableUnknown { reason: reason_of(r) })
        },
        StartStage::OpenLogs => if r is Done {
            s.ask(StartStage::Spawn, EffectView::Spawn { env: s.child_env() })
        } else {
            s.fail(ErrorView::LogFilesFailed)
        },
        StartStage::Spawn => match r {
            ReplyView::Spawned(pid) => s.ask(
                StartStage::CreatePidFile { pid },
                EffectView::CreatePidFile { dir: s.dir },
            ),
            _ => s.fail(ErrorView::SpawnFailed { reason: reason_of(r) }),
        },
        StartStage::CreatePidFile { pid } => if r is Done {
            s.ask(StartStage::WritePid { pid }, EffectView::WritePid { text: pid_file_text(pid) })
        } else {
            s.fail(ErrorView::PidFileFailed { reason: reason_of(r) })
        },
        StartStage::WritePid { pid } => if r is Done {
            (s.at(StartStage::Finished), StartActionView::Finish(Ok(pid)))
        } else {
            s.fail(ErrorView::PidWriteFailed { reason: reason_of(r) })
        },
        StartStage::Finished => (s, arbitrary()),
    }
}

/// Copies a list of variable assignments.
fn clone_pairs(v: &Vec<(String, String)>) -> (res: Vec<(String, String)>)
    ensures
        res.deep_view() == v.deep_view(),
{
    let mut out: Vec<(String, String)> = Vec::new();
    let mut i: usize = 0;
    while i < v.len()
        invariant
            i <= v.len(),
            out.deep_view() =~= v.deep_view().take(i as int),
        decreases v.len() - i,
    {
        let (k, val) = &v[i];
        out.push((k.clone(), val.clone()));
        assert(v.deep_view().take(i + 1) =~= v.deep_view().take(i as int).push(v.deep_view()[i as int]));
        i = i + 1;
    }
    assert(v.deep_view().take(v.len() as int) =~= v.deep_view());
    out
}

impl StartRun {
    /// A start procedure for the instance directory `dir` of the task
    /// triggered by `env_var`, requested under `task_name`, and its first
    /// step: creating the directory.
    pub fn new(task_name: &str, env_var: &'static str, dir: String, extra_env: Vec<(String, String)>) -> (res: (
        StartRun,
        StartAction,
    ))
        ensures
            res.0@ == (StartState {
                task_name: task_name@,
                env_var: env_var@,
                dir: dir@,
                extra_env: extra_env.deep_view(),
                stage: StartStage::MakeDir,
            }),
            res.1@ == StartActionView::Perform(EffectView::MakeDir { dir: dir@ }),
    {
        let first = StartAction::Perform(Effect::MakeDir { dir: dir.clone() });
        (StartRun { task_name: String::from_str(task_name), env_var, dir, extra_env, stage: StartStage::MakeDir }, first)
    }

    /// Whether the procedure has ended.
    pub fn is_finished(&self) -> (res: bool)
        ensures
            res == (self.stage is Finished),
    {
        match self.stage {
            StartStage::Finished => true,
            _ => false,
        }
    }

    fn fail(&mut self, e: ManagerError) -> (action: StartAction)
        ensures
            final(self)@ == old(self)@.at(StartStage::Finished),
            action@ == StartActionView::Finish(Err(e@)),
    {
        self.stage = StartStage::Finished;
        StartAction::Finish(Err(e))
    }

    fn ask(&mut self, stage: StartStage, effect: Effect) -> (action: StartAction)
        ensures
            final(self)@ == old(self)@.at(stage),
            action@ == StartActionView::Perform(effect@),
    {
        self.stage = stage;
        StartAction::Perform(effect)
    }

    /// Takes the caller's reply to the last effect and gives the next step.
    pub fn resume(&mut self, reply: Reply) -> (action: StartAction)
        requires
            !(old(self).stage is Finished),
        ensures
            (final(self)@, action@) == start_next(old(self)@, reply@),
    {
        match self.stage {
            StartStage::MakeDir => {
                if reply_done(&reply) {
                    let dir = self.dir.clone();
                    self.ask(StartStage::CheckPid, Effect::PidFileExists { dir })
                } else {
                    let task_name = self.task_name.clone();
                    self.fail(ManagerError::DirectoryFailed { task_name, reason: take_reason(reply) })
                }
            },
            StartStage::CheckPid => {
                if reply_present(&reply) {
                    let dir = self.dir.clone();
                    self.fail(ManagerError::AlreadyRunning { dir })
                } else {
                    self.ask(StartStage::FindExe, Effect::FindExecutable)
                }
            },
            StartStage::FindExe => {
                if reply_done(&reply) {
                    let dir = self.dir.clone();
                    self.ask(StartStage::OpenLogs, Effect::OpenLogs { dir })
                } else {
                    self.fail(ManagerError::ExecutableUnknown { reason: take_reason(reply) })
                }
            },
            StartStage::OpenLogs => {
                if reply_done(&reply) {
                    let mut env: Vec<(String, String)> = Vec::new();
                    env.push((String::from_str(self.env_var), self.task_name.clone()));
                    let mut rest = clone_pairs(&self.extra_env);
                    let ghost first = env.deep_view();
                    env.append(&mut rest);
                    assert(env.deep_view() =~= self@.child_env());
                    self.ask(StartStage::Spawn, Effect::Spawn { env })
                } else {
                    self.fail(ManagerError::LogFilesFailed)
                }
            },
            StartStage::Spawn => {
                match reply {
                    Reply::Spawned(pid) => {
                        let dir = self.dir.clone();
                        self.ask(StartStage::CreatePidFile { pid }, Effect::CreatePidFile { dir })
                    },
                    other => self.fail(ManagerError::SpawnFailed { reason: take_reason(other) }),
                }
            },
            StartStage::CreatePidFile { pid } => {
                if reply_done(&reply) {
                    self.ask(StartStage::WritePid { pid }, Effect::WritePid { text: render_pid(pid) })
                } else {
                    self.fail(ManagerError::PidFileFailed { reason: take_reason(reply) })
                }
            },
            StartStage::WritePid { pid } => {
                if reply_done(&reply) {
                    self.stage = StartStage::Finished;
                    StartAction::Finish(Ok(pid))
                } else {
                    self.fail(ManagerError::PidWriteFailed { reason: take_reason(reply) })
                }
            },
            StartStage::Finished => vstd::pervasive::unreached(),
        }
    }
}

/// The state a start procedure reaches and the steps it gives when its
/// effects are answered by `replies` in turn (it stops at its end).
pub open spec fn start_trace(s: StartState, replies: Seq<ReplyView>) -> (StartState, Seq<StartActionView>)
    decreases replies.len(),
{
    if replies.len() == 0 || s.stage is Finished {
        (s, Seq::empty())
    } else {
        let (next, action) = start_next(s, replies[0]);
        let (last, rest) = start_trace(next, replies.drop_first());
        (last, seq![action] + rest)
    }
}

/// How far a start procedure has come.
pub open spec fn start_rank(stage: StartStage) -> nat {
    match stage {
        StartStage::MakeDir => 0,
        StartStage::CheckPid => 1,
        StartStage::FindExe => 2,
        StartStage::OpenLogs => 3,
        StartStage::Spawn => 4,
        StartStage::CreatePidFile { .. } => 5,
        StartStage::WritePid { .. } => 6,
        StartStage::Finished => 7,
    }
}

/// A start procedure ends after at most seven replies, whatever they are.
pub proof fn lemma_start_ends(s: StartState, replies: Seq<ReplyView>)
    requires
        replies.len() + start_rank(s.stage) >= 7,
    ensures
        start_trace(s, replies).0.stage is Finished,
        start_trace(s, replies).1.len() <= 7 - start_rank(s.stage),
    decreases replies.len(),
{
    if !(s.stage is Finished) {
        let (next, action) = start_next(s, replies[0]);
        assert(start_rank(next.stage) > start_rank(s.stage));
        lemma_start_ends(next, replies.drop_first());
    }
}

proof fn lemma_start_trace_len(s: StartState, replies: Seq<ReplyView>)
    ensures
        start_trace(s, replies).1.len() <= replies.len(),
    decreases replies.len(),
{
    if replies.len() > 0 && !(s.stage is Finished) {
        lemma_start_trace_len(start_next(s, replies[0]).0, replies.drop_first());
    }
}

proof fn lemma_start_trace_spawn(s: StartState, replies: Seq<ReplyView>, k: int)
    requires
        0 <= k < start_trace(s, replies).1.len(),
        start_trace(s, replies).1[k] matches StartActionView::Perform(EffectView::Spawn { .. }),
    ensures
        start_rank(s.stage) + k == 3,
        start_trace(s, replies).1[k] == StartActionView::Perform(EffectView::Spawn { env: s.child_env() }),
        replies[k] is Done,
        s.stage is MakeDir ==> replies[0] is Done && !answers_present(replies[1]) && replies[2] is Done,
        s.stage is CheckPid ==> !answers_present(replies[0]) && replies[1] is Done,
        s.stage is FindExe ==> replies[0] is Done,
    decreases k,
{
    lemma_start_trace_len(s, replies);
    let (next, action) = start_next(s, replies[0]);
    let t = start_trace(s, replies);
    let rest = start_trace(next, replies.drop_first());
    assert(t.1 == seq![action] + rest.1);
    if k == 0 {
        assert(t.1[0] == action);
    } else {
        assert(t.1[k] == rest.1[k - 1]);
        lemma_start_trace_spawn(next, replies.drop_first(), k - 1);
        lemma_start_trace_len(next, replies.drop_first());
        assert(replies.drop_first()[k - 1] == replies[k]);
        if !(next.stage is Finished) {
            assert(start_rank(next.stage) == start_rank(s.stage) + 1);
        }
        if s.stage is MakeDir {
            assert(replies.drop_first()[0] == replies[1]);
            assert(replies.drop_first()[1] == replies[2]);
        }
        if s.stage is CheckPid {
            assert(replies.drop_first()[0] == replies[1]);
        }
    }
}

/// A start procedure spawns the worker only as its fourth step, once the
/// directory was made, the pid-file check found no pid file and the
/// executable was found, and with the logs opened; the child gets the
/// trigger variable set to the task name, followed by the further variables.
pub proof fn lemma_start_spawns_only_when_not_running(s: StartState, replies: Seq<ReplyView>, k: int)
    requires
        s.stage is MakeDir,
        0 <= k < start_trace(s, replies).1.len(),
        start_trace(s, replies).1[k] matches StartActionView::Perform(EffectView::Spawn { .. }),
    ensures
        k == 3,
        replies[0] is Done,
        !answers_present(replies[1]),
        replies[2] is Done,
        replies[3] is Done,
        start_trace(s, replies).1[k] == StartActionView::Perform(EffectView::Spawn { env: s.child_env() }),
{
    lemma_start_trace_spawn(s, replies, k);
}

/// A start procedure that succeeds reports the pid that the spawn gave, and
/// has had exactly that pid's text written into the pid file.
pub proof fn lemma_start_success_records_pid(s: StartState, replies: Seq<ReplyView>, pid: u32)
    requires
        s.stage is MakeDir,
        start_trace(s, replies).1.len() > 0,
        start_trace(s, replies).1.last() == StartActionView::Finish(Ok(pid)),
    ensures
        start_trace(s, replies).1.len() == 7,
        replies[4] == ReplyView::Spawned(pid),
        start_trace(s, replies).1[5] == StartActionView::Perform(EffectView::WritePid { text: pid_file_text(pid) }),
        replies[5] is Done,
        replies[6] is Done,
{
    reveal_with_fuel(start_trace, 8);
}

/// The child's environment is the trigger variable set to the requested task
/// name, followed by every further variable, in the order given: the spawn a
/// start procedure asks for carries exactly these pairs.
pub proof fn lemma_start_spawn_env(s: StartState, replies: Seq<ReplyView>, k: int)
    requires
        s.stage is MakeDir,
        0 <= k < start_trace(s, replies).1.len(),
        start_trace(s, replies).1[k] matches StartActionView::Perform(EffectView::Spawn { .. }),
    ensures
        start_trace(s, replies).1[k] matches StartActionView::Perform(EffectView::Spawn { env }) && {
            &&& env.len() == s.extra_env.len() + 1
            &&& env[0] == (s.env_var, s.task_name)
            &&& forall|i: int| 0 <= i < s.extra_env.len() ==> #[trigger] env[i + 1] == s.extra_env[i]
        },
{
    lemma_start_trace_spawn(s, replies, k);
    let env = s.child_env();
    assert forall|i: int| 0 <= i < s.extra_env.len() implies #[trigger] env[i + 1] == s.extra_env[i] by {
    }
}

} // verus!
