//! Inspecting a worker instance: whether its directory exists, and which
//! process its pid file names.

use vstd::prelude::*;
use crate::control::{answers_present, pid_in_reply, reply_pid, reply_present, Effect, EffectView,
    Reply, ReplyView};
use crate::radix::{decimal_text, to_decimal};
use crate::pid::{lemma_pid_round_trip, pid_file_text, pid_of_contents};

verus! {

/// What an inspection found.
#[derive(Debug, Clone, Copy, PartialEq, Eq)]
pub enum InfoStatus {
    /// The instance has no directory.
    NotRunning,
    /// The instance's pid file does not name a process.
    InvalidPidFile,
    /// The instance's pid file names process `pid`.
    Running { pid: u32 },
}

/// Where an inspection stands.
#[derive(Debug, Clone, Copy, PartialEq, Eq)]
pub enum InfoStage {
    /// Waiting to learn whether the instance directory exists.
    CheckDir,
    /// Waiting for the pid file's text.
    ReadPid,
    /// The inspection has ended.
    Finished,
}

/// An inspection of the worker instance `id` of a task, whose directory is
/// `dir`.
#[derive(Debug, Clone)]
pub struct InfoRun {
    /// The task name as requested.
    pub task_name: String,
    /// The instance identifier.
    pub id: String,
    /// The instance's directory.
    pub dir: String,
    /// Where the inspection stands.
    pub stage: InfoStage,
}

/// [`InfoRun`] with its texts as character sequences.
pub struct InfoState {
    pub task_name: Seq<char>,
    pub id: Seq<char>,
    pub dir: Seq<char>,
    pub stage: InfoStage,
}

impl View for InfoRun {
    type V = InfoState;

    open spec fn view(&self) -> InfoState {
        InfoState { task_name: self.task_name@, id: self.id@, dir: self.dir@, stage: self.stage }
    }
}

/// The next step of an inspection: an effect to perform, or what it found.
#[derive(Debug, PartialEq, Eq)]
pub enum InfoAction {
    Perform(Effect),
    Finish(InfoStatus),
}

/// [`InfoAction`] with its texts as character sequences.
pub enum InfoActionView {
    Perform(EffectView),
    Finish(InfoStatus),
}

impl View for InfoAction {
    type V = InfoActionView;

    open spec fn view(&self) -> InfoActionView {
        match self {
            InfoAction::Perform(e) => InfoActionView::Perform(e@),
            InfoAction::Finish(status) => InfoActionView::Finish(*status),
        }
    }
}

/// What a pid file's reply shows of the instance.
pub open spec fn status_of_pid_reply(r: ReplyView) -> InfoStatus {
    match pid_in_reply(r) {
        Some(pid) => InfoStatus::Running { pid },
        None => InfoStatus::InvalidPidFile,
    }
}

/// How an inspection answers a reply.
pub open spec fn info_next(s: InfoState, r: ReplyView) -> (InfoState, InfoActionView) {
    match s.stage {
        InfoStage::CheckDir => if answers_present(r) {
            (
                InfoState { stage: InfoStage::ReadPid, ..s },
                InfoActionView::Perform(EffectView::ReadPidFile { dir: s.dir }),
            )
        } else {
            (InfoState { stage: InfoStage::Finished, ..s }, InfoActionView::Finish(InfoStatus::NotRunning))
        },
        InfoStage::ReadPid => (
            InfoState { stage: InfoStage::Finished, ..s },
            InfoActionView::Finish(status_of_pid_reply(r)),
        ),
        InfoStage::Finished => (s, arbitrary()),
    }
}

/// The summary of an inspection.  `dir_path`, `log_path` and `err_path` are
/// the displayed paths of the instance's directory, output log and error log.
pub open spec fn info_text(
    task_name: Seq<char>,
    id: Seq<char>,
    status: InfoStatus,
    dir_path: Seq<char>,
    log_path: Seq<char>,
    err_path: Seq<char>,
) -> Seq<char> {
    match status {
        InfoStatus::NotRunning => "task '"@ + task_name + "' (id: '"@ + id + "') is not running"@,
        InfoStatus::InvalidPidFile => "task '"@ + task_name + "' (id: '"@ + id
            + "') has invalid pid file"@,
        InfoStatus::Running { pid } => "task: "@ + task_name + " (id: "@ + id + ")\npid: "@
            + decimal_text(pid as nat) + "\ndirectory: "@ + dir_path + "\nlog file: "@ + log_path
            + "\nerror file: "@ + err_path,
    }
}

impl InfoRun {
    /// An inspection of instance `id` of a task requested under `task_name`,
    /// with directory `dir`, and its first step: asking whether the
    /// directory exists.
    pub fn new(task_name: &str, id: &str, dir: String) -> (res: (InfoRun, InfoAction))
        ensures
            res.0@ == (InfoState {
                task_name: task_name@,
                id: id@,
                dir: dir@,
                stage: InfoStage::CheckDir,
            }),
            res.1@ == InfoActionView::Perform(EffectView::DirExists { dir: dir@ }),
    {
        let first = InfoAction::Perform(Effect::DirExists { dir: dir.clone() });
        (
            InfoRun {
                task_name: String::from_str(task_name),
                id: String::from_str(id),
                dir,
                stage: InfoStage::CheckDir,
            },
            first,
        )
    }

    /// Whether the inspection has ended.
    pub fn is_finished(&self) -> (res: bool)
        ensures
            res == (self.stage is Finished),
    {
        match self.stage {
            InfoStage::Finished => true,
            _ => false,
        }
    }

    /// Takes the caller's reply to the last effect and gives the next step.
    pub fn resume(&mut self, reply: Reply) -> (action: InfoAction)
        requires
            !(old(self).stage is Finished),
        ensures
            (final(self)@, action@) == info_next(old(self)@, reply@),
    {
        match self.stage {
            InfoStage::CheckDir => {
                if reply_present(&reply) {
                    self.stage = InfoStage::ReadPid;
                    InfoAction::Perform(Effect::ReadPidFile { dir: self.dir.clone() })
                } else {
                    self.stage = InfoStage::Finished;
                    InfoAction::Finish(InfoStatus::NotRunning)
                }
            },
            InfoStage::ReadPid => {
                self.stage = InfoStage::Finished;
                let status = match reply_pid(&reply) {
                    Some(pid) => InfoStatus::Running { pid },
                    None => InfoStatus::InvalidPidFile,
                };
                InfoAction::Finish(status)
            },
            InfoStage::Finished => vstd::pervasive::unreached(),
        }
    }

    /// The summary that the inspection gives for `status`: whether the
    /// instance runs, and if it does its pid and the paths of its directory
    /// and logs (`dir_path`, `log_path`, `err_path`, as displayed).
    pub fn describe(&self, status: InfoStatus, dir_path: &str, log_path: &str, err_path: &str) -> (res: String)
        ensures
            res@ == info_text(self.task_name@, self.id@, status, dir_path@, log_path@, err_path@),
    {
        match status {
            InfoStatus::NotRunning => {
                let mut out = String::from_str("task '");
                out.append(self.task_name.as_str());
                out.append("' (id: '");
                out.append(self.id.as_str());
                out.append("') is not running");
                out
            },
            InfoStatus::InvalidPidFile => {
                let mut out = String::from_str("task '");
                out.append(self.task_name.as_str());
                out.append("' (id: '");
                out.append(self.id.as_str());
                out.append("') has invalid pid file");
                out
            },
            InfoStatus::Running { pid } => {
                let mut out = String::from_str("task: ");
                out.append(self.task_name.as_str());
                out.append(" (id: ");
                out.append(self.id.as_str());
                out.append(")\npid: ");
                let pid_text = to_decimal(pid as u64);
                out.append(pid_text.as_str());
                out.append("\ndirectory: ");
                out.append(dir_path);
                out.append("\nlog file: ");
                out.append(log_path);
                out.append("\nerror file: ");
                out.append(err_path);
                out
            },
        }
    }
}

/// An inspection reports what the pid file says: once the directory is
/// found, it reports a running process `p` exactly when the pid file's text
/// reads as `p`, and an invalid pid file when the file cannot be read or does
/// not name a process.
pub proof fn lemma_info_reports_pid_file(s: InfoState, text: Option<Seq<char>>)
    requires
        s.stage is ReadPid,
    ensures
        info_next(s, ReplyView::Contents(text)).0.stage is Finished,
        match text {
            Some(t) => match pid_of_contents(t) {
                Some(p) => info_next(s, ReplyView::Contents(text)).1 == InfoActionView::Finish(
                    InfoStatus::Running { pid: p },
                ),
                None => info_next(s, ReplyView::Contents(text)).1 == InfoActionView::Finish(
                    InfoStatus::InvalidPidFile,
                ),
            },
            None => info_next(s, ReplyView::Contents(text)).1 == InfoActionView::Finish(
                InfoStatus::InvalidPidFile,
            ),
        },
{
}

/// An inspection reads back what a start recorded: a pid file holding the
/// text written for process `p`, with or without a trailing line break, is
/// reported as process `p` running.
pub proof fn lemma_info_reads_recorded_pid(s: InfoState, p: u32)
    requires
        s.stage is ReadPid,
    ensures
        info_next(s, ReplyView::Contents(Some(pid_file_text(p)))).1 == InfoActionView::Finish(
            InfoStatus::Running { pid: p },
        ),
        info_next(s, ReplyView::Contents(Some(pid_file_text(p).push('\n')))).1 == InfoActionView::Finish(
            InfoStatus::Running { pid: p },
        ),
{
    lemma_pid_round_trip(p);
}

} // verus!
