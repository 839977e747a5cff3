//! The vocabulary shared by the procedures that start, inspect and stop
//! workers.  A procedure asks for one [`Effect`] at a time; the caller
//! performs it on the machine and answers with a [`Reply`].  Paths are
//! relative to the manager's temporary directory: `dir` names a task
//! instance's directory inside it, whose files are [`PID_FILE_NAME`],
//! [`LOG_FILE_NAME`] and [`ERR_FILE_NAME`].

use vstd::prelude::*;
use crate::pid::{parse_pid, pid_of_contents};

verus! {

/// Name of the file that holds a worker's process id.
pub const PID_FILE_NAME: &'static str = "pid";

/// Name of the file that receives a worker's standard output.
pub const LOG_FILE_NAME: &'static str = "out.log";

/// Name of the file that receives a worker's standard error.
pub const ERR_FILE_NAME: &'static str = "err.log";

/// One entry of the temporary directory.
#[derive(Debug, Clone, PartialEq, Eq)]
pub struct DirEntry {
    /// The entry's file name.
    pub name: String,
    /// Whether the entry is a directory.
    pub is_dir: bool,
}

/// [`DirEntry`] with its name as a character sequence.
pub struct DirEntryView {
    pub name: Seq<char>,
    pub is_dir: bool,
}

impl View for DirEntry {
    type V = DirEntryView;

    open spec fn view(&self) -> DirEntryView {
        DirEntryView { name: self.name@, is_dir: self.is_dir }
    }
}

/// The views of a list of directory entries.
pub open spec fn entries_view(entries: Seq<DirEntry>) -> Seq<DirEntryView> {
    entries.map_values(|e: DirEntry| e@)
}

/// What the caller reports after performing an [`Effect`].
#[derive(Debug, Clone, PartialEq, Eq)]
pub enum Reply {
    /// The effect was carried out.
    Done,
    /// The effect failed; the text of the outside error.
    Failed(String),
    /// The answer to an existence question.
    Present(bool),
    /// The text of a file, `None` when it could not be read.
    Contents(Option<String>),
    /// The process id of a spawned child.
    Spawned(u32),
    /// The entries of the temporary directory.
    Listing(Vec<DirEntry>),
}

/// [`Reply`] with its texts as character sequences.
pub enum ReplyView {
    Done,
    Failed(Seq<char>),
    Present(bool),
    Contents(Option<Seq<char>>),
    Spawned(u32),
    Listing(Seq<DirEntryView>),
}

impl View for Reply {
    type V = ReplyView;

    open spec fn view(&self) -> ReplyView {
        match self {
            Reply::Done => ReplyView::Done,
            Reply::Failed(t) => ReplyView::Failed(t@),
            Reply::Present(b) => ReplyView::Present(*b),
            Reply::Contents(c) => ReplyView::Contents(
                match c {
                    Some(t) => Some(t@),
                    None => None,
                },
            ),
            Reply::Spawned(pid) => ReplyView::Spawned(*pid),
            Reply::Listing(entries) => ReplyView::Listing(entries_view(entries@)),
        }
    }
}

/// The outside error's text carried by a reply, empty for other replies.
pub open spec fn reason_of(r: ReplyView) -> Seq<char> {
    match r {
        ReplyView::Failed(t) => t,
        _ => Seq::empty(),
    }
}

/// Whether a reply to an existence question says "present"; any other reply
/// counts as absent, as a failed check does.
pub open spec fn answers_present(r: ReplyView) -> bool {
    r == ReplyView::Present(true)
}

/// The process id that a reply carrying a pid file's text shows; `None` when
/// the file could not be read or does not name a process.
pub open spec fn pid_in_reply(r: ReplyView) -> Option<u32> {
    match r {
        ReplyView::Contents(Some(text)) => pid_of_contents(text),
        _ => None,
    }
}

/// Reads the process id out of a reply carrying a pid file's text.
pub fn reply_pid(r: &Reply) -> (res: Option<u32>)
    ensures
        res == pid_in_reply(r@),
{
    match r {
        Reply::Contents(Some(text)) => parse_pid(text.as_str()),
        _ => None,
    }
}

/// Takes the outside error's text out of a reply.
pub fn take_reason(r: Reply) -> (res: String)
    ensures
        res@ == reason_of(r@),
{
    match r {
        Reply::Failed(t) => t,
        _ => String::new(),
    }
}

/// Whether a reply says "present".
pub fn reply_present(r: &Reply) -> (res: bool)
    ensures
        res == answers_present(r@),
{
    match r {
        Reply::Present(b) => *b,
        _ => false,
    }
}

/// Whether a reply says the effect was carried out.
pub fn reply_done(r: &Reply) -> (res: bool)
    ensures
        res == (r@ is Done),
{
    match r {
        Reply::Done => true,
        _ => false,
    }
}

/// An effect on the machine that a procedure asks its caller to perform.
#[derive(Debug, Clone, PartialEq, Eq)]
pub enum Effect {
    /// Create the directory `dir` (with its parents); reply `Done` or `Failed`.
    MakeDir { dir: String },
    /// Does the directory `dir` exist?  Reply `Present`.
    DirExists { dir: String },
    /// Does `dir` hold a pid file?  Reply `Present`.
    PidFileExists { dir: String },
    /// Read the pid file of `dir`; reply `Contents`.
    ReadPidFile { dir: String },
    /// Find the path of the running executable; reply `Done` or `Failed`.
    FindExecutable,
    /// Create the output and error logs in `dir`; reply `Done` or `Failed`.
    OpenLogs { dir: String },
    /// Run the executable again with these variables added to its
    /// environment, in order, its input closed and its output sent to the
    /// logs just opened; reply `Spawned` or `Failed`.
    Spawn { env: Vec<(String, String)> },
    /// Create the pid file of `dir`; reply `Done` or `Failed`.
    CreatePidFile { dir: String },
    /// Write `text` into the pid file just created; reply `Done` or `Failed`.
    WritePid { text: String },
    /// List the temporary directory; reply `Listing` or `Failed` (an absent
    /// directory lists as empty).
    ListTempDir,
    /// Send `SIGTERM` to the process `pid`; reply `Done` or `Failed`.
    Kill { pid: u32 },
    /// Remove the directory `dir` and all it holds; any reply.
    RemoveDir { dir: String },
}

/// [`Effect`] with its texts as character sequences.
pub enum EffectView {
    MakeDir { dir: Seq<char> },
    DirExists { dir: Seq<char> },
    PidFileExists { dir: Seq<char> },
    ReadPidFile { dir: Seq<char> },
    FindExecutable,
    OpenLogs { dir: Seq<char> },
    Spawn { env: Seq<(Seq<char>, Seq<char>)> },
    CreatePidFile { dir: Seq<char> },
    WritePid { text: Seq<char> },
    ListTempDir,
    Kill { pid: u32 },
    RemoveDir { dir: Seq<char> },
}

impl View for Effect {
    type V = EffectView;

    open spec fn view(&self) -> EffectView {
        match self {
            Effect::MakeDir { dir } => EffectView::MakeDir { dir: dir@ },
            Effect::DirExists { dir } => EffectView::DirExists { dir: dir@ },
            Effect::PidFileExists { dir } => EffectView::PidFileExists { dir: dir@ },
            Effect::ReadPidFile { dir } => EffectView::ReadPidFile { dir: dir@ },
            Effect::FindExecutable => EffectView::FindExecutable,
            Effect::OpenLogs { dir } => EffectView::OpenLogs { dir: dir@ },
            Effect::Spawn { env } => EffectView::Spawn { env: env.deep_view() },
            Effect::CreatePidFile { dir } => EffectView::CreatePidFile { dir: dir@ },
            Effect::WritePid { text } => EffectView::WritePid { text: text@ },
            Effect::ListTempDir => EffectView::ListTempDir,
            Effect::Kill { pid } => EffectView::Kill { pid: *pid },
            Effect::RemoveDir { dir } => EffectView::RemoveDir { dir: dir@ },
        }
    }
}

} // verus!
