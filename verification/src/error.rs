//! Why a request to the process manager was refused or failed.

use vstd::prelude::*;

verus! {

/// The errors of the process manager.  Fields hold what the message about
/// the error names; `reason` is the text of the outside error that caused it.
#[derive(Debug, Clone, PartialEq, Eq)]
pub enum ManagerError {
    /// No task is registered under the requested name.
    UnknownTask { task_name: String },
    /// The directory of a task instance could not be created.
    DirectoryFailed { task_name: String, reason: String },
    /// The instance already has a pid file: it is running.
    AlreadyRunning { dir: String },
    /// The path of the running executable could not be found.
    ExecutableUnknown { reason: String },
    /// The output and error logs of the child could not be created.
    LogFilesFailed,
    /// The child process could not be spawned.
    SpawnFailed { reason: String },
    /// The pid file could not be created.
    PidFileFailed { reason: String },
    /// The pid could not be written into the pid file.
    PidWriteFailed { reason: String },
    /// The temporary directory could not be listed.
    ListingFailed { reason: String },
    /// No directory of the task was found.
    NoRunningProcesses { task_name: String },
    /// The directory of the requested instance does not exist.
    NotRunning { task_name: String, id: String },
    /// The pid file of an instance does not hold a process id.
    InvalidPidFile { dir: String },
    /// The signal could not be sent to the process.
    KillFailed { pid: u32, reason: String },
    /// Some of the workers of a task could not be stopped.
    SomeStopsFailed { failures: usize },
}

/// [`ManagerError`] with its texts as character sequences.
pub enum ErrorView {
    UnknownTask { task_name: Seq<char> },
    DirectoryFailed { task_name: Seq<char>, reason: Seq<char> },
    AlreadyRunning { dir: Seq<char> },
    ExecutableUnknown { reason: Seq<char> },
    LogFilesFailed,
    SpawnFailed { reason: Seq<char> },
    PidFileFailed { reason: Seq<char> },
    PidWriteFailed { reason: Seq<char> },
    ListingFailed { reason: Seq<char> },
    NoRunningProcesses { task_name: Seq<char> },
    NotRunning { task_name: Seq<char>, id: Seq<char> },
    InvalidPidFile { dir: Seq<char> },
    KillFailed { pid: u32, reason: Seq<char> },
    SomeStopsFailed { failures: nat },
}

impl View for ManagerError {
    type V = ErrorView;

    open spec fn view(&self) -> ErrorView {
        match self {
            ManagerError::UnknownTask { task_name } => ErrorView::UnknownTask { task_name: task_name@ },
            ManagerError::DirectoryFailed { task_name, reason } => ErrorView::DirectoryFailed {
                task_name: task_name@,
                reason: reason@,
            },
            ManagerError::AlreadyRunning { dir } => ErrorView::AlreadyRunning { dir: dir@ },
            ManagerError::ExecutableUnknown { reason } => ErrorView::ExecutableUnknown { reason: reason@ },
            ManagerError::LogFilesFailed => ErrorView::LogFilesFailed,
            ManagerError::SpawnFailed { reason } => ErrorView::SpawnFailed { reason: reason@ },
            ManagerError::PidFileFailed { reason } => ErrorView::PidFileFailed { reason: reason@ },
            ManagerError::PidWriteFailed { reason } => ErrorView::PidWriteFailed { reason: reason@ },
            ManagerError::ListingFailed { reason } => ErrorView::ListingFailed { reason: reason@ },
            ManagerError::NoRunningProcesses { task_name } => ErrorView::NoRunningProcesses {
                task_name: task_name@,
            },
            ManagerError::NotRunning { task_name, id } => ErrorView::NotRunning {
                task_name: task_name@,
                id: id@,
            },
            ManagerError::InvalidPidFile { dir } => ErrorView::InvalidPidFile { dir: dir@ },
            ManagerError::KillFailed { pid, reason } => ErrorView::KillFailed { pid: *pid, reason: reason@ },
            ManagerError::SomeStopsFailed { failures } => ErrorView::SomeStopsFailed {
                failures: *failures as nat,
            },
        }
    }
}

impl ManagerError {
    /// A copy of this error.
    pub fn clone_error(&self) -> (res: ManagerError)
        ensures
            res@ == self@,
    {
        match self {
            ManagerError::UnknownTask { task_name } => ManagerError::UnknownTask { task_name: task_name.clone() },
            ManagerError::DirectoryFailed { task_name, reason } => ManagerError::DirectoryFailed {
                task_name: task_name.clone(),
                reason: reason.clone(),
            },
            ManagerError::AlreadyRunning { dir } => ManagerError::AlreadyRunning { dir: dir.clone() },
            ManagerError::ExecutableUnknown { reason } => ManagerError::ExecutableUnknown { reason: reason.clone() },
            ManagerError::LogFilesFailed => ManagerError::LogFilesFailed,
            ManagerError::SpawnFailed { reason } => ManagerError::SpawnFailed { reason: reason.clone() },
            ManagerError::PidFileFailed { reason } => ManagerError::PidFileFailed { reason: reason.clone() },
            ManagerError::PidWriteFailed { reason } => ManagerError::PidWriteFailed { reason: reason.clone() },
            ManagerError::ListingFailed { reason } => ManagerError::ListingFailed { reason: reason.clone() },
            ManagerError::NoRunningProcesses { task_name } => ManagerError::NoRunningProcesses {
                task_name: task_name.clone(),
            },
            ManagerError::NotRunning { task_name, id } => ManagerError::NotRunning {
                task_name: task_name.clone(),
                id: id.clone(),
            },
            ManagerError::InvalidPidFile { dir } => ManagerError::InvalidPidFile { dir: dir.clone() },
            ManagerError::KillFailed { pid, reason } => ManagerError::KillFailed { pid: *pid, reason: reason.clone() },
            ManagerError::SomeStopsFailed { failures } => ManagerError::SomeStopsFailed { failures: *failures },
        }
    }
}

} // verus!
