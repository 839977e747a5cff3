use luhproc::control::{DirEntry, Effect, Reply};
use luhproc::error::ManagerError;
use luhproc::info::{InfoAction, InfoStatus};
use luhproc::manager::ProcessManager;
use luhproc::start::StartAction;
use luhproc::stop::StopAction;
use luhtwin::LuhTwin;

fn dummy_task() -> LuhTwin<()> {
    Ok(())
}

fn manager() -> ProcessManager<fn() -> LuhTwin<()>> {
    let mut pm = ProcessManager::new();
    pm.register_task("MY_TASK", dummy_task as fn() -> LuhTwin<()>);
    pm
}

fn instance_dir(pm: &ProcessManager<fn() -> LuhTwin<()>>, id: &str) -> String {
    pm.tasks[0].set_id(id).task_name()
}

fn failed(text: &str) -> Reply {
    Reply::Failed(text.to_string())
}

fn dir_entry(name: &str) -> DirEntry {
    DirEntry { name: name.to_string(), is_dir: true }
}

#[test]
fn start_runs_through_every_effect() {
    let pm = manager();
    let dir = instance_dir(&pm, "session42");
    let extra = vec![("A".to_string(), "1".to_string())];
    let (mut run, action) = pm.start("MY_TASK", "session42", extra).unwrap();
    assert_eq!(action, StartAction::Perform(Effect::MakeDir { dir: dir.clone() }));
    let action = run.resume(Reply::Done);
    assert_eq!(action, StartAction::Perform(Effect::PidFileExists { dir: dir.clone() }));
    let action = run.resume(Reply::Present(false));
    assert_eq!(action, StartAction::Perform(Effect::FindExecutable));
    let action = run.resume(Reply::Done);
    assert_eq!(action, StartAction::Perform(Effect::OpenLogs { dir: dir.clone() }));
    let action = run.resume(Reply::Done);
    let env = vec![
        ("MY_TASK".to_string(), "MY_TASK".to_string()),
        ("A".to_string(), "1".to_string()),
    ];
    assert_eq!(action, StartAction::Perform(Effect::Spawn { env }));
    let action = run.resume(Reply::Spawned(39241));
    assert_eq!(action, StartAction::Perform(Effect::CreatePidFile { dir: dir.clone() }));
    let action = run.resume(Reply::Done);
    assert_eq!(action, StartAction::Perform(Effect::WritePid { text: "39241".to_string() }));
    assert!(!run.is_finished());
    let action = run.resume(Reply::Done);
    assert_eq!(action, StartAction::Finish(Ok(39241)));
    assert!(run.is_finished());
}

#[test]
fn start_refuses_a_running_instance() {
    let pm = manager();
    let dir = instance_dir(&pm, "session42");
    let (mut run, _) = pm.start("MY_TASK", "session42", Vec::new()).unwrap();
    run.resume(Reply::Done);
    let action = run.resume(Reply::Present(true));
    assert_eq!(action, StartAction::Finish(Err(ManagerError::AlreadyRunning { dir })));
}

#[test]
fn start_reports_each_failure() {
    let pm = manager();
    let answers: Vec<(usize, Reply, ManagerError)> = vec![
        (0, failed("denied"), ManagerError::DirectoryFailed {
            task_name: "MY_TASK".to_string(),
            reason: "denied".to_string(),
        }),
        (2, failed("gone"), ManagerError::ExecutableUnknown { reason: "gone".to_string() }),
        (3, failed("disk full"), ManagerError::LogFilesFailed),
        (4, failed("no fork"), ManagerError::SpawnFailed { reason: "no fork".to_string() }),
        (5, failed("ro"), ManagerError::PidFileFailed { reason: "ro".to_string() }),
        (6, failed("io"), ManagerError::PidWriteFailed { reason: "io".to_string() }),
    ];
    let good = [Reply::Done, Reply::Present(false), Reply::Done, Reply::Done, Reply::Spawned(7), Reply::Done];
    for (at, bad, error) in answers {
        let (mut run, _) = pm.start("MY_TASK", "session42", Vec::new()).unwrap();
        for reply in good.iter().take(at) {
            run.resume(reply.clone());
        }
        assert_eq!(run.resume(bad), StartAction::Finish(Err(error)));
    }
}

#[test]
fn unknown_tasks_are_refused() {
    let pm = manager();
    let unknown = ManagerError::UnknownTask { task_name: "NOPE".to_string() };
    assert_eq!(pm.start("NOPE", "x", Vec::new()).err(), Some(unknown.clone()));
    assert_eq!(pm.info("NOPE", "x").err(), Some(unknown.clone()));
    assert_eq!(pm.stop("NOPE", Some("x")).err(), Some(unknown.clone()));
    assert_eq!(pm.stop("NOPE", None).err(), Some(unknown));
}

#[test]
fn info_reports_each_status() {
    let pm = manager();
    let dir = instance_dir(&pm, "session42");

    let (mut run, action) = pm.info("MY_TASK", "session42").unwrap();
    assert_eq!(action, InfoAction::Perform(Effect::DirExists { dir: dir.clone() }));
    assert_eq!(run.resume(Reply::Present(false)), InfoAction::Finish(InfoStatus::NotRunning));
    assert_eq!(
        run.describe(InfoStatus::NotRunning, "d", "l", "e"),
        "task 'MY_TASK' (id: 'session42') is not running"
    );

    let (mut run, _) = pm.info("MY_TASK", "session42").unwrap();
    assert_eq!(run.resume(Reply::Present(true)), InfoAction::Perform(Effect::ReadPidFile { dir: dir.clone() }));
    assert_eq!(run.resume(Reply::Contents(Some("garbage".to_string()))), InfoAction::Finish(InfoStatus::InvalidPidFile));
    assert_eq!(
        run.describe(InfoStatus::InvalidPidFile, "d", "l", "e"),
        "task 'MY_TASK' (id: 'session42') has invalid pid file"
    );

    let (mut run, _) = pm.info("MY_TASK", "session42").unwrap();
    run.resume(Reply::Present(true));
    assert_eq!(run.resume(Reply::Contents(None)), InfoAction::Finish(InfoStatus::InvalidPidFile));

    let (mut run, _) = pm.info("MY_TASK", "session42").unwrap();
    run.resume(Reply::Present(true));
    let status = InfoStatus::Running { pid: 39241 };
    assert_eq!(run.resume(Reply::Contents(Some("39241\n".to_string()))), InfoAction::Finish(status));
    assert_eq!(
        run.describe(status, "/tmp/luhproc/my-task-a8fd93c2e1a3", "/tmp/x/out.log", "/tmp/x/err.log"),
        "task: MY_TASK (id: session42)\npid: 39241\ndirectory: /tmp/luhproc/my-task-a8fd93c2e1a3\nlog file: /tmp/x/out.log\nerror file: /tmp/x/err.log"
    );
}

#[test]
fn stopping_one_instance() {
    let pm = manager();
    let dir = instance_dir(&pm, "session42");

    // not running
    let (mut run, action) = pm.stop("MY_TASK", Some("session42")).unwrap();
    assert_eq!(action, StopAction::Perform(Effect::DirExists { dir: dir.clone() }));
    assert_eq!(
        run.resume(Reply::Present(false)),
        StopAction::Finish(Err(ManagerError::NotRunning {
            task_name: "MY_TASK".to_string(),
            id: "session42".to_string(),
        }))
    );

    // stopped
    let (mut run, _) = pm.stop("MY_TASK", Some("session42")).unwrap();
    assert_eq!(run.resume(Reply::Present(true)), StopAction::Perform(Effect::ReadPidFile { dir: dir.clone() }));
    assert_eq!(run.resume(Reply::Contents(Some("123".to_string()))), StopAction::Perform(Effect::Kill { pid: 123 }));
    assert_eq!(run.resume(Reply::Done), StopAction::Perform(Effect::RemoveDir { dir: dir.clone() }));
    assert_eq!(run.resume(Reply::Done), StopAction::Finish(Ok(())));
    assert!(run.is_finished());

    // the signal fails: the directory is still removed
    let (mut run, _) = pm.stop("MY_TASK", Some("session42")).unwrap();
    run.resume(Reply::Present(true));
    run.resume(Reply::Contents(Some("123".to_string())));
    assert_eq!(run.resume(failed("ESRCH")), StopAction::Perform(Effect::RemoveDir { dir: dir.clone() }));
    assert_eq!(
        run.resume(Reply::Done),
        StopAction::Finish(Err(ManagerError::KillFailed { pid: 123, reason: "ESRCH".to_string() }))
    );

    // an invalid pid file: reported, and the directory is cleaned up
    let (mut run, _) = pm.stop("MY_TASK", Some("session42")).unwrap();
    run.resume(Reply::Present(true));
    assert_eq!(run.resume(Reply::Contents(Some("x".to_string()))), StopAction::Perform(Effect::RemoveDir { dir: dir.clone() }));
    assert_eq!(
        run.resume(Reply::Done),
        StopAction::Finish(Err(ManagerError::InvalidPidFile { dir: dir.clone() }))
    );
}

#[test]
fn stopping_every_instance() {
    let pm = manager();
    let (mut run, action) = pm.stop("MY_TASK", None).unwrap();
    assert_eq!(action, StopAction::Perform(Effect::ListTempDir));
    let listing = vec![
        dir_entry("my-task-aaaaaaaaaaaa"),
        dir_entry("other-bbbbbbbbbbbb"),
        dir_entry("my-task-cccccccccccc"),
        dir_entry("my-task-dddddddddddd"),
    ];
    assert_eq!(
        run.resume(Reply::Listing(listing)),
        StopAction::Perform(Effect::PidFileExists { dir: "my-task-aaaaaaaaaaaa".to_string() })
    );
    // first: stopped and removed
    assert_eq!(
        run.resume(Reply::Present(true)),
        StopAction::Perform(Effect::ReadPidFile { dir: "my-task-aaaaaaaaaaaa".to_string() })
    );
    assert_eq!(run.resume(Reply::Contents(Some("11".to_string()))), StopAction::Perform(Effect::Kill { pid: 11 }));
    assert_eq!(
        run.resume(Reply::Done),
        StopAction::Perform(Effect::RemoveDir { dir: "my-task-aaaaaaaaaaaa".to_string() })
    );
    // second: no pid file, skipped
    assert_eq!(
        run.resume(Reply::Done),
        StopAction::Perform(Effect::PidFileExists { dir: "my-task-cccccccccccc".to_string() })
    );
    assert_eq!(
        run.resume(Reply::Present(false)),
        StopAction::Perform(Effect::PidFileExists { dir: "my-task-dddddddddddd".to_string() })
    );
    // third: the signal fails, the directory is still removed
    run.resume(Reply::Present(true));
    run.resume(Reply::Contents(Some("33".to_string())));
    assert_eq!(
        run.resume(failed("EPERM")),
        StopAction::Perform(Effect::RemoveDir { dir: "my-task-dddddddddddd".to_string() })
    );
    assert_eq!(
        run.resume(Reply::Done),
        StopAction::Finish(Err(ManagerError::SomeStopsFailed { failures: 1 }))
    );
}

#[test]
fn a_sweep_without_failures_succeeds() {
    let pm = manager();
    let (mut run, _) = pm.stop("MY_TASK", None).unwrap();
    run.resume(Reply::Listing(vec![dir_entry("my-task-aaaaaaaaaaaa")]));
    run.resume(Reply::Present(true));
    run.resume(Reply::Contents(Some("11".to_string())));
    run.resume(Reply::Done);
    assert_eq!(run.resume(Reply::Done), StopAction::Finish(Ok(())));
}

#[test]
fn a_sweep_counts_an_invalid_pid_file_and_cleans_up() {
    let pm = manager();
    let (mut run, _) = pm.stop("MY_TASK", None).unwrap();
    run.resume(Reply::Listing(vec![dir_entry("my-task-aaaaaaaaaaaa")]));
    run.resume(Reply::Present(true));
    assert_eq!(
        run.resume(Reply::Contents(Some("not a pid".to_string()))),
        StopAction::Perform(Effect::RemoveDir { dir: "my-task-aaaaaaaaaaaa".to_string() })
    );
    assert_eq!(
        run.resume(Reply::Done),
        StopAction::Finish(Err(ManagerError::SomeStopsFailed { failures: 1 }))
    );
}

#[test]
fn a_sweep_with_nothing_to_stop_or_no_listing() {
    let pm = manager();
    let (mut run, _) = pm.stop("MY_TASK", None).unwrap();
    assert_eq!(
        run.resume(Reply::Listing(vec![dir_entry("other-aaaaaaaaaaaa")])),
        StopAction::Finish(Err(ManagerError::NoRunningProcesses { task_name: "MY_TASK".to_string() }))
    );
    let (mut run, _) = pm.stop("MY_TASK", None).unwrap();
    assert_eq!(
        run.resume(failed("EACCES")),
        StopAction::Finish(Err(ManagerError::ListingFailed { reason: "EACCES".to_string() }))
    );
}

#[test]
fn a_sweep_leaves_workers_of_other_tasks_alone() {
    let mut pm = manager();
    pm.register_task("MY_TASK_TWO", dummy_task as fn() -> LuhTwin<()>);
    let (mut run, _) = pm.stop("MY_TASK", None).unwrap();
    assert_eq!(
        run.resume(Reply::Listing(vec![dir_entry("my-task-two-aaaaaaaaaaaa")])),
        StopAction::Finish(Err(ManagerError::NoRunningProcesses { task_name: "MY_TASK".to_string() }))
    );
    let (mut run, _) = pm.stop("MY_TASK_TWO", None).unwrap();
    assert_eq!(
        run.resume(Reply::Listing(vec![dir_entry("my-task-aaaaaaaaaaaa"), dir_entry("my-task-two-aaaaaaaaaaaa")])),
        StopAction::Perform(Effect::PidFileExists { dir: "my-task-two-aaaaaaaaaaaa".to_string() })
    );
}

#[test]
fn a_sweep_without_pid_files_finds_no_running_worker() {
    let pm = manager();
    let (mut run, _) = pm.stop("MY_TASK", None).unwrap();
    run.resume(Reply::Listing(vec![dir_entry("my-task-aaaaaaaaaaaa"), dir_entry("my-task-bbbbbbbbbbbb")]));
    assert_eq!(
        run.resume(Reply::Present(false)),
        StopAction::Perform(Effect::PidFileExists { dir: "my-task-bbbbbbbbbbbb".to_string() })
    );
    assert_eq!(
        run.resume(Reply::Present(false)),
        StopAction::Finish(Err(ManagerError::NoRunningProcesses { task_name: "MY_TASK".to_string() }))
    );
}

#[test]
fn every_set_id_can_be_started() {
    let pm = manager();
    for i in 0..500 {
        let id = format!("worker-{}", i);
        assert!(pm.start("MY_TASK", &id, Vec::new()).is_ok());
    }
}
