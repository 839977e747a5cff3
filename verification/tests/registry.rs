use luhproc::control::DirEntry;
use luhproc::manager::ProcessManager;
use luhproc::task::ChildTask;
use luhtwin::LuhTwin;

fn dummy_task() -> LuhTwin<()> {
    Ok(())
}

fn other_task() -> LuhTwin<()> {
    Ok(())
}

fn dir(name: &str) -> DirEntry {
    DirEntry { name: name.to_string(), is_dir: true }
}

fn file(name: &str) -> DirEntry {
    DirEntry { name: name.to_string(), is_dir: false }
}

#[test]
fn test_process_manager_register_and_find_task() {
    let mut pm = ProcessManager::new();
    pm.register_task("TEST_ENV", dummy_task);

    assert_eq!(pm.tasks.len(), 1);
    assert_eq!(pm.tasks[0].env_var, "TEST_ENV");
}

#[test]
fn test_task_name_dirs_matching() {
    let mut pm = ProcessManager::new();
    pm.register_task("TEST_ENV", dummy_task);

    let task = pm.tasks[0].set_id("123");
    let dir_name = task.task_name();
    let listing = vec![file("test-env-notes"), dir(&dir_name), dir("other-task-abc")];

    let dirs = pm.find_task_dirs(&task, &listing);
    assert!(dirs.iter().any(|d| d == &dir_name));
}

#[test]
fn find_task_dirs_keeps_listing_order_and_skips_files() {
    let mut pm = ProcessManager::new();
    pm.register_task("MY_TASK", dummy_task);
    let listing = vec![
        dir("my-task-aaaaaaaaaaaa"),
        file("my-task-bbbbbbbbbbbb"),
        dir("sync-cccccccccccc"),
        dir("my-task-dddddddddddd"),
        dir("my-tas"),
    ];
    let dirs = pm.find_task_dirs(&pm.tasks[0], &listing);
    assert_eq!(dirs, vec!["my-task-aaaaaaaaaaaa".to_string(), "my-task-dddddddddddd".to_string()]);
}

#[test]
fn register_keeps_registration_order_and_empty_ids() {
    let mut pm = ProcessManager::new();
    pm.register_task("FIRST", dummy_task as fn() -> LuhTwin<()>);
    pm.register_task("SECOND", other_task as fn() -> LuhTwin<()>);
    assert_eq!(pm.tasks.len(), 2);
    assert_eq!(pm.tasks[0].env_var, "FIRST");
    assert_eq!(pm.tasks[1].env_var, "SECOND");
    assert_eq!(pm.tasks[0].id, "");
    assert_eq!(pm.tasks[1].id, "");
}

#[test]
fn find_task_gives_the_first_registration_of_a_name() {
    let mut pm = ProcessManager::new();
    pm.register_task("A", dummy_task as fn() -> LuhTwin<()>);
    pm.register_task("B", other_task as fn() -> LuhTwin<()>);
    pm.register_task("B", dummy_task as fn() -> LuhTwin<()>);
    assert_eq!(pm.find_task("A"), Some(0));
    assert_eq!(pm.find_task("B"), Some(1));
    assert_eq!(pm.find_task("C"), None);
    assert_eq!(pm.find_task("a"), None);
}

#[test]
fn check_picks_the_first_task_whose_variable_is_set() {
    let mut pm = ProcessManager::new();
    pm.register_task("A", dummy_task as fn() -> LuhTwin<()>);
    pm.register_task("B", dummy_task as fn() -> LuhTwin<()>);
    pm.register_task("C", dummy_task as fn() -> LuhTwin<()>);
    assert_eq!(pm.check(&vec![false, false, false]), None);
    assert_eq!(pm.check(&vec![false, true, true]), Some(1));
    assert_eq!(pm.check(&vec![true, false, true]), Some(0));
}

#[test]
fn a_task_value_keeps_its_handler() {
    let task = ChildTask { id: "x".to_string(), env_var: "W", work: 7u8 };
    let copy = task.set_id("y");
    assert_eq!(copy.work, 7);
    assert_eq!(copy.env_var, "W");
}
