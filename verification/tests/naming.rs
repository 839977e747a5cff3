use luhproc::radix::{to_base36, to_decimal, render_radix};
use luhproc::task::{hyphenate, instance_dir_name, is_instance_dir_name, ChildTask};
use luhtwin::LuhTwin;

fn dummy_task() -> LuhTwin<()> {
    Ok(())
}

#[test]
fn test_task_name_generation() {
    let task = ChildTask {
        id: "myid123".to_string(),
        env_var: "MY_TASK",
        work: dummy_task,
    };

    let base = task.task_name_base();
    assert_eq!(base, "my-task");

    let full_name = task.task_name();
    assert!(full_name.starts_with("my-task-"));
    assert_eq!(full_name.len(), "my-task-".len() + 12);
}

#[test]
fn test_set_id_returns_new_task() {
    let task = ChildTask {
        id: "".to_string(),
        env_var: "MY_TASK",
        work: dummy_task,
    };

    let new_task = task.set_id("abc123");
    assert_eq!(new_task.id, "abc123");
    assert_eq!(task.id, "");
}

#[test]
fn base36_documented_examples() {
    assert_eq!(to_base36(35), "z");
    assert_eq!(to_base36(36), "10");
}

#[test]
fn base36_zero_and_extremes() {
    assert_eq!(to_base36(0), "0");
    assert_eq!(to_base36(1), "1");
    assert_eq!(to_base36(10), "a");
    assert_eq!(to_base36(u64::MAX), "3w5e11264sgsf");
    // the smallest number with twelve base-36 digits
    assert_eq!(to_base36(131621703842267136), "100000000000");
    assert_eq!(to_base36(131621703842267135), "zzzzzzzzzzz");
}

#[test]
fn base36_distinct_numbers_give_distinct_texts() {
    let a = to_base36(1295);
    let b = to_base36(1296);
    assert_eq!(a, "zz");
    assert_eq!(b, "100");
    assert_ne!(a, b);
}

#[test]
fn decimal_and_other_radixes() {
    assert_eq!(to_decimal(0), "0");
    assert_eq!(to_decimal(39241), "39241");
    assert_eq!(to_decimal(u64::MAX), "18446744073709551615");
    assert_eq!(render_radix(5, 2), "101");
    assert_eq!(render_radix(255, 16), "ff");
}

#[test]
fn hyphenate_replaces_every_underscore() {
    assert_eq!(hyphenate("A_B__C"), "A-B--C");
    assert_eq!(hyphenate(""), "");
    assert_eq!(hyphenate("no-underscore"), "no-underscore");
}

#[test]
fn task_name_base_lowers_and_hyphenates() {
    let task = ChildTask { id: String::new(), env_var: "REFRESH_CACHE", work: dummy_task };
    assert_eq!(task.task_name_base(), "refresh-cache");
    let task = ChildTask { id: String::new(), env_var: "MotH_App_2", work: dummy_task };
    assert_eq!(task.task_name_base(), "moth-app-2");
}

#[test]
fn instance_dir_name_takes_twelve_digits() {
    assert_eq!(instance_dir_name("my-task", 131621703842267136), "my-task-100000000000");
    assert_eq!(instance_dir_name("x", u64::MAX), "x-3w5e11264sgs");
}

#[test]
fn instance_dir_name_pads_short_hashes() {
    assert_eq!(instance_dir_name("my-task", 35), "my-task-00000000000z");
    assert_eq!(instance_dir_name("x", 0), "x-000000000000");
    assert_eq!(instance_dir_name("x", 131621703842267135), "x-0zzzzzzzzzzz");
}

#[test]
fn instance_dir_names_are_recognised_exactly() {
    assert!(is_instance_dir_name("my-task", "my-task-a1b2c3d4e5f6"));
    assert!(is_instance_dir_name("my-task", "my-task-000000000000"));
    assert!(!is_instance_dir_name("my-task", "my-task-two-a1b2c3d4e5f6"));
    assert!(!is_instance_dir_name("my-task", "my-task-a1b2c3d4e5f"));
    assert!(!is_instance_dir_name("my-task", "my-task-a1b2c3d4e5f67"));
    assert!(!is_instance_dir_name("my-task", "my-task-A1B2C3D4E5F6"));
    assert!(!is_instance_dir_name("my-task", "my-taskxa1b2c3d4e5f6"));
    assert!(!is_instance_dir_name("my-task", "my-tusk-a1b2c3d4e5f6"));
    assert!(!is_instance_dir_name("my", "my-task-abcde"));
}

#[test]
fn task_name_is_stable_and_depends_on_the_id() {
    let a = ChildTask { id: "session42".to_string(), env_var: "MY_TASK", work: dummy_task };
    let b = a.set_id("session42");
    let c = a.set_id("session43");
    let name_a = a.task_name();
    assert_eq!(name_a, b.task_name());
    assert_eq!(a.id_hash(), b.id_hash());
    assert_ne!(a.id_hash(), c.id_hash());
    assert_eq!(name_a, instance_dir_name("my-task", a.id_hash()));
    let hash_digits = to_base36(a.id_hash());
    if hash_digits.len() >= 12 {
        assert_eq!(name_a, format!("my-task-{}", &hash_digits[..12]));
    }
}

#[test]
fn every_set_id_gets_a_twelve_digit_name() {
    let task = ChildTask { id: String::new(), env_var: "MY_TASK", work: dummy_task };
    for i in 0..2000 {
        let name = task.set_id(&format!("id{}", i)).task_name();
        assert_eq!(name.len(), "my-task-".len() + 12);
        assert!(is_instance_dir_name("my-task", &name));
    }
}

#[test]
fn base36_texts_follow_the_order_of_numbers() {
    let samples = [0u64, 1, 9, 10, 35, 36, 1295, 1296, 46655, 131621703842267135, 131621703842267136, u64::MAX];
    for (i, a) in samples.iter().enumerate() {
        for b in samples.iter().skip(i + 1) {
            let (x, y) = (to_base36(*a), to_base36(*b));
            assert!(x.len() < y.len() || (x.len() == y.len() && x < y), "{} {}", a, b);
        }
    }
}
