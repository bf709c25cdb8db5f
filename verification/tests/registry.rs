use ahandd::pipeline::finish_job;
use ahandd::registry::{CompletedJob, IsKnown, JobRegistry};

#[test]
fn unknown_then_running_then_completed() {
    let mut reg = JobRegistry::new(2);
    assert_eq!(reg.is_known("J1"), IsKnown::Unknown);
    reg.register("J1".to_string(), 11);
    assert_eq!(reg.is_known("J1"), IsKnown::Running);
    assert_eq!(reg.active_count(), 1);
    assert!(reg.acquire_permit());
    finish_job(&mut reg, "J1".to_string(), 0, String::new());
    assert_eq!(reg.active_count(), 0);
    assert_eq!(reg.is_known("J1"), IsKnown::Completed(CompletedJob { exit_code: 0, error: String::new() }));
}

#[test]
fn running_wins_over_completed() {
    let mut reg = JobRegistry::new(2);
    reg.mark_completed("J".to_string(), 3, "boom".to_string());
    reg.register("J".to_string(), 1);
    assert_eq!(reg.is_known("J"), IsKnown::Running);
    reg.remove("J");
    assert_eq!(reg.is_known("J"), IsKnown::Completed(CompletedJob { exit_code: 3, error: "boom".to_string() }));
}

#[test]
fn oldest_completed_result_wins() {
    let mut reg = JobRegistry::new(1);
    reg.mark_completed("J".to_string(), 1, "first".to_string());
    reg.mark_completed("J".to_string(), 2, "second".to_string());
    assert_eq!(reg.is_known("J"), IsKnown::Completed(CompletedJob { exit_code: 1, error: "first".to_string() }));
}

#[test]
fn completed_cache_holds_one_thousand() {
    let mut reg = JobRegistry::new(1);
    for i in 0..1001 {
        reg.mark_completed(format!("job-{i}"), i, String::new());
    }
    assert_eq!(reg.is_known("job-0"), IsKnown::Unknown);
    assert_eq!(reg.is_known("job-1"), IsKnown::Completed(CompletedJob { exit_code: 1, error: String::new() }));
    assert_eq!(reg.is_known("job-1000"), IsKnown::Completed(CompletedJob { exit_code: 1000, error: String::new() }));
}

#[test]
fn permits_are_limited() {
    let mut reg = JobRegistry::new(2);
    assert!(reg.acquire_permit());
    assert!(reg.acquire_permit());
    assert!(!reg.acquire_permit());
    reg.release_permit();
    assert!(reg.acquire_permit());
    assert!(!reg.acquire_permit());
    let mut none = JobRegistry::new(0);
    assert!(!none.acquire_permit());
    none.release_permit();
    assert!(!none.acquire_permit());
}

#[test]
fn cancel_finds_the_token_of_a_running_job() {
    let mut reg = JobRegistry::new(2);
    reg.register("J4".to_string(), 44);
    assert_eq!(reg.cancel("J4"), Some(44));
    assert_eq!(reg.cancel("J5"), None);
    reg.register("J4".to_string(), 45);
    assert_eq!(reg.cancel("J4"), Some(45));
    assert_eq!(reg.active_count(), 1);
    reg.remove("J4");
    assert_eq!(reg.cancel("J4"), None);
    reg.remove("J4");
    assert_eq!(reg.active_count(), 0);
}
