use heimdall::status::{Statuses, ThreadStatus, ThreadType};

#[test]
fn new_registry_tracks_nothing() {
    let statuses = Statuses::new();
    assert_eq!(statuses.get(ThreadType::NNG), None);
    assert!(statuses.get_all().is_empty());
    assert!(!statuses.must_terminate(ThreadType::NNG));
    assert!(statuses.all_stopped_except(ThreadType::TUI));
}

#[test]
fn set_then_get() {
    let mut statuses = Statuses::new();
    statuses.set(ThreadType::NNG, ThreadStatus::Running);
    assert_eq!(statuses.get(ThreadType::NNG), Some(&ThreadStatus::Running));
    assert_eq!(statuses.get(ThreadType::HTTP), None);
    statuses.set(ThreadType::NNG, ThreadStatus::Terminating);
    assert_eq!(statuses.get(ThreadType::NNG), Some(&ThreadStatus::Terminating));
}

#[test]
fn set_overwrites_a_status_that_is_not_final() {
    let mut statuses = Statuses::new();
    statuses.set(ThreadType::HTTP, ThreadStatus::Terminating);
    statuses.set(ThreadType::HTTP, ThreadStatus::Running);
    assert_eq!(statuses.get(ThreadType::HTTP), Some(&ThreadStatus::Running));
    statuses.set(ThreadType::HTTP, ThreadStatus::Failed("bind".to_string()));
    assert_eq!(statuses.get(ThreadType::HTTP), Some(&ThreadStatus::Failed("bind".to_string())));
}

#[test]
fn stopped_cannot_be_set_to_running() {
    let mut statuses = Statuses::new();
    statuses.set(ThreadType::NNG, ThreadStatus::Running);
    statuses.set(ThreadType::NNG, ThreadStatus::Stopped);
    statuses.set(ThreadType::NNG, ThreadStatus::Running);
    assert_eq!(statuses.get(ThreadType::NNG), Some(&ThreadStatus::Stopped));
    statuses.set(ThreadType::NNG, ThreadStatus::Terminating);
    assert_eq!(statuses.get(ThreadType::NNG), Some(&ThreadStatus::Stopped));
    statuses.set(ThreadType::NNG, ThreadStatus::Failed("late".to_string()));
    assert_eq!(statuses.get(ThreadType::NNG), Some(&ThreadStatus::Stopped));
    statuses.set(ThreadType::NNG, ThreadStatus::Stopped);
    assert_eq!(statuses.get(ThreadType::NNG), Some(&ThreadStatus::Stopped));
}

#[test]
fn failed_keeps_its_first_reason() {
    let mut statuses = Statuses::new();
    statuses.set(ThreadType::TUI, ThreadStatus::Failed("first".to_string()));
    statuses.set(ThreadType::TUI, ThreadStatus::Failed("second".to_string()));
    statuses.set(ThreadType::TUI, ThreadStatus::Running);
    statuses.set(ThreadType::TUI, ThreadStatus::Stopped);
    assert_eq!(statuses.get(ThreadType::TUI), Some(&ThreadStatus::Failed("first".to_string())));
}

#[test]
fn get_all_lists_each_role_once_in_order_of_first_set() {
    let mut statuses = Statuses::new();
    statuses.set(ThreadType::HTTP, ThreadStatus::Running);
    statuses.set(ThreadType::TUI, ThreadStatus::Running);
    statuses.set(ThreadType::HTTP, ThreadStatus::Stopped);
    statuses.set(ThreadType::NNG, ThreadStatus::Failed("x".to_string()));
    assert_eq!(
        statuses.get_all(),
        vec![
            (ThreadType::HTTP, ThreadStatus::Stopped),
            (ThreadType::TUI, ThreadStatus::Running),
            (ThreadType::NNG, ThreadStatus::Failed("x".to_string())),
        ]
    );
}

#[test]
fn must_terminate_only_when_terminating() {
    let mut statuses = Statuses::new();
    assert!(!statuses.must_terminate(ThreadType::NNG));
    statuses.set(ThreadType::NNG, ThreadStatus::Running);
    assert!(!statuses.must_terminate(ThreadType::NNG));
    statuses.set(ThreadType::NNG, ThreadStatus::Terminating);
    assert!(statuses.must_terminate(ThreadType::NNG));
    assert!(!statuses.must_terminate(ThreadType::TUI));
    statuses.set(ThreadType::NNG, ThreadStatus::Stopped);
    assert!(!statuses.must_terminate(ThreadType::NNG));
}

#[test]
fn terminate_all_touches_running_roles_only() {
    let mut statuses = Statuses::new();
    statuses.set(ThreadType::TUI, ThreadStatus::Running);
    statuses.set(ThreadType::NNG, ThreadStatus::Stopped);
    statuses.set(ThreadType::HTTP, ThreadStatus::Failed("boom".to_string()));
    statuses.terminate_all();
    assert_eq!(
        statuses.get_all(),
        vec![
            (ThreadType::TUI, ThreadStatus::Terminating),
            (ThreadType::NNG, ThreadStatus::Stopped),
            (ThreadType::HTTP, ThreadStatus::Failed("boom".to_string())),
        ]
    );
}

#[test]
fn terminate_all_twice_is_terminate_all_once() {
    let mut statuses = Statuses::new();
    statuses.set(ThreadType::TUI, ThreadStatus::Running);
    statuses.set(ThreadType::NNG, ThreadStatus::Terminating);
    statuses.terminate_all();
    let once = statuses.get_all();
    statuses.terminate_all();
    assert_eq!(statuses.get_all(), once);
    assert_eq!(
        once,
        vec![
            (ThreadType::TUI, ThreadStatus::Terminating),
            (ThreadType::NNG, ThreadStatus::Terminating),
        ]
    );
}

#[test]
fn terminate_all_on_empty_registry_tracks_nothing() {
    let mut statuses = Statuses::new();
    statuses.terminate_all();
    assert!(statuses.get_all().is_empty());
}

#[test]
fn all_stopped_except_looks_at_the_other_roles() {
    let mut statuses = Statuses::new();
    statuses.set(ThreadType::TUI, ThreadStatus::Running);
    assert!(statuses.all_stopped_except(ThreadType::TUI));
    assert!(!statuses.all_stopped_except(ThreadType::NNG));
    statuses.set(ThreadType::NNG, ThreadStatus::Running);
    assert!(!statuses.all_stopped_except(ThreadType::TUI));
    statuses.set(ThreadType::NNG, ThreadStatus::Terminating);
    assert!(!statuses.all_stopped_except(ThreadType::TUI));
    statuses.set(ThreadType::NNG, ThreadStatus::Failed("x".to_string()));
    assert!(statuses.all_stopped_except(ThreadType::TUI));
    statuses.set(ThreadType::HTTP, ThreadStatus::Stopped);
    assert!(statuses.all_stopped_except(ThreadType::TUI));
    assert!(!statuses.all_stopped_except(ThreadType::HTTP));
}

#[test]
fn thread_started_and_finished_follow_the_life_of_a_thread() {
    let mut statuses = Statuses::new();
    statuses.thread_started(ThreadType::NNG);
    assert_eq!(statuses.get(ThreadType::NNG), Some(&ThreadStatus::Running));
    statuses.thread_finished(ThreadType::NNG, Ok(()));
    assert_eq!(statuses.get(ThreadType::NNG), Some(&ThreadStatus::Stopped));

    statuses.thread_started(ThreadType::HTTP);
    statuses.thread_finished(ThreadType::HTTP, Err("Failed to bind socket to address".to_string()));
    assert_eq!(
        statuses.get(ThreadType::HTTP),
        Some(&ThreadStatus::Failed("Failed to bind socket to address".to_string()))
    );
    // a thread that has ended is not started again
    statuses.thread_started(ThreadType::HTTP);
    assert_eq!(
        statuses.get(ThreadType::HTTP),
        Some(&ThreadStatus::Failed("Failed to bind socket to address".to_string()))
    );
}

#[test]
fn status_clone_is_equal() {
    let failed = ThreadStatus::Failed("why".to_string());
    assert_eq!(failed.clone(), failed);
    assert_eq!(ThreadStatus::Running.clone(), ThreadStatus::Running);
}
