use pointer_rotate::supervisor::{Action, Stage, Supervisor, DEFAULT_RETRY_SECONDS};

#[test]
fn two_failed_opens_give_two_retries_then_one_summary() {
    let mut s = Supervisor::new(DEFAULT_RETRY_SECONDS);
    let actions: Vec<Action> = [false, false, true, true].iter().map(|&ok| s.on_result(ok)).collect();
    let retry = Action::Retry { stage: Stage::OpenDevice, seconds: 10 };
    assert_eq!(actions, vec![retry, retry, Action::Proceed, Action::Announce]);
    assert_eq!(actions.iter().filter(|a| matches!(a, Action::Retry { .. })).count(), 2);
    assert_eq!(actions.iter().filter(|a| **a == Action::Announce).count(), 1);
    assert_eq!(s.stage, Stage::Running);
}

#[test]
fn failed_virtual_device_is_retried_alone() {
    let mut s = Supervisor::new(3);
    assert_eq!(s.on_result(true), Action::Proceed);
    assert_eq!(s.on_result(false), Action::Retry { stage: Stage::CreateVirtual, seconds: 3 });
    assert_eq!(s.stage, Stage::CreateVirtual);
    assert_eq!(s.on_result(true), Action::Announce);
}

#[test]
fn failed_event_loop_starts_over() {
    let mut s = Supervisor::new(10);
    s.on_result(true);
    s.on_result(true);
    assert_eq!(s.on_result(false), Action::Restart { seconds: 10 });
    assert_eq!(s.stage, Stage::OpenDevice);
    assert_eq!(s.on_result(true), Action::Proceed);
    assert_eq!(s.on_result(true), Action::Announce);
}

#[test]
fn stage_labels() {
    assert_eq!(Stage::OpenDevice.label(), "Creating input device");
    assert_eq!(Stage::CreateVirtual.label(), "Creating virtual device");
    assert_eq!(Stage::Running.label(), "Event loop");
}
