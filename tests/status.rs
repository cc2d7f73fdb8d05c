use record_store::{process_status, Status};

#[test]
fn classify_running_above_half_is_almost_done() {
    assert_eq!(process_status(Status::Running { progress: 51 }), "almost done");
}

#[test]
fn classify_running_at_half_is_in_progress() {
    assert_eq!(process_status(Status::Running { progress: 50 }), "in progress");
    assert_eq!(process_status(Status::Running { progress: 0 }), "in progress");
}

#[test]
fn classify_failed_negative_code_is_critical() {
    let s = Status::Failed { code: -1, message: "x".to_string() };
    assert_eq!(process_status(s), "critical error");
}

#[test]
fn classify_failed_zero_code_is_error() {
    let s = Status::Failed { code: 0, message: "x".to_string() };
    assert_eq!(process_status(s), "error");
}

#[test]
fn classify_pending_and_completed() {
    assert_eq!(process_status(Status::Pending), "waiting");
    assert_eq!(process_status(Status::Completed("ok".to_string())), "done");
}

#[test]
fn render_pending() {
    assert_eq!(Status::Pending.to_string(), "Pending");
}

#[test]
fn render_running() {
    assert_eq!(Status::Running { progress: 42 }.to_string(), "Running: 42%");
    assert_eq!(Status::Running { progress: 0 }.to_string(), "Running: 0%");
    assert_eq!(Status::Running { progress: 255 }.to_string(), "Running: 255%");
}

#[test]
fn render_completed() {
    assert_eq!(Status::Completed("all good".to_string()).to_string(), "Completed: all good");
}

#[test]
fn render_failed() {
    let s = Status::Failed { code: 404, message: "not found".to_string() };
    assert_eq!(s.to_string(), "Failed [404]: not found");
    let t = Status::Failed { code: i32::MIN, message: "boom".to_string() };
    assert_eq!(t.to_string(), "Failed [-2147483648]: boom");
}
