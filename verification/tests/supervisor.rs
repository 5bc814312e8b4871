use ncgmgr::error::Error;
use ncgmgr::log::{
    is_process_termination_successful, process_event_log, CommandEvent, ProcessResult,
    TerminatedPayload,
};
use ncgmgr::nodecg::{ManagedNodecg, NodecgStatus};

#[test]
fn start_on_idle_supervisor_succeeds() {
    let mut s = ManagedNodecg::new();
    assert_eq!(s.status(), NodecgStatus::NotRunning);
    assert_eq!(s.start(false, 100), Ok(()));
    assert_eq!(s.status(), NodecgStatus::Running);
}

#[test]
fn second_start_with_live_process_is_rejected() {
    let mut s = ManagedNodecg::new();
    assert_eq!(s.start(false, 100), Ok(()));
    // the held process is still alive: the second start must fail and the
    // held handle must stay in place
    assert_eq!(s.start(true, 200), Err(Error::AlreadyRunning));
    assert_eq!(s.status(), NodecgStatus::Running);
    // stopping still stops the first process, proving the handle survived
    assert_eq!(s.stop(Ok(())), Ok(()));
    assert_eq!(s.status(), NodecgStatus::NotRunning);
}

#[test]
fn start_replaces_stale_handle_of_dead_process() {
    let mut s = ManagedNodecg::new();
    assert_eq!(s.start(false, 100), Ok(()));
    // the held process has exited outside the supervisor's control
    assert_eq!(s.start(false, 200), Ok(()));
    assert_eq!(s.status(), NodecgStatus::Running);
}

#[test]
fn stop_on_idle_supervisor_is_a_no_op() {
    let mut s = ManagedNodecg::new();
    assert_eq!(s.stop(Ok(())), Ok(()));
    assert_eq!(s.status(), NodecgStatus::NotRunning);
}

#[test]
fn failed_kill_keeps_the_handle_for_retry() {
    let mut s = ManagedNodecg::new();
    assert_eq!(s.start(false, 100), Ok(()));
    assert_eq!(
        s.stop(Err("access denied".to_string())),
        Err(Error::KillFailed("access denied".to_string()))
    );
    assert_eq!(s.status(), NodecgStatus::Running);
    assert_eq!(s.stop(Ok(())), Ok(()));
    assert_eq!(s.status(), NodecgStatus::NotRunning);
}

fn terminated(code: Option<i32>, signal: Option<i32>) -> TerminatedPayload {
    TerminatedPayload { code, signal }
}

#[test]
fn exit_code_zero_is_successful() {
    assert!(is_process_termination_successful(&terminated(Some(0), None)));
}

#[test]
fn signal_termination_is_successful() {
    assert!(is_process_termination_successful(&terminated(
        Some(17),
        Some(9)
    )));
    assert!(is_process_termination_successful(&terminated(None, Some(9))));
}

#[test]
fn exit_code_seventeen_is_not_successful() {
    assert!(!is_process_termination_successful(&terminated(
        Some(17),
        None
    )));
}

#[test]
fn missing_exit_code_is_successful() {
    assert!(is_process_termination_successful(&terminated(None, None)));
}

#[test]
fn process_result_classifies_payload() {
    let r = ProcessResult::from_terminated_payload(&terminated(Some(3), None));
    assert_eq!(r.code, Some(3));
    assert!(!r.success);
    let ok = ProcessResult::from_terminated_payload(&terminated(Some(0), None));
    assert!(ok.success);
}

#[test]
fn process_result_message_includes_exit_code() {
    let r = ProcessResult {
        code: Some(42),
        success: false,
    };
    assert_eq!(r.to_message(), "Process exited with code 42");
    let negative = ProcessResult {
        code: Some(-17),
        success: false,
    };
    assert_eq!(negative.to_message(), "Process exited with code -17");
    let none = ProcessResult {
        code: None,
        success: true,
    };
    assert_eq!(none.to_message(), "Process exited");
}

#[test]
fn stdout_event_decodes_to_log_line() {
    let (line, result) = process_event_log(CommandEvent::Stdout(b"server listening".to_vec()));
    assert_eq!(line, "server listening");
    assert_eq!(result, None);
}

#[test]
fn stderr_event_decodes_to_log_line() {
    let (line, result) = process_event_log(CommandEvent::Stderr(b"warning: low disk".to_vec()));
    assert_eq!(line, "warning: low disk");
    assert_eq!(result, None);
}

#[test]
fn undecodable_output_reports_the_decode_error() {
    let expected = format!(
        "Failed to decode output: {}",
        String::from_utf8(vec![0xff]).unwrap_err()
    );
    let (line, result) = process_event_log(CommandEvent::Stdout(vec![0xff]));
    assert_eq!(line, expected);
    assert_eq!(result, None);
}

#[test]
fn error_event_passes_its_message_through() {
    let (line, result) = process_event_log(CommandEvent::Error("spawn failed".to_string()));
    assert_eq!(line, "spawn failed");
    assert_eq!(result, None);
}

#[test]
fn terminated_event_yields_summary_and_message() {
    let (line, result) = process_event_log(CommandEvent::Terminated(terminated(Some(0), None)));
    assert_eq!(line, "Process exited with code 0");
    assert_eq!(
        result,
        Some(ProcessResult {
            code: Some(0),
            success: true
        })
    );
}

#[test]
fn other_event_yields_empty_line() {
    let (line, result) = process_event_log(CommandEvent::Other);
    assert_eq!(line, "");
    assert_eq!(result, None);
}
