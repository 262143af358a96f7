use iobitunlocker_shell_bridge::action::BridgeAction;
use iobitunlocker_shell_bridge::batch::{BatchRun, DriverReply};
use iobitunlocker_shell_bridge::helper_run::{next_helper_step, report_passes, HelperStep};
use iobitunlocker_shell_bridge::host::{
    check_driver_file, check_driver_start, check_host_files, check_write, loaded_module,
    remote_export_address, wait_outcome, worker_timeout_ms, WaitOutcome,
};
use iobitunlocker_shell_bridge::outcome::{
    fatal_result, parse_result, result_file_text, FailedPathResult, HelperResult,
};
use iobitunlocker_shell_bridge::report::{format_failure_summary, report, Report};
use iobitunlocker_shell_bridge::request::{parse_request, HelperRequest};

#[test]
fn the_worker_gets_more_time_for_more_paths() {
    assert_eq!(worker_timeout_ms(0), 30_000);
    assert_eq!(worker_timeout_ms(1), 45_000);
    assert_eq!(worker_timeout_ms(57), 885_000);
    assert_eq!(worker_timeout_ms(58), 900_000);
    assert_eq!(worker_timeout_ms(59), 900_000);
    assert_eq!(worker_timeout_ms(300_000), 900_000);
    assert_eq!(worker_timeout_ms(usize::MAX), 900_000);
}

#[test]
fn the_host_needs_its_files() {
    assert_eq!(check_host_files("C:\\d", true, true), Ok(()));
    for worker in [true, false] {
        assert_eq!(
            check_host_files("C:\\d", false, worker),
            Err("未找到官方宿主 IObitUnlocker.exe：\nC:\\d\\IObitUnlocker.exe".to_string())
        );
    }
    assert_eq!(
        check_host_files("C:\\d", true, false),
        Err("未找到 worker DLL：\nC:\\d\\iobitunlocker_shell_bridge_worker.dll".to_string())
    );
    assert_eq!(check_driver_file("C:\\d", true), Ok(()));
    assert_eq!(
        check_driver_file("C:\\d", false),
        Err("worker did not find IObitUnlocker.dll:\nC:\\d\\IObitUnlocker.dll".to_string())
    );
}

#[test]
fn waits_end_in_four_ways() {
    assert!(matches!(wait_outcome(0, 5), WaitOutcome::Ended));
    assert!(matches!(wait_outcome(0xffff_ffff, 5), WaitOutcome::FailedBySystem));
    match wait_outcome(258, 30000) {
        WaitOutcome::Failed(message) => assert_eq!(message, "remote thread timed out after 30000 ms"),
        _ => panic!(),
    }
    match wait_outcome(128, 30000) {
        WaitOutcome::Failed(message) => assert_eq!(message, "remote thread wait failed with code 128"),
        _ => panic!(),
    }
}

#[test]
fn functions_keep_their_distance_from_the_base() {
    assert_eq!(loaded_module(0), None);
    assert_eq!(loaded_module(0x1000_0000), Some(0x1000_0000));
    assert_eq!(remote_export_address(0x5000, 0x1000, 0x1234), 0x5234);
}

#[test]
fn a_write_is_whole_or_an_error() {
    assert_eq!(check_write(None, 8, 8), Ok(()));
    assert_eq!(check_write(None, 6, 8), Err("WriteProcessMemory wrote 6 of 8 bytes".to_string()));
    assert_eq!(
        check_write(Some("denied".to_string()), 8, 8),
        Err("WriteProcessMemory failed: denied".to_string())
    );
}

#[test]
fn a_driver_starts_or_the_worker_says_so() {
    assert_eq!(check_driver_start(1), Ok(()));
    assert_eq!(check_driver_start(-1), Ok(()));
    assert_eq!(check_driver_start(0), Err("worker DriverStart failed".to_string()));
}

fn run(
    action: BridgeAction,
    force_fallback: bool,
    paths: &[&str],
    replies: &[(u32, u32)],
) -> (Vec<(String, u32, u32)>, HelperResult) {
    let request = HelperRequest {
        action,
        paths: paths.iter().map(|path| path.to_string()).collect(),
    };
    let mut run = BatchRun::new(request, force_fallback);
    let mut calls = Vec::new();
    while let Some(call) = run.next_call() {
        let (status, reboot_required) = replies[calls.len()];
        calls.push((call.path, call.operation_code, call.option_code));
        run.record(DriverReply { status, reboot_required });
    }
    assert_eq!(calls.len(), replies.len());
    (calls, run.into_outcome())
}

#[test]
fn a_batch_calls_for_every_path_once_or_twice() {
    let (calls, outcome) = run(
        BridgeAction::Delete,
        true,
        &["a", "b", "c"],
        &[(0, 0), (5, 0), (0, 1), (5, 0), (32, 0)],
    );
    assert_eq!(
        calls,
        [
            ("a".to_string(), 1, 0),
            ("b".to_string(), 1, 0),
            ("b".to_string(), 1, 4),
            ("c".to_string(), 1, 0),
            ("c".to_string(), 1, 4),
        ]
    );
    assert!(outcome.reboot_required);
    assert!(outcome.error_message.is_none());
    assert_eq!(outcome.failed.len(), 1);
    assert_eq!(outcome.failed[0].path, "c");
    assert_eq!(outcome.failed[0].status, 32);
}

#[test]
fn a_batch_without_fallback_calls_once_for_every_path() {
    let (calls, outcome) = run(BridgeAction::Unlock, false, &["a", "b"], &[(5, 1), (0, 0)]);
    assert_eq!(calls, [("a".to_string(), 0, 0), ("b".to_string(), 0, 0)]);
    assert!(outcome.reboot_required);
    assert_eq!(outcome.failed.len(), 1);
    assert_eq!((outcome.failed[0].path.as_str(), outcome.failed[0].status), ("a", 5));
}

#[test]
fn a_batch_keeps_a_restart_asked_for_by_a_failed_call() {
    let (calls, outcome) = run(BridgeAction::Unlock, true, &["a"], &[(87, 7), (88, 0)]);
    assert_eq!(calls, [("a".to_string(), 0, 0), ("a".to_string(), 0, 4)]);
    assert!(outcome.reboot_required);
    assert_eq!(outcome.failed[0].status, 88);
}

#[test]
fn a_batch_without_paths_ends_at_once() {
    let (calls, outcome) = run(BridgeAction::Unlock, true, &[], &[]);
    assert!(calls.is_empty());
    assert!(!outcome.reboot_required);
    assert!(outcome.failed.is_empty());
}

fn failing(count: usize, reboot_required: bool) -> HelperResult {
    HelperResult {
        reboot_required,
        error_message: None,
        failed: (0..count)
            .map(|i| FailedPathResult { path: format!("C:\\f{}", i), status: i as u32 + 1 })
            .collect(),
    }
}

#[test]
fn a_summary_names_what_failed() {
    assert_eq!(
        format_failure_summary(BridgeAction::Unlock, &failing(2, false)),
        "解锁失败，共 2 个项目失败。\n\n- [1] C:\\f0\n- [2] C:\\f1"
    );
    assert_eq!(
        format_failure_summary(BridgeAction::Delete, &failing(1, true)),
        "解锁并删除失败，共 1 个项目失败。\n\n- [1] C:\\f0\n\n另有部分项目被标记为需要重启后完成。"
    );
}

#[test]
fn a_summary_names_no_more_than_eight() {
    let eight = format_failure_summary(BridgeAction::Unlock, &failing(8, false));
    assert!(eight.ends_with("\n- [8] C:\\f7"));
    let eleven = format_failure_summary(BridgeAction::Unlock, &failing(11, false));
    assert!(eleven.starts_with("解锁失败，共 11 个项目失败。\n\n- [1] C:\\f0"));
    assert!(eleven.ends_with("\n- [8] C:\\f7\n\n其余 3 个失败项目已省略。"));
}

#[test]
fn success_is_silent_and_failure_is_shown() {
    assert!(matches!(report(BridgeAction::Unlock, &failing(0, false)), Report::Silent));
    assert!(matches!(report(BridgeAction::Unlock, &failing(0, true)), Report::RebootPending));
    match report(BridgeAction::Unlock, &failing(1, false)) {
        Report::Failures(message) => assert_eq!(message, "解锁失败，共 1 个项目失败。\n\n- [1] C:\\f0"),
        _ => panic!(),
    }
    let mut both = failing(1, true);
    both.error_message = fatal_result("no driver".to_string()).error_message;
    match report(BridgeAction::Delete, &both) {
        Report::Fatal(message) => assert_eq!(message, "no driver"),
        _ => panic!(),
    }
}

/// The steps that show a dialog, in a run of the helper whose result gave `told`.
fn dialogs(told: &Report) -> Vec<HelperStep> {
    let mut shown = Vec::new();
    let mut step = HelperStep::ReadArguments;
    while step != HelperStep::Done {
        if step == HelperStep::ShowError || step == HelperStep::ShowFailures {
            shown.push(step);
        }
        step = next_helper_step(step, report_passes(told, step));
    }
    shown
}

#[test]
fn a_report_is_told_of_in_its_own_dialog() {
    let fatal = report(BridgeAction::Unlock, &fatal_result("no driver".to_string()));
    assert_eq!(dialogs(&fatal), [HelperStep::ShowError]);
    assert_eq!(fatal.dialog(), Some("no driver"));
    let failures = report(BridgeAction::Unlock, &failing(1, true));
    assert_eq!(dialogs(&failures), [HelperStep::ShowFailures]);
    assert!(failures.dialog().unwrap().starts_with("解锁失败，共 1 个项目失败。"));
    for reboot_required in [true, false] {
        let silent = report(BridgeAction::Delete, &failing(0, reboot_required));
        assert!(dialogs(&silent).is_empty());
        assert_eq!(silent.dialog(), None);
    }
    assert!(!report_passes(&fatal, HelperStep::CheckError));
    assert!(report_passes(&fatal, HelperStep::CheckFailures));
    assert!(report_passes(&fatal, HelperStep::RunHost));
    assert!(report_passes(&failures, HelperStep::CheckError));
    assert!(!report_passes(&failures, HelperStep::CheckFailures));
}

#[test]
fn what_the_worker_found_reads_back() {
    let request = parse_request("action=delete\npath= C:\\a b \npath=D:\\c|d\n").unwrap();
    let paths: Vec<&str> = request.paths.iter().map(|path| path.as_str()).collect();
    let (_, outcome) = run(request.action, true, &paths, &[(5, 0), (6, 1), (7, 0), (8, 0)]);
    let read = parse_result(&result_file_text(&outcome));
    assert!(read.reboot_required);
    assert!(read.error_message.is_none());
    assert_eq!(read.failed.len(), 2);
    assert_eq!((read.failed[0].path.as_str(), read.failed[0].status), ("C:\\a b", 6));
    assert_eq!((read.failed[1].path.as_str(), read.failed[1].status), ("D:\\c|d", 8));
}
