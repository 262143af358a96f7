use iobitunlocker_shell_bridge::action::BridgeAction;
use iobitunlocker_shell_bridge::outcome::{
    fatal_result, parse_result, result_file_text, FailedPathResult, HelperResult,
};
use iobitunlocker_shell_bridge::request::{
    parse_request, request_file_text, HelperRequest, RequestFileError,
};
use iobitunlocker_shell_bridge::request_file::{
    next_create_step, request_file_name, CreateOutcome, CreateStep, MAX_CREATE_ATTEMPTS,
    NO_FREE_NAME_MESSAGE,
};

fn request(action: BridgeAction, paths: &[&str]) -> HelperRequest {
    HelperRequest { action, paths: paths.iter().map(|path| path.to_string()).collect() }
}

#[test]
fn actions_have_their_words_codes_and_switches() {
    assert_eq!(BridgeAction::from_command_id(0), Some(BridgeAction::Unlock));
    assert_eq!(BridgeAction::from_command_id(1), Some(BridgeAction::Delete));
    assert_eq!(BridgeAction::from_command_id(2), None);
    assert_eq!(BridgeAction::Unlock.as_config_value(), "unlock");
    assert_eq!(BridgeAction::Delete.as_config_value(), "delete");
    assert_eq!(BridgeAction::Unlock.operation_code(), 0);
    assert_eq!(BridgeAction::Delete.operation_code(), 1);
    assert_eq!(BridgeAction::Unlock.cli_switch(), "/None");
    assert_eq!(BridgeAction::Delete.cli_switch(), "/Delete");
}

#[test]
fn action_words_read_back() {
    for action in [BridgeAction::Unlock, BridgeAction::Delete] {
        assert_eq!(BridgeAction::from_config_value(action.as_config_value()), Some(action));
    }
    assert_eq!(BridgeAction::from_config_value(" DeLeTe\t"), Some(BridgeAction::Delete));
    assert_eq!(BridgeAction::from_config_value("un lock"), None);
    assert_eq!(BridgeAction::from_config_value(""), None);
}

#[test]
fn a_request_is_written_line_by_line() {
    let text = request_file_text(&request(BridgeAction::Delete, &["C:\\a b.txt", "D:\\x,y"]));
    assert_eq!(text, "action=delete\npath=C:\\a b.txt\npath=D:\\x,y\n");
}

#[test]
fn a_request_reads_back() {
    let paths = ["C:\\a b.txt", "D:\\x,y = z", "E:\\解锁#;|\"", "F:\\a\rb"];
    for action in [BridgeAction::Unlock, BridgeAction::Delete] {
        let read = parse_request(&request_file_text(&request(action, &paths))).unwrap();
        assert_eq!(read.action, action);
        assert_eq!(read.paths, paths);
    }
}

#[test]
fn a_request_with_a_line_feed_in_a_path_does_not_read_back() {
    let read = parse_request(&request_file_text(&request(BridgeAction::Unlock, &["C:\\a\npath=b"]))).unwrap();
    assert_eq!(read.paths, ["C:\\a", "b"]);
}

#[test]
fn a_request_needs_an_action() {
    for text in ["", "path=a\n", "action=copy\npath=a\n", "action=unlock\naction=x\npath=a\n"] {
        let error = parse_request(text).unwrap_err();
        assert_eq!(error, RequestFileError::MissingAction);
        assert_eq!(error.message(), "request file is missing the action field");
    }
}

#[test]
fn a_request_needs_a_path() {
    for text in ["action=unlock", "action=unlock\npath=\npath=   \n#path=a\n"] {
        let error = parse_request(text).unwrap_err();
        assert_eq!(error, RequestFileError::NoPaths);
        assert_eq!(error.message(), "request file does not contain any paths");
    }
}

#[test]
fn a_request_is_read_with_comments_and_white_space() {
    let read = parse_request("\r\n; note\r\n action = UNLOCK \r\n path =  C:\\a  \r\nother=1\r\npath=b").unwrap();
    assert_eq!(read.action, BridgeAction::Unlock);
    assert_eq!(read.paths, ["C:\\a", "b"]);
}

#[test]
fn request_files_are_named_apart() {
    assert_eq!(request_file_name(12, 1700000000123, 4), "iobitunlocker-shell-bridge-12-1700000000123-4.req");
    assert_ne!(request_file_name(1, 23, 4), request_file_name(12, 3, 4));
    assert_ne!(request_file_name(1, 2, 34), request_file_name(1, 23, 4));
}

#[test]
fn a_taken_name_is_followed_by_the_next_up_to_a_limit() {
    assert_eq!(MAX_CREATE_ATTEMPTS, 16);
    for attempt in 0..15 {
        assert_eq!(next_create_step(attempt, CreateOutcome::AlreadyExists), CreateStep::TryNextName);
    }
    assert_eq!(next_create_step(15, CreateOutcome::AlreadyExists), CreateStep::GiveUp);
    assert_eq!(next_create_step(0, CreateOutcome::Created), CreateStep::WriteRequest);
    assert_eq!(next_create_step(15, CreateOutcome::Created), CreateStep::WriteRequest);
    assert_eq!(next_create_step(3, CreateOutcome::OtherError), CreateStep::PassErrorOn);
    assert_eq!(NO_FREE_NAME_MESSAGE, "unable to allocate a unique helper request file");
}

fn failed(path: &str, status: u32) -> FailedPathResult {
    FailedPathResult { path: path.to_string(), status }
}

#[test]
fn a_result_is_written_line_by_line() {
    let result = HelperResult {
        reboot_required: true,
        error_message: Some("no driver".to_string()),
        failed: vec![failed("C:\\a|b", 87), failed("D:\\c", 5)],
    };
    assert_eq!(
        result_file_text(&result),
        "reboot_required=1\nerror=no driver\nfailed=87|C:\\a|b\nfailed=5|D:\\c\n"
    );
    assert_eq!(result_file_text(&HelperResult::default()), "reboot_required=0\n");
}

#[test]
fn a_result_reads_back() {
    let result = HelperResult {
        reboot_required: true,
        error_message: Some("no = driver".to_string()),
        failed: vec![failed("C:\\a|b", 4294967295), failed("D:\\c d", 0)],
    };
    let read = parse_result(&result_file_text(&result));
    assert!(read.reboot_required);
    assert_eq!(read.error_message.unwrap(), "no = driver");
    assert_eq!(read.failed.len(), 2);
    assert_eq!(read.failed[0].path, "C:\\a|b");
    assert_eq!(read.failed[0].status, 4294967295);
    assert_eq!(read.failed[1].path, "D:\\c d");
    assert_eq!(read.failed[1].status, 0);
}

#[test]
fn an_empty_error_does_not_read_back() {
    let result = fatal_result(String::new());
    assert!(parse_result(&result_file_text(&result)).error_message.is_none());
}

#[test]
fn results_pass_over_what_they_cannot_read() {
    let read = parse_result(
        "reboot_required = True \nfailed=5\nfailed=x|a\nfailed=4294967296|a\nfailed=3|  \n# error=no\nerror=\nfailed= +7 | C:\\p \n",
    );
    assert!(read.reboot_required);
    assert!(read.error_message.is_none());
    assert_eq!(read.failed.len(), 1);
    assert_eq!(read.failed[0].path, "C:\\p");
    assert_eq!(read.failed[0].status, 7);
    for word in ["0", "yes", "on", ""] {
        assert!(!parse_result(&format!("reboot_required=1\nreboot_required={}", word)).reboot_required);
    }
}

#[test]
fn a_fatal_error_is_read_by_its_first_line() {
    let result = fatal_result("worker did not find IObitUnlocker.dll:\nC:\\d\\IObitUnlocker.dll".to_string());
    assert!(!result.reboot_required);
    assert!(result.failed.is_empty());
    let read = parse_result(&result_file_text(&result));
    assert_eq!(read.error_message.unwrap(), "worker did not find IObitUnlocker.dll:");
    assert!(read.failed.is_empty());
}

#[test]
fn a_later_line_can_take_the_place_of_a_fatal_error() {
    let read = |error: &str| parse_result(&result_file_text(&fatal_result(error.to_string()))).error_message;
    assert_eq!(read("  a = b \r\nc\n"), Some("a = b".to_string()));
    assert_eq!(read("first\n error = second \nthird"), Some("second".to_string()));
    assert_eq!(read("first\nerror= \n# error=x\nError=y"), Some("first".to_string()));
    assert_eq!(read(" \nerror=second"), Some("second".to_string()));
    assert_eq!(read("\nsecond"), None);
}
