//! Starting the helper with raised rights: once for a whole selection.

use crate::command_line::{arguments_of, quoted_arguments_read_back};
use crate::decimal::{push_signed_decimal, signed_decimal_of};
use crate::quoting::{is_plain_argument, quote_windows_argument, quoted_of};
use crate::runtime_args::{
    positions_from, runtime_arguments_of, RuntimeArgsError, RuntimeArguments,
};
use crate::steps::{lemma_no_step_twice, lemma_run, lemma_steps_from, steps_from, Steps};
use vstd::prelude::*;

verus! {

/// The greatest status by which `ShellExecuteW` reports an error.
pub const MAX_SHELL_ERROR: i64 = 32;

/// The status of `ShellExecuteW` for denied access, which a refused elevation gives too.
pub const SHELL_ACCESS_DENIED: u32 = 5;

/// The parameters with which the helper is started for the request at `request_path`.
pub open spec fn helper_parameters_of(request_path: Seq<char>) -> Seq<char> {
    "--request "@ + quoted_of(request_path)
}

/// What is said when the helper is not where it should be.
pub open spec fn missing_helper_message_of(helper_path: Seq<char>) -> Seq<char> {
    "未找到 helper 可执行文件：\n"@ + helper_path
}

/// What is said when `ShellExecuteW` gives `status`: nothing where it is greater than any error.
pub open spec fn launch_failure_of(status: int) -> Option<Seq<char>> {
    if status > 32 {
        None
    } else {
        let detail = if status % 0x1_0000_0000 == 5 {
            "权限被拒绝，或 UAC 提权已取消"@
        } else {
            "ShellExecuteW 返回了 shell 错误"@
        };
        Some(
            "启动提权 helper 失败："@ + detail + " (code "@ + signed_decimal_of(status) + ")"@,
        )
    }
}

/// The parameters with which the helper is started for the request at `request_path`.
pub fn helper_parameters(request_path: &str) -> (parameters: String)
    ensures
        parameters@ == helper_parameters_of(request_path@),
{
    let mut parameters = String::new();
    parameters.append("--request ");
    let quoted: String = quote_windows_argument(request_path);
    parameters.append(quoted.as_str());
    parameters
}

/// What is said when the helper is not where it should be.
pub fn missing_helper_message(helper_path: &str) -> (message: String)
    ensures
        message@ == missing_helper_message_of(helper_path@),
{
    let mut message = String::new();
    message.append("未找到 helper 可执行文件：\n");
    message.append(helper_path);
    message
}

/// What is said when `ShellExecuteW` gives `status`, if it is an error.
pub fn launch_failure(status: i64) -> (message: Option<String>)
    ensures
        match message {
            Some(message) => launch_failure_of(status as int) == Some(message@),
            None => launch_failure_of(status as int) is None,
        },
{
    if status > MAX_SHELL_ERROR {
        return None;
    }
    let mut message = String::new();
    message.append("启动提权 helper 失败：");
    let code: u32 = #[verifier::truncate] (status as u32);
    assert(code == (status as int) % 0x1_0000_0000) by {
        assert((status as u32) == (status as u64) % 0x1_0000_0000) by (bit_vector);
        assert(status >= 0 ==> (status as u64) == status) by (bit_vector);
        assert(status < 0 ==> (status as u64) == 0x1_0000_0000_0000_0000 + status) by (bit_vector);
    };
    if code == SHELL_ACCESS_DENIED {
        message.append("权限被拒绝，或 UAC 提权已取消");
    } else {
        message.append("ShellExecuteW 返回了 shell 错误");
    }
    message.append(" (code ");
    push_signed_decimal(&mut message, status);
    message.append(")");
    Some(message)
}

/// The helper is told of the request it is started for, wherever that stands: its own parameters
/// read back as the path of the request and no deployment directory.
pub proof fn helper_parameters_read_back(request_path: Seq<char>)
    ensures
        runtime_arguments_of(arguments_of(helper_parameters_of(request_path))) == Ok::<
            RuntimeArguments,
            RuntimeArgsError,
        >(RuntimeArguments { request_path, deploy_dir: None }),
{
    reveal_strlit("--request ");
    reveal_strlit("--request");
    let switch = "--request"@;
    assert("--request "@ == switch.push(' '));
    assert(is_plain_argument(switch));
    quoted_arguments_read_back(switch, request_path);
    reveal_with_fuel(positions_from, 2);
}

/// The steps of handing a selection to the helper.
#[derive(Clone, Copy, Debug, Eq, PartialEq, Structural)]
pub enum LaunchStep {
    /// See whether the helper is where it should be.
    CheckHelper,
    /// Write the whole selection to one request file.
    WriteRequest,
    /// Start the helper, with raised rights.
    StartHelper,
    /// Remove the request file again.
    RemoveRequest,
    /// Tell of the failure in a dialog.
    ShowError,
    Launched,
    Failed,
}

impl Steps for LaunchStep {
    open spec fn after(self, ok: bool) -> Self {
        match self {
            LaunchStep::CheckHelper => if ok {
                LaunchStep::WriteRequest
            } else {
                LaunchStep::ShowError
            },
            LaunchStep::WriteRequest => if ok {
                LaunchStep::StartHelper
            } else {
                LaunchStep::Failed
            },
            LaunchStep::StartHelper => if ok {
                LaunchStep::Launched
            } else {
                LaunchStep::RemoveRequest
            },
            LaunchStep::RemoveRequest => LaunchStep::ShowError,
            LaunchStep::ShowError => LaunchStep::Failed,
            LaunchStep::Launched => LaunchStep::Launched,
            LaunchStep::Failed => LaunchStep::Failed,
        }
    }

    open spec fn left(self) -> nat {
        match self {
            LaunchStep::CheckHelper => 5,
            LaunchStep::WriteRequest => 4,
            LaunchStep::StartHelper => 3,
            LaunchStep::RemoveRequest => 2,
            LaunchStep::ShowError => 1,
            LaunchStep::Launched => 0,
            LaunchStep::Failed => 0,
        }
    }

    proof fn steps_run_out(self, ok: bool) {
    }
}

/// The step that follows `step`, which went well or not.
pub fn next_launch_step(step: LaunchStep, ok: bool) -> (next: LaunchStep)
    ensures
        next == step.after(ok),
{
    match step {
        LaunchStep::CheckHelper => {
            if ok {
                LaunchStep::WriteRequest
            } else {
                LaunchStep::ShowError
            }
        },
        LaunchStep::WriteRequest => {
            if ok {
                LaunchStep::StartHelper
            } else {
                LaunchStep::Failed
            }
        },
        LaunchStep::StartHelper => {
            if ok {
                LaunchStep::Launched
            } else {
                LaunchStep::RemoveRequest
            }
        },
        LaunchStep::RemoveRequest => LaunchStep::ShowError,
        LaunchStep::ShowError => LaunchStep::Failed,
        LaunchStep::Launched => LaunchStep::Launched,
        LaunchStep::Failed => LaunchStep::Failed,
    }
}

/// When a step is taken: a missing helper is told of in a dialog, and so is one that did not start,
/// once its request has been removed again.
pub open spec fn is_launch_step_taken(step: LaunchStep, ok: spec_fn(LaunchStep) -> bool) -> bool {
    let ready = ok(LaunchStep::CheckHelper) && ok(LaunchStep::WriteRequest);
    match step {
        LaunchStep::CheckHelper => true,
        LaunchStep::WriteRequest => ok(LaunchStep::CheckHelper),
        LaunchStep::StartHelper => ready,
        LaunchStep::RemoveRequest => ready && !ok(LaunchStep::StartHelper),
        LaunchStep::ShowError => !ok(LaunchStep::CheckHelper) || (ready
            && !ok(LaunchStep::StartHelper)),
        LaunchStep::Launched => ready && ok(LaunchStep::StartHelper),
        LaunchStep::Failed => !(ready && ok(LaunchStep::StartHelper)),
    }
}

/// However many files are selected, rights are raised at most once for them: no step is taken
/// twice, and each is taken exactly when `is_launch_step_taken` says. The work ends launched or
/// failed.
pub proof fn selection_is_launched_once(ok: spec_fn(LaunchStep) -> bool, step: LaunchStep)
    ensures
        ({
            let steps = steps_from(LaunchStep::CheckHelper, ok);
            &&& steps.len() > 0
            &&& steps.no_duplicates()
            &&& steps.contains(step) <==> is_launch_step_taken(step, ok)
            &&& steps.last() == if is_launch_step_taken(LaunchStep::Launched, ok) {
                LaunchStep::Launched
            } else {
                LaunchStep::Failed
            }
        }),
{
    lemma_steps_from(LaunchStep::Failed, ok, step);
    lemma_steps_from(LaunchStep::Launched, ok, step);
    lemma_steps_from(LaunchStep::ShowError, ok, step);
    lemma_steps_from(LaunchStep::RemoveRequest, ok, step);
    lemma_steps_from(LaunchStep::StartHelper, ok, step);
    lemma_steps_from(LaunchStep::WriteRequest, ok, step);
    lemma_steps_from(LaunchStep::CheckHelper, ok, step);
    lemma_no_step_twice(LaunchStep::CheckHelper, ok);
}

/// The helper is started with the switch for a request, a space and the path of the request as one
/// argument.
pub proof fn helper_parameters_name_the_request(request_path: Seq<char>)
    ensures
        helper_parameters_of(request_path) == "--request"@ + seq![' '] + quoted_of(request_path),
{
    reveal_strlit("--request ");
    reveal_strlit("--request");
    assert("--request "@ == "--request"@ + seq![' ']);
}

/// A missing helper is named by its path, in full.
pub proof fn missing_helpers_are_named(helper_path: Seq<char>)
    ensures
        missing_helper_message_of(helper_path) == "未找到 helper 可执行文件：\n"@ + helper_path,
{
}

/// A status above 32, whatever it is, is no failure; every other one is told of with its number,
/// and as a refusal where its lower 32 bits are 5.
pub proof fn launch_failures_tell_their_status(status: int)
    ensures
        launch_failure_of(status) is None <==> status >= 33,
        launch_failure_of(status) matches Some(message) ==> message == "启动提权 helper 失败："@ + (if
            (status - 5) % 0x1_0000_0000 == 0 {
            "权限被拒绝，或 UAC 提权已取消"@
        } else {
            "ShellExecuteW 返回了 shell 错误"@
        }) + " (code "@ + signed_decimal_of(status) + ")"@,
{
}

/// Every launch, step by step: the helper is looked for, the request is written and the helper is
/// started, in this order and up to the first of these that goes wrong. What follows a failure is
/// said with it.
#[verifier::rlimit(80)]
pub proof fn launches_go_step_by_step(ok: spec_fn(LaunchStep) -> bool)
    ensures
        steps_from(LaunchStep::CheckHelper, ok) == if !ok(LaunchStep::CheckHelper) {
            seq![LaunchStep::CheckHelper, LaunchStep::ShowError, LaunchStep::Failed]
        } else if !ok(LaunchStep::WriteRequest) {
            seq![LaunchStep::CheckHelper, LaunchStep::WriteRequest, LaunchStep::Failed]
        } else if !ok(LaunchStep::StartHelper) {
            seq![
                LaunchStep::CheckHelper,
                LaunchStep::WriteRequest,
                LaunchStep::StartHelper,
                LaunchStep::RemoveRequest,
                LaunchStep::ShowError,
                LaunchStep::Failed,
            ]
        } else {
            seq![
                LaunchStep::CheckHelper,
                LaunchStep::WriteRequest,
                LaunchStep::StartHelper,
                LaunchStep::Launched,
            ]
        },
{
    lemma_run(LaunchStep::CheckHelper, ok);
    lemma_run(LaunchStep::WriteRequest, ok);
    lemma_run(LaunchStep::StartHelper, ok);
    lemma_run(LaunchStep::RemoveRequest, ok);
    lemma_run(LaunchStep::ShowError, ok);
    lemma_run(LaunchStep::Launched, ok);
    lemma_run(LaunchStep::Failed, ok);
}

} // verus!
