//! The helper's run, from its command line to its last word.

use crate::action::BridgeAction;
use crate::outcome::Outcome;
use crate::report::{dialog_of, is_report_of, Report};
use crate::steps::{lemma_no_step_twice, lemma_run, lemma_steps_from, steps_from, Steps};
use vstd::prelude::*;

verus! {

/// The steps of the helper.
#[derive(Clone, Copy, Debug, Eq, PartialEq, Structural)]
pub enum HelperStep {
    /// Read the command line.
    ReadArguments,
    /// Find the directory that the helper stands in.
    LocateHelper,
    ReadRequest,
    /// Remove what is left of a result, if anything.
    RemoveOldResult,
    /// Have the worker carry out the request in the host process.
    RunHost,
    ReadResult,
    /// See whether the request could be carried out at all.
    CheckError,
    /// See whether no path failed.
    CheckFailures,
    /// Tell in a dialog of the paths that failed.
    ShowFailures,
    /// Remove the request and its result.
    RemoveFiles,
    /// Remove the request and its result, if it has one, before the error is told of.
    RemoveFilesAfterError,
    /// Tell of the error in a dialog.
    ShowError,
    Done,
}

impl Steps for HelperStep {
    open spec fn after(self, ok: bool) -> Self {
        match self {
            HelperStep::ReadArguments => if ok {
                HelperStep::LocateHelper
            } else {
                HelperStep::ShowError
            },
            HelperStep::LocateHelper => if ok {
                HelperStep::ReadRequest
            } else {
                HelperStep::ShowError
            },
            HelperStep::ReadRequest => if ok {
                HelperStep::RemoveOldResult
            } else {
                HelperStep::RemoveFilesAfterError
            },
            HelperStep::RemoveOldResult => HelperStep::RunHost,
            HelperStep::RunHost => if ok {
                HelperStep::ReadResult
            } else {
                HelperStep::RemoveFilesAfterError
            },
            HelperStep::ReadResult => if ok {
                HelperStep::CheckError
            } else {
                HelperStep::RemoveFilesAfterError
            },
            HelperStep::CheckError => if ok {
                HelperStep::CheckFailures
            } else {
                HelperStep::RemoveFilesAfterError
            },
            HelperStep::CheckFailures => if ok {
                HelperStep::RemoveFiles
            } else {
                HelperStep::ShowFailures
            },
            HelperStep::ShowFailures => HelperStep::RemoveFiles,
            HelperStep::RemoveFiles => HelperStep::Done,
            HelperStep::RemoveFilesAfterError => HelperStep::ShowError,
            HelperStep::ShowError => HelperStep::Done,
            HelperStep::Done => HelperStep::Done,
        }
    }

    open spec fn left(self) -> nat {
        match self {
            HelperStep::ReadArguments => 12,
            HelperStep::LocateHelper => 11,
            HelperStep::ReadRequest => 10,
            HelperStep::RemoveOldResult => 9,
            HelperStep::RunHost => 8,
            HelperStep::ReadResult => 7,
            HelperStep::CheckError => 6,
            HelperStep::CheckFailures => 5,
            HelperStep::ShowFailures => 4,
            HelperStep::RemoveFiles => 3,
            HelperStep::RemoveFilesAfterError => 2,
            HelperStep::ShowError => 1,
            HelperStep::Done => 0,
        }
    }

    proof fn steps_run_out(self, ok: bool) {
    }
}

/// The step that follows `step`, which went well or not.
pub fn next_helper_step(step: HelperStep, ok: bool) -> (next: HelperStep)
    ensures
        next == step.after(ok),
{
    match step {
        HelperStep::ReadArguments => {
            if ok {
                HelperStep::LocateHelper
            } else {
                HelperStep::ShowError
            }
        },
        HelperStep::LocateHelper => {
            if ok {
                HelperStep::ReadRequest
            } else {
                HelperStep::ShowError
            }
        },
        HelperStep::ReadRequest => {
            if ok {
                HelperStep::RemoveOldResult
            } else {
                HelperStep::RemoveFilesAfterError
            }
        },
        HelperStep::RemoveOldResult => HelperStep::RunHost,
        HelperStep::RunHost => {
            if ok {
                HelperStep::ReadResult
            } else {
                HelperStep::RemoveFilesAfterError
            }
        },
        HelperStep::ReadResult => {
            if ok {
                HelperStep::CheckError
            } else {
                HelperStep::RemoveFilesAfterError
            }
        },
        HelperStep::CheckError => {
            if ok {
                HelperStep::CheckFailures
            } else {
                HelperStep::RemoveFilesAfterError
            }
        },
        HelperStep::CheckFailures => {
            if ok {
                HelperStep::RemoveFiles
            } else {
                HelperStep::ShowFailures
            }
        },
        HelperStep::ShowFailures => HelperStep::RemoveFiles,
        HelperStep::RemoveFiles => HelperStep::Done,
        HelperStep::RemoveFilesAfterError => HelperStep::ShowError,
        HelperStep::ShowError => HelperStep::Done,
        HelperStep::Done => HelperStep::Done,
    }
}

/// When a step is taken: each of the first steps when those before it went well.
pub open spec fn is_helper_step_taken(step: HelperStep, ok: spec_fn(HelperStep) -> bool) -> bool {
    let ready = ok(HelperStep::ReadArguments) && ok(HelperStep::LocateHelper);
    let carried_out = ready && ok(HelperStep::ReadRequest) && ok(HelperStep::RunHost)
        && ok(HelperStep::ReadResult) && ok(HelperStep::CheckError);
    match step {
        HelperStep::ReadArguments => true,
        HelperStep::LocateHelper => ok(HelperStep::ReadArguments),
        HelperStep::ReadRequest => ready,
        HelperStep::RemoveOldResult => ready && ok(HelperStep::ReadRequest),
        HelperStep::RunHost => ready && ok(HelperStep::ReadRequest),
        HelperStep::ReadResult => ready && ok(HelperStep::ReadRequest) && ok(HelperStep::RunHost),
        HelperStep::CheckError => ready && ok(HelperStep::ReadRequest) && ok(HelperStep::RunHost)
            && ok(HelperStep::ReadResult),
        HelperStep::CheckFailures => carried_out,
        HelperStep::ShowFailures => carried_out && !ok(HelperStep::CheckFailures),
        HelperStep::RemoveFiles => carried_out,
        HelperStep::RemoveFilesAfterError => ready && !carried_out,
        HelperStep::ShowError => !carried_out,
        HelperStep::Done => true,
    }
}

/// The helper always ends, with no step taken twice and each taken exactly when
/// `is_helper_step_taken` says. Success is silent: no dialog is shown unless a step went wrong or a
/// path failed. At most one dialog is shown. Once the request is known, its file and that of its
/// result are removed, whatever happens.
#[verifier::rlimit(40)]
pub proof fn helper_ends_clean(ok: spec_fn(HelperStep) -> bool, step: HelperStep)
    ensures
        ({
            let steps = steps_from(HelperStep::ReadArguments, ok);
            &&& steps.len() > 0
            &&& steps.no_duplicates()
            &&& steps.contains(step) <==> is_helper_step_taken(step, ok)
            &&& steps.last() == HelperStep::Done
            &&& !(is_helper_step_taken(HelperStep::ShowFailures, ok) && is_helper_step_taken(
                HelperStep::ShowError,
                ok,
            ))
            &&& (forall|s: HelperStep| #[trigger] ok(s)) ==> !is_helper_step_taken(
                HelperStep::ShowFailures,
                ok,
            ) && !is_helper_step_taken(HelperStep::ShowError, ok)
            &&& is_helper_step_taken(HelperStep::ReadRequest, ok) ==> is_helper_step_taken(
                HelperStep::RemoveFiles,
                ok,
            ) != is_helper_step_taken(HelperStep::RemoveFilesAfterError, ok)
        }),
{
    lemma_steps_from(HelperStep::Done, ok, step);
    lemma_steps_from(HelperStep::ShowError, ok, step);
    lemma_steps_from(HelperStep::RemoveFilesAfterError, ok, step);
    lemma_steps_from(HelperStep::RemoveFiles, ok, step);
    lemma_steps_from(HelperStep::ShowFailures, ok, step);
    lemma_steps_from(HelperStep::CheckFailures, ok, step);
    lemma_steps_from(HelperStep::CheckError, ok, step);
    lemma_steps_from(HelperStep::ReadResult, ok, step);
    lemma_steps_from(HelperStep::RunHost, ok, step);
    lemma_steps_from(HelperStep::RemoveOldResult, ok, step);
    lemma_steps_from(HelperStep::ReadRequest, ok, step);
    lemma_steps_from(HelperStep::LocateHelper, ok, step);
    lemma_steps_from(HelperStep::ReadArguments, ok, step);
    lemma_no_step_twice(HelperStep::ReadArguments, ok);
}

/// Whether `step`, where it looks into the report, finds nothing to tell of.
pub open spec fn passes(report: Report, step: HelperStep) -> bool {
    match step {
        HelperStep::CheckError => report !is Fatal,
        HelperStep::CheckFailures => report !is Failures,
        _ => true,
    }
}

/// Whether `step`, where it looks into the report, finds nothing to tell of. A step that does not
/// look into it has nothing to find.
pub fn report_passes(report: &Report, step: HelperStep) -> (ok: bool)
    ensures
        ok == passes(*report, step),
{
    match (step, report) {
        (HelperStep::CheckError, Report::Fatal(_)) => false,
        (HelperStep::CheckFailures, Report::Failures(_)) => false,
        _ => true,
    }
}

/// What the user is told of a request whose result was read: of the worker's own error exactly if
/// it had one, else of failures exactly if there are some, and of nothing otherwise. There is a
/// dialog exactly if the report has one.
pub proof fn outcome_is_told_of(
    ok: spec_fn(HelperStep) -> bool,
    report: Report,
    action: BridgeAction,
    outcome: Outcome,
)
    requires
        is_report_of(report, action, outcome),
        is_helper_step_taken(HelperStep::CheckError, ok),
        ok(HelperStep::CheckError) == passes(report, HelperStep::CheckError),
        ok(HelperStep::CheckFailures) == passes(report, HelperStep::CheckFailures),
    ensures
        ({
            let steps = steps_from(HelperStep::ReadArguments, ok);
            let shows_error = steps.contains(HelperStep::ShowError);
            let shows_failures = steps.contains(HelperStep::ShowFailures);
            &&& shows_error <==> report is Fatal
            &&& shows_failures <==> report is Failures
            &&& shows_error <==> outcome.error_message is Some
            &&& shows_failures <==> outcome.error_message is None && outcome.failed.len() > 0
            &&& shows_error || shows_failures <==> dialog_of(report) is Some
        }),
{
    helper_ends_clean(ok, HelperStep::ShowError);
    helper_ends_clean(ok, HelperStep::ShowFailures);
}

/// Every run of the helper, step by step, with what follows each failure. Nothing that goes wrong
/// with removing files or showing a dialog makes a difference.
#[verifier::rlimit(80)]
pub proof fn helpers_go_step_by_step(ok: spec_fn(HelperStep) -> bool)
    ensures
        steps_from(HelperStep::ReadArguments, ok) == if !ok(HelperStep::ReadArguments) {
            seq![HelperStep::ReadArguments, HelperStep::ShowError, HelperStep::Done]
        } else if !ok(HelperStep::LocateHelper) {
            seq![
                HelperStep::ReadArguments,
                HelperStep::LocateHelper,
                HelperStep::ShowError,
                HelperStep::Done,
            ]
        } else if !ok(HelperStep::ReadRequest) {
            seq![
                HelperStep::ReadArguments,
                HelperStep::LocateHelper,
                HelperStep::ReadRequest,
                HelperStep::RemoveFilesAfterError,
                HelperStep::ShowError,
                HelperStep::Done,
            ]
        } else if !ok(HelperStep::RunHost) {
            seq![
                HelperStep::ReadArguments,
                HelperStep::LocateHelper,
                HelperStep::ReadRequest,
                HelperStep::RemoveOldResult,
                HelperStep::RunHost,
                HelperStep::RemoveFilesAfterError,
                HelperStep::ShowError,
                HelperStep::Done,
            ]
        } else if !ok(HelperStep::ReadResult) {
            seq![
                HelperStep::ReadArguments,
                HelperStep::LocateHelper,
                HelperStep::ReadRequest,
                HelperStep::RemoveOldResult,
                HelperStep::RunHost,
                HelperStep::ReadResult,
                HelperStep::RemoveFilesAfterError,
                HelperStep::ShowError,
                HelperStep::Done,
            ]
        } else if !ok(HelperStep::CheckError) {
            seq![
                HelperStep::ReadArguments,
                HelperStep::LocateHelper,
                HelperStep::ReadRequest,
                HelperStep::RemoveOldResult,
                HelperStep::RunHost,
                HelperStep::ReadResult,
                HelperStep::CheckError,
                HelperStep::RemoveFilesAfterError,
                HelperStep::ShowError,
                HelperStep::Done,
            ]
        } else if !ok(HelperStep::CheckFailures) {
            seq![
                HelperStep::ReadArguments,
                HelperStep::LocateHelper,
                HelperStep::ReadRequest,
                HelperStep::RemoveOldResult,
                HelperStep::RunHost,
                HelperStep::ReadResult,
                HelperStep::CheckError,
                HelperStep::CheckFailures,
                HelperStep::ShowFailures,
                HelperStep::RemoveFiles,
                HelperStep::Done,
            ]
        } else {
            seq![
                HelperStep::ReadArguments,
                HelperStep::LocateHelper,
                HelperStep::ReadRequest,
                HelperStep::RemoveOldResult,
                HelperStep::RunHost,
                HelperStep::ReadResult,
                HelperStep::CheckError,
                HelperStep::CheckFailures,
                HelperStep::RemoveFiles,
                HelperStep::Done,
            ]
        },
{
    lemma_run(HelperStep::ReadArguments, ok);
    lemma_run(HelperStep::LocateHelper, ok);
    lemma_run(HelperStep::ReadRequest, ok);
    lemma_run(HelperStep::RemoveOldResult, ok);
    lemma_run(HelperStep::RunHost, ok);
    lemma_run(HelperStep::ReadResult, ok);
    lemma_run(HelperStep::CheckError, ok);
    lemma_run(HelperStep::CheckFailures, ok);
    lemma_run(HelperStep::ShowFailures, ok);
    lemma_run(HelperStep::RemoveFiles, ok);
    lemma_run(HelperStep::RemoveFilesAfterError, ok);
    lemma_run(HelperStep::ShowError, ok);
    lemma_run(HelperStep::Done, ok);
}

} // verus!
