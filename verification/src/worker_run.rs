//! The worker's run in the host process.

use crate::steps::{lemma_no_step_twice, lemma_run, lemma_steps_from, steps_from, Steps};
use vstd::prelude::*;

verus! {

/// The steps of the worker.
#[derive(Clone, Copy, Debug, Eq, PartialEq, Structural)]
pub enum WorkerStep {
    /// Take the path of the request from the helper.
    TakeRequestPath,
    ReadRequest,
    /// Find the directory that the host stands in.
    LocateHost,
    /// See whether IObit Unlocker's library is there.
    CheckLibrary,
    LoadLibrary,
    /// Find the driver's functions in the library. The library stays loaded where they are missing.
    FindFunctions,
    StartDriver,
    /// Call the driver for every path.
    RunBatch,
    WriteResult,
    StopDriver,
    FreeLibrary,
    StopDriverAfterError,
    FreeLibraryAfterError,
    /// Write a result that tells of the error alone.
    WriteError,
    Done,
    Failed,
}

impl Steps for WorkerStep {
    open spec fn after(self, ok: bool) -> Self {
        match self {
            WorkerStep::TakeRequestPath => if ok {
                WorkerStep::ReadRequest
            } else {
                WorkerStep::Failed
            },
            WorkerStep::ReadRequest => if ok {
                WorkerStep::LocateHost
            } else {
                WorkerStep::WriteError
            },
            WorkerStep::LocateHost => if ok {
                WorkerStep::CheckLibrary
            } else {
                WorkerStep::WriteError
            },
            WorkerStep::CheckLibrary => if ok {
                WorkerStep::LoadLibrary
            } else {
                WorkerStep::WriteError
            },
            WorkerStep::LoadLibrary => if ok {
                WorkerStep::FindFunctions
            } else {
                WorkerStep::WriteError
            },
            WorkerStep::FindFunctions => if ok {
                WorkerStep::StartDriver
            } else {
                WorkerStep::WriteError
            },
            WorkerStep::StartDriver => if ok {
                WorkerStep::RunBatch
            } else {
                WorkerStep::FreeLibraryAfterError
            },
            WorkerStep::RunBatch => WorkerStep::WriteResult,
            WorkerStep::WriteResult => if ok {
                WorkerStep::StopDriver
            } else {
                WorkerStep::StopDriverAfterError
            },
            WorkerStep::StopDriver => WorkerStep::FreeLibrary,
            WorkerStep::FreeLibrary => WorkerStep::Done,
            WorkerStep::StopDriverAfterError => WorkerStep::FreeLibraryAfterError,
            WorkerStep::FreeLibraryAfterError => WorkerStep::WriteError,
            WorkerStep::WriteError => WorkerStep::Failed,
            WorkerStep::Done => WorkerStep::Done,
            WorkerStep::Failed => WorkerStep::Failed,
        }
    }

    open spec fn left(self) -> nat {
        match self {
            WorkerStep::TakeRequestPath => 14,
            WorkerStep::ReadRequest => 13,
            WorkerStep::LocateHost => 12,
            WorkerStep::CheckLibrary => 11,
            WorkerStep::LoadLibrary => 10,
            WorkerStep::FindFunctions => 9,
            WorkerStep::StartDriver => 8,
            WorkerStep::RunBatch => 7,
            WorkerStep::WriteResult => 6,
            WorkerStep::StopDriver => 5,
            WorkerStep::FreeLibrary => 4,
            WorkerStep::StopDriverAfterError => 3,
            WorkerStep::FreeLibraryAfterError => 2,
            WorkerStep::WriteError => 1,
            WorkerStep::Done => 0,
            WorkerStep::Failed => 0,
        }
    }

    proof fn steps_run_out(self, ok: bool) {
    }
}

/// The step that follows `step`, which went well or not.
pub fn next_worker_step(step: WorkerStep, ok: bool) -> (next: WorkerStep)
    ensures
        next == step.after(ok),
{
    match step {
        WorkerStep::TakeRequestPath => {
            if ok {
                WorkerStep::ReadRequest
            } else {
                WorkerStep::Failed
            }
        },
        WorkerStep::ReadRequest => {
            if ok {
                WorkerStep::LocateHost
            } else {
                WorkerStep::WriteError
            }
        },
        WorkerStep::LocateHost => {
            if ok {
                WorkerStep::CheckLibrary
            } else {
                WorkerStep::WriteError
            }
        },
        WorkerStep::CheckLibrary => {
            if ok {
                WorkerStep::LoadLibrary
            } else {
                WorkerStep::WriteError
            }
        },
        WorkerStep::LoadLibrary => {
            if ok {
                WorkerStep::FindFunctions
            } else {
                WorkerStep::WriteError
            }
        },
        WorkerStep::FindFunctions => {
            if ok {
                WorkerStep::StartDriver
            } else {
                WorkerStep::WriteError
            }
        },
        WorkerStep::StartDriver => {
            if ok {
                WorkerStep::RunBatch
            } else {
                WorkerStep::FreeLibraryAfterError
            }
        },
        WorkerStep::RunBatch => WorkerStep::WriteResult,
        WorkerStep::WriteResult => {
            if ok {
                WorkerStep::StopDriver
            } else {
                WorkerStep::StopDriverAfterError
            }
        },
        WorkerStep::StopDriver => WorkerStep::FreeLibrary,
        WorkerStep::FreeLibrary => WorkerStep::Done,
        WorkerStep::StopDriverAfterError => WorkerStep::FreeLibraryAfterError,
        WorkerStep::FreeLibraryAfterError => WorkerStep::WriteError,
        WorkerStep::WriteError => WorkerStep::Failed,
        WorkerStep::Done => WorkerStep::Done,
        WorkerStep::Failed => WorkerStep::Failed,
    }
}

/// The code with which the worker's thread ends.
pub fn worker_exit_code(end: WorkerStep) -> (code: u32)
    ensures
        code == if end == WorkerStep::Done {
            0u32
        } else {
            1u32
        },
{
    match end {
        WorkerStep::Done => 0,
        _ => 1,
    }
}

/// When a step is taken: each of the first steps when those before it went well.
pub open spec fn is_worker_step_taken(step: WorkerStep, ok: spec_fn(WorkerStep) -> bool) -> bool {
    let loaded = ok(WorkerStep::TakeRequestPath) && ok(WorkerStep::ReadRequest)
        && ok(WorkerStep::LocateHost) && ok(WorkerStep::CheckLibrary)
        && ok(WorkerStep::LoadLibrary);
    let found = loaded && ok(WorkerStep::FindFunctions);
    let started = found && ok(WorkerStep::StartDriver);
    match step {
        WorkerStep::TakeRequestPath => true,
        WorkerStep::ReadRequest => ok(WorkerStep::TakeRequestPath),
        WorkerStep::LocateHost => ok(WorkerStep::TakeRequestPath) && ok(WorkerStep::ReadRequest),
        WorkerStep::CheckLibrary => ok(WorkerStep::TakeRequestPath) && ok(WorkerStep::ReadRequest)
            && ok(WorkerStep::LocateHost),
        WorkerStep::LoadLibrary => ok(WorkerStep::TakeRequestPath) && ok(WorkerStep::ReadRequest)
            && ok(WorkerStep::LocateHost) && ok(WorkerStep::CheckLibrary),
        WorkerStep::FindFunctions => loaded,
        WorkerStep::StartDriver => found,
        WorkerStep::RunBatch => started,
        WorkerStep::WriteResult => started,
        WorkerStep::StopDriver => started && ok(WorkerStep::WriteResult),
        WorkerStep::FreeLibrary => started && ok(WorkerStep::WriteResult),
        WorkerStep::StopDriverAfterError => started && !ok(WorkerStep::WriteResult),
        WorkerStep::FreeLibraryAfterError => found && !(started && ok(WorkerStep::WriteResult)),
        WorkerStep::WriteError => ok(WorkerStep::TakeRequestPath) && !(started
            && ok(WorkerStep::WriteResult)),
        WorkerStep::Done => started && ok(WorkerStep::WriteResult),
        WorkerStep::Failed => !(started && ok(WorkerStep::WriteResult)),
    }
}

/// The worker always ends, with no step taken twice and each taken exactly when
/// `is_worker_step_taken` says. A driver that was started is stopped. Once the request is known, a
/// result is left behind: the outcome of the batch, or the error.
#[verifier::rlimit(40)]
pub proof fn worker_ends_clean(ok: spec_fn(WorkerStep) -> bool, step: WorkerStep)
    ensures
        ({
            let steps = steps_from(WorkerStep::TakeRequestPath, ok);
            &&& steps.len() > 0
            &&& steps.no_duplicates()
            &&& steps.contains(step) <==> is_worker_step_taken(step, ok)
            &&& steps.last() == if is_worker_step_taken(WorkerStep::Done, ok) {
                WorkerStep::Done
            } else {
                WorkerStep::Failed
            }
            &&& is_worker_step_taken(WorkerStep::StartDriver, ok) && ok(WorkerStep::StartDriver)
                <==> is_worker_step_taken(WorkerStep::StopDriver, ok) || is_worker_step_taken(
                WorkerStep::StopDriverAfterError,
                ok,
            )
            &&& is_worker_step_taken(WorkerStep::ReadRequest, ok) ==> is_worker_step_taken(
                WorkerStep::Done,
                ok,
            ) || is_worker_step_taken(WorkerStep::WriteError, ok)
        }),
{
    lemma_steps_from(WorkerStep::Failed, ok, step);
    lemma_steps_from(WorkerStep::Done, ok, step);
    lemma_steps_from(WorkerStep::WriteError, ok, step);
    lemma_steps_from(WorkerStep::FreeLibraryAfterError, ok, step);
    lemma_steps_from(WorkerStep::StopDriverAfterError, ok, step);
    lemma_steps_from(WorkerStep::FreeLibrary, ok, step);
    lemma_steps_from(WorkerStep::StopDriver, ok, step);
    lemma_steps_from(WorkerStep::WriteResult, ok, step);
    lemma_steps_from(WorkerStep::RunBatch, ok, step);
    lemma_steps_from(WorkerStep::StartDriver, ok, step);
    lemma_steps_from(WorkerStep::FindFunctions, ok, step);
    lemma_steps_from(WorkerStep::LoadLibrary, ok, step);
    lemma_steps_from(WorkerStep::CheckLibrary, ok, step);
    lemma_steps_from(WorkerStep::LocateHost, ok, step);
    lemma_steps_from(WorkerStep::ReadRequest, ok, step);
    lemma_steps_from(WorkerStep::TakeRequestPath, ok, step);
    lemma_no_step_twice(WorkerStep::TakeRequestPath, ok);
}

/// Every run of the worker, step by step, with what follows each failure. Nothing that goes wrong
/// with stopping the driver, freeing its library or writing the error makes a difference.
#[verifier::rlimit(80)]
pub proof fn workers_go_step_by_step(ok: spec_fn(WorkerStep) -> bool)
    ensures
        steps_from(WorkerStep::TakeRequestPath, ok) == if !ok(WorkerStep::TakeRequestPath) {
            seq![WorkerStep::TakeRequestPath, WorkerStep::Failed]
        } else if !ok(WorkerStep::ReadRequest) {
            seq![
                WorkerStep::TakeRequestPath,
                WorkerStep::ReadRequest,
                WorkerStep::WriteError,
                WorkerStep::Failed,
            ]
        } else if !ok(WorkerStep::LocateHost) {
            seq![
                WorkerStep::TakeRequestPath,
                WorkerStep::ReadRequest,
                WorkerStep::LocateHost,
                WorkerStep::WriteError,
                WorkerStep::Failed,
            ]
        } else if !ok(WorkerStep::CheckLibrary) {
            seq![
                WorkerStep::TakeRequestPath,
                WorkerStep::ReadRequest,
                WorkerStep::LocateHost,
                WorkerStep::CheckLibrary,
                WorkerStep::WriteError,
                WorkerStep::Failed,
            ]
        } else if !ok(WorkerStep::LoadLibrary) {
            seq![
                WorkerStep::TakeRequestPath,
                WorkerStep::ReadRequest,
                WorkerStep::LocateHost,
                WorkerStep::CheckLibrary,
                WorkerStep::LoadLibrary,
                WorkerStep::WriteError,
                WorkerStep::Failed,
            ]
        } else if !ok(WorkerStep::FindFunctions) {
            seq![
                WorkerStep::TakeRequestPath,
                WorkerStep::ReadRequest,
                WorkerStep::LocateHost,
                WorkerStep::CheckLibrary,
                WorkerStep::LoadLibrary,
                WorkerStep::FindFunctions,
                WorkerStep::WriteError,
                WorkerStep::Failed,
            ]
        } else if !ok(WorkerStep::StartDriver) {
            seq![
                WorkerStep::TakeRequestPath,
                WorkerStep::ReadRequest,
                WorkerStep::LocateHost,
                WorkerStep::CheckLibrary,
                WorkerStep::LoadLibrary,
                WorkerStep::FindFunctions,
                WorkerStep::StartDriver,
                WorkerStep::FreeLibraryAfterError,
                WorkerStep::WriteError,
                WorkerStep::Failed,
            ]
        } else if !ok(WorkerStep::WriteResult) {
            seq![
                WorkerStep::TakeRequestPath,
                WorkerStep::ReadRequest,
                WorkerStep::LocateHost,
                WorkerStep::CheckLibrary,
                WorkerStep::LoadLibrary,
                WorkerStep::FindFunctions,
                WorkerStep::StartDriver,
                WorkerStep::RunBatch,
                WorkerStep::WriteResult,
                WorkerStep::StopDriverAfterError,
                WorkerStep::FreeLibraryAfterError,
                WorkerStep::WriteError,
                WorkerStep::Failed,
            ]
        } else {
            seq![
                WorkerStep::TakeRequestPath,
                WorkerStep::ReadRequest,
                WorkerStep::LocateHost,
                WorkerStep::CheckLibrary,
                WorkerStep::LoadLibrary,
                WorkerStep::FindFunctions,
                WorkerStep::StartDriver,
                WorkerStep::RunBatch,
                WorkerStep::WriteResult,
                WorkerStep::StopDriver,
                WorkerStep::FreeLibrary,
                WorkerStep::Done,
            ]
        },
{
    lemma_run(WorkerStep::TakeRequestPath, ok);
    lemma_run(WorkerStep::ReadRequest, ok);
    lemma_run(WorkerStep::LocateHost, ok);
    lemma_run(WorkerStep::CheckLibrary, ok);
    lemma_run(WorkerStep::LoadLibrary, ok);
    lemma_run(WorkerStep::FindFunctions, ok);
    lemma_run(WorkerStep::StartDriver, ok);
    lemma_run(WorkerStep::RunBatch, ok);
    lemma_run(WorkerStep::WriteResult, ok);
    lemma_run(WorkerStep::StopDriver, ok);
    lemma_run(WorkerStep::FreeLibrary, ok);
    lemma_run(WorkerStep::StopDriverAfterError, ok);
    lemma_run(WorkerStep::FreeLibraryAfterError, ok);
    lemma_run(WorkerStep::WriteError, ok);
    lemma_run(WorkerStep::Done, ok);
    lemma_run(WorkerStep::Failed, ok);
}

} // verus!
