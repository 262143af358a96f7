//! The steps of work with the host process, and what is given back when one of them fails.

use crate::steps::{lemma_no_step_twice, lemma_run, lemma_steps_from, steps_from, Steps};
use vstd::prelude::*;

verus! {

/// The steps of carrying out a request in the host process.
#[derive(Clone, Copy, Debug, Eq, PartialEq, Structural)]
pub enum HostStep {
    /// See whether the host and the worker are there.
    CheckFiles,
    /// Start the host, hidden.
    StartHost,
    /// Have the host load the worker.
    LoadWorker,
    /// Write the path of the request to the host.
    WriteRequestPath,
    /// Load the worker here too, to find its function.
    LoadLocalWorker,
    FindExport,
    /// Run the worker's function in the host.
    RunWorker,
    FreeLocalWorker,
    FreeRequestPath,
    EndHost,
    /// Give back the worker that was loaded here, after a failure.
    DropLocalWorker,
    /// Give back the memory of the path, after a failure.
    DropRequestPath,
    /// End the host, after a failure.
    AbandonHost,
    Done,
    Failed,
}

impl Steps for HostStep {
    open spec fn after(self, ok: bool) -> Self {
        match self {
            HostStep::CheckFiles => if ok {
                HostStep::StartHost
            } else {
                HostStep::Failed
            },
            HostStep::StartHost => if ok {
                HostStep::LoadWorker
            } else {
                HostStep::Failed
            },
            HostStep::LoadWorker => if ok {
                HostStep::WriteRequestPath
            } else {
                HostStep::AbandonHost
            },
            HostStep::WriteRequestPath => if ok {
                HostStep::LoadLocalWorker
            } else {
                HostStep::AbandonHost
            },
            HostStep::LoadLocalWorker => if ok {
                HostStep::FindExport
            } else {
                HostStep::DropRequestPath
            },
            HostStep::FindExport => if ok {
                HostStep::RunWorker
            } else {
                HostStep::DropLocalWorker
            },
            HostStep::RunWorker => if ok {
                HostStep::FreeLocalWorker
            } else {
                HostStep::DropLocalWorker
            },
            HostStep::FreeLocalWorker => HostStep::FreeRequestPath,
            HostStep::FreeRequestPath => HostStep::EndHost,
            HostStep::EndHost => HostStep::Done,
            HostStep::DropLocalWorker => HostStep::DropRequestPath,
            HostStep::DropRequestPath => HostStep::AbandonHost,
            HostStep::AbandonHost => HostStep::Failed,
            HostStep::Done => HostStep::Done,
            HostStep::Failed => HostStep::Failed,
        }
    }

    open spec fn left(self) -> nat {
        match self {
            HostStep::CheckFiles => 10,
            HostStep::StartHost => 9,
            HostStep::LoadWorker => 8,
            HostStep::WriteRequestPath => 7,
            HostStep::LoadLocalWorker => 6,
            HostStep::FindExport => 5,
            HostStep::RunWorker => 4,
            HostStep::FreeLocalWorker => 3,
            HostStep::FreeRequestPath => 2,
            HostStep::EndHost => 1,
            HostStep::DropLocalWorker => 3,
            HostStep::DropRequestPath => 2,
            HostStep::AbandonHost => 1,
            HostStep::Done => 0,
            HostStep::Failed => 0,
        }
    }

    proof fn steps_run_out(self, ok: bool) {
    }
}

/// The step that follows `step`, which went well or not.
pub fn next_host_step(step: HostStep, ok: bool) -> (next: HostStep)
    ensures
        next == step.after(ok),
{
    match step {
        HostStep::CheckFiles => {
            if ok {
                HostStep::StartHost
            } else {
                HostStep::Failed
            }
        },
        HostStep::StartHost => {
            if ok {
                HostStep::LoadWorker
            } else {
                HostStep::Failed
            }
        },
        HostStep::LoadWorker => {
            if ok {
                HostStep::WriteRequestPath
            } else {
                HostStep::AbandonHost
            }
        },
        HostStep::WriteRequestPath => {
            if ok {
                HostStep::LoadLocalWorker
            } else {
                HostStep::AbandonHost
            }
        },
        HostStep::LoadLocalWorker => {
            if ok {
                HostStep::FindExport
            } else {
                HostStep::DropRequestPath
            }
        },
        HostStep::FindExport => {
            if ok {
                HostStep::RunWorker
            } else {
                HostStep::DropLocalWorker
            }
        },
        HostStep::RunWorker => {
            if ok {
                HostStep::FreeLocalWorker
            } else {
                HostStep::DropLocalWorker
            }
        },
        HostStep::FreeLocalWorker => HostStep::FreeRequestPath,
        HostStep::FreeRequestPath => HostStep::EndHost,
        HostStep::EndHost => HostStep::Done,
        HostStep::DropLocalWorker => HostStep::DropRequestPath,
        HostStep::DropRequestPath => HostStep::AbandonHost,
        HostStep::AbandonHost => HostStep::Failed,
        HostStep::Done => HostStep::Done,
        HostStep::Failed => HostStep::Failed,
    }
}

/// When a step is taken: each of the first steps when those before it went well.
pub open spec fn is_host_step_taken(step: HostStep, ok: spec_fn(HostStep) -> bool) -> bool {
    let started = ok(HostStep::CheckFiles) && ok(HostStep::StartHost);
    let path_written = started && ok(HostStep::LoadWorker) && ok(HostStep::WriteRequestPath);
    let worker_here = path_written && ok(HostStep::LoadLocalWorker);
    let done = worker_here && ok(HostStep::FindExport) && ok(HostStep::RunWorker);
    match step {
        HostStep::CheckFiles => true,
        HostStep::StartHost => ok(HostStep::CheckFiles),
        HostStep::LoadWorker => started,
        HostStep::WriteRequestPath => started && ok(HostStep::LoadWorker),
        HostStep::LoadLocalWorker => path_written,
        HostStep::FindExport => worker_here,
        HostStep::RunWorker => worker_here && ok(HostStep::FindExport),
        HostStep::FreeLocalWorker => done,
        HostStep::FreeRequestPath => done,
        HostStep::EndHost => done,
        HostStep::DropLocalWorker => worker_here && !done,
        HostStep::DropRequestPath => path_written && !done,
        HostStep::AbandonHost => started && !done,
        HostStep::Done => done,
        HostStep::Failed => !done,
    }
}

/// Work with the host always ends, with no step taken twice and each taken exactly when
/// `is_host_step_taken` says. A host that was started is ended, whatever happens; the path written
/// to it and the worker loaded here are given back.
#[verifier::rlimit(40)]
pub proof fn host_run_leaves_nothing(ok: spec_fn(HostStep) -> bool, step: HostStep)
    ensures
        ({
            let steps = steps_from(HostStep::CheckFiles, ok);
            &&& steps.len() > 0
            &&& steps.no_duplicates()
            &&& steps.contains(step) <==> is_host_step_taken(step, ok)
            &&& steps.last() == if is_host_step_taken(HostStep::Done, ok) {
                HostStep::Done
            } else {
                HostStep::Failed
            }
            &&& is_host_step_taken(HostStep::StartHost, ok) && ok(HostStep::StartHost)
                <==> is_host_step_taken(HostStep::EndHost, ok) || is_host_step_taken(
                HostStep::AbandonHost,
                ok,
            )
            &&& is_host_step_taken(HostStep::WriteRequestPath, ok) && ok(HostStep::WriteRequestPath)
                <==> is_host_step_taken(HostStep::FreeRequestPath, ok) || is_host_step_taken(
                HostStep::DropRequestPath,
                ok,
            )
            &&& is_host_step_taken(HostStep::LoadLocalWorker, ok) && ok(HostStep::LoadLocalWorker)
                <==> is_host_step_taken(HostStep::FreeLocalWorker, ok) || is_host_step_taken(
                HostStep::DropLocalWorker,
                ok,
            )
        }),
{
    lemma_steps_from(HostStep::Done, ok, step);
    lemma_steps_from(HostStep::Failed, ok, step);
    lemma_steps_from(HostStep::EndHost, ok, step);
    lemma_steps_from(HostStep::AbandonHost, ok, step);
    lemma_steps_from(HostStep::FreeRequestPath, ok, step);
    lemma_steps_from(HostStep::DropRequestPath, ok, step);
    lemma_steps_from(HostStep::FreeLocalWorker, ok, step);
    lemma_steps_from(HostStep::DropLocalWorker, ok, step);
    lemma_steps_from(HostStep::RunWorker, ok, step);
    lemma_steps_from(HostStep::FindExport, ok, step);
    lemma_steps_from(HostStep::LoadLocalWorker, ok, step);
    lemma_steps_from(HostStep::WriteRequestPath, ok, step);
    lemma_steps_from(HostStep::LoadWorker, ok, step);
    lemma_steps_from(HostStep::StartHost, ok, step);
    lemma_steps_from(HostStep::CheckFiles, ok, step);
    lemma_no_step_twice(HostStep::CheckFiles, ok);
}

/// The steps of writing to the memory of the host.
#[derive(Clone, Copy, Debug, Eq, PartialEq, Structural)]
pub enum RemoteWriteStep {
    /// Allocate memory in the host.
    Allocate,
    /// Write to it, in full.
    Write,
    /// Give the memory back.
    Release,
    /// The memory stays, with what was written.
    Kept,
    Failed,
}

impl Steps for RemoteWriteStep {
    open spec fn after(self, ok: bool) -> Self {
        match self {
            RemoteWriteStep::Allocate => if ok {
                RemoteWriteStep::Write
            } else {
                RemoteWriteStep::Failed
            },
            RemoteWriteStep::Write => if ok {
                RemoteWriteStep::Kept
            } else {
                RemoteWriteStep::Release
            },
            RemoteWriteStep::Release => RemoteWriteStep::Failed,
            RemoteWriteStep::Kept => RemoteWriteStep::Kept,
            RemoteWriteStep::Failed => RemoteWriteStep::Failed,
        }
    }

    open spec fn left(self) -> nat {
        match self {
            RemoteWriteStep::Allocate => 3,
            RemoteWriteStep::Write => 2,
            RemoteWriteStep::Release => 1,
            RemoteWriteStep::Kept => 0,
            RemoteWriteStep::Failed => 0,
        }
    }

    proof fn steps_run_out(self, ok: bool) {
    }
}

/// The step that follows `step`, which went well or not.
pub fn next_remote_write_step(step: RemoteWriteStep, ok: bool) -> (next: RemoteWriteStep)
    ensures
        next == step.after(ok),
{
    match step {
        RemoteWriteStep::Allocate => {
            if ok {
                RemoteWriteStep::Write
            } else {
                RemoteWriteStep::Failed
            }
        },
        RemoteWriteStep::Write => {
            if ok {
                RemoteWriteStep::Kept
            } else {
                RemoteWriteStep::Release
            }
        },
        RemoteWriteStep::Release => RemoteWriteStep::Failed,
        RemoteWriteStep::Kept => RemoteWriteStep::Kept,
        RemoteWriteStep::Failed => RemoteWriteStep::Failed,
    }
}

/// When a step is taken: memory that could not be written in full, and no other, is given back.
pub open spec fn is_remote_write_step_taken(
    step: RemoteWriteStep,
    ok: spec_fn(RemoteWriteStep) -> bool,
) -> bool {
    match step {
        RemoteWriteStep::Allocate => true,
        RemoteWriteStep::Write => ok(RemoteWriteStep::Allocate),
        RemoteWriteStep::Release => ok(RemoteWriteStep::Allocate) && !ok(RemoteWriteStep::Write),
        RemoteWriteStep::Kept => ok(RemoteWriteStep::Allocate) && ok(RemoteWriteStep::Write),
        RemoteWriteStep::Failed => !(ok(RemoteWriteStep::Allocate) && ok(RemoteWriteStep::Write)),
    }
}

/// Writing always ends, with no step taken twice and each taken exactly when
/// `is_remote_write_step_taken` says.
pub proof fn remote_write_keeps_or_releases(
    ok: spec_fn(RemoteWriteStep) -> bool,
    step: RemoteWriteStep,
)
    ensures
        ({
            let steps = steps_from(RemoteWriteStep::Allocate, ok);
            &&& steps.len() > 0
            &&& steps.no_duplicates()
            &&& steps.contains(step) <==> is_remote_write_step_taken(step, ok)
            &&& steps.last() == if is_remote_write_step_taken(RemoteWriteStep::Kept, ok) {
                RemoteWriteStep::Kept
            } else {
                RemoteWriteStep::Failed
            }
        }),
{
    lemma_steps_from(RemoteWriteStep::Failed, ok, step);
    lemma_steps_from(RemoteWriteStep::Kept, ok, step);
    lemma_steps_from(RemoteWriteStep::Release, ok, step);
    lemma_steps_from(RemoteWriteStep::Write, ok, step);
    lemma_steps_from(RemoteWriteStep::Allocate, ok, step);
    lemma_no_step_twice(RemoteWriteStep::Allocate, ok);
}

/// The steps of running a thread in the host.
#[derive(Clone, Copy, Debug, Eq, PartialEq, Structural)]
pub enum RemoteThreadStep {
    Create,
    /// Wait for the end of the thread.
    Wait,
    /// Get what the thread gave. Its handle stays open where that fails.
    GetExitCode,
    /// Close the handle of the thread.
    Close,
    /// Close the handle of a thread that has not ended.
    CloseAfterFailure,
    /// The thread has ended and its exit code is known.
    Ended,
    Failed,
}

impl Steps for RemoteThreadStep {
    open spec fn after(self, ok: bool) -> Self {
        match self {
            RemoteThreadStep::Create => if ok {
                RemoteThreadStep::Wait
            } else {
                RemoteThreadStep::Failed
            },
            RemoteThreadStep::Wait => if ok {
                RemoteThreadStep::GetExitCode
            } else {
                RemoteThreadStep::CloseAfterFailure
            },
            RemoteThreadStep::GetExitCode => if ok {
                RemoteThreadStep::Close
            } else {
                RemoteThreadStep::Failed
            },
            RemoteThreadStep::Close => RemoteThreadStep::Ended,
            RemoteThreadStep::CloseAfterFailure => RemoteThreadStep::Failed,
            RemoteThreadStep::Ended => RemoteThreadStep::Ended,
            RemoteThreadStep::Failed => RemoteThreadStep::Failed,
        }
    }

    open spec fn left(self) -> nat {
        match self {
            RemoteThreadStep::Create => 4,
            RemoteThreadStep::Wait => 3,
            RemoteThreadStep::GetExitCode => 2,
            RemoteThreadStep::Close => 1,
            RemoteThreadStep::CloseAfterFailure => 1,
            RemoteThreadStep::Ended => 0,
            RemoteThreadStep::Failed => 0,
        }
    }

    proof fn steps_run_out(self, ok: bool) {
    }
}

/// The step that follows `step`, which went well or not.
pub fn next_remote_thread_step(step: RemoteThreadStep, ok: bool) -> (next: RemoteThreadStep)
    ensures
        next == step.after(ok),
{
    match step {
        RemoteThreadStep::Create => {
            if ok {
                RemoteThreadStep::Wait
            } else {
                RemoteThreadStep::Failed
            }
        },
        RemoteThreadStep::Wait => {
            if ok {
                RemoteThreadStep::GetExitCode
            } else {
                RemoteThreadStep::CloseAfterFailure
            }
        },
        RemoteThreadStep::GetExitCode => {
            if ok {
                RemoteThreadStep::Close
            } else {
                RemoteThreadStep::Failed
            }
        },
        RemoteThreadStep::Close => RemoteThreadStep::Ended,
        RemoteThreadStep::CloseAfterFailure => RemoteThreadStep::Failed,
        RemoteThreadStep::Ended => RemoteThreadStep::Ended,
        RemoteThreadStep::Failed => RemoteThreadStep::Failed,
    }
}

/// When a step is taken: each when those before it went well.
pub open spec fn is_remote_thread_step_taken(
    step: RemoteThreadStep,
    ok: spec_fn(RemoteThreadStep) -> bool,
) -> bool {
    match step {
        RemoteThreadStep::Create => true,
        RemoteThreadStep::Wait => ok(RemoteThreadStep::Create),
        RemoteThreadStep::GetExitCode => ok(RemoteThreadStep::Create) && ok(RemoteThreadStep::Wait),
        RemoteThreadStep::Close => ok(RemoteThreadStep::Create) && ok(RemoteThreadStep::Wait)
            && ok(RemoteThreadStep::GetExitCode),
        RemoteThreadStep::CloseAfterFailure => ok(RemoteThreadStep::Create)
            && !ok(RemoteThreadStep::Wait),
        RemoteThreadStep::Ended => ok(RemoteThreadStep::Create) && ok(RemoteThreadStep::Wait)
            && ok(RemoteThreadStep::GetExitCode),
        RemoteThreadStep::Failed => !(ok(RemoteThreadStep::Create) && ok(RemoteThreadStep::Wait)
            && ok(RemoteThreadStep::GetExitCode)),
    }
}

/// Running a thread always ends, with no step taken twice and each taken exactly when
/// `is_remote_thread_step_taken` says.
pub proof fn remote_thread_is_waited_for(
    ok: spec_fn(RemoteThreadStep) -> bool,
    step: RemoteThreadStep,
)
    ensures
        ({
            let steps = steps_from(RemoteThreadStep::Create, ok);
            &&& steps.len() > 0
            &&& steps.no_duplicates()
            &&& steps.contains(step) <==> is_remote_thread_step_taken(step, ok)
            &&& steps.last() == if is_remote_thread_step_taken(RemoteThreadStep::Ended, ok) {
                RemoteThreadStep::Ended
            } else {
                RemoteThreadStep::Failed
            }
        }),
{
    lemma_steps_from(RemoteThreadStep::Failed, ok, step);
    lemma_steps_from(RemoteThreadStep::Ended, ok, step);
    lemma_steps_from(RemoteThreadStep::CloseAfterFailure, ok, step);
    lemma_steps_from(RemoteThreadStep::Close, ok, step);
    lemma_steps_from(RemoteThreadStep::GetExitCode, ok, step);
    lemma_steps_from(RemoteThreadStep::Wait, ok, step);
    lemma_steps_from(RemoteThreadStep::Create, ok, step);
    lemma_no_step_twice(RemoteThreadStep::Create, ok);
}

/// The steps of having the host load a library.
#[derive(Clone, Copy, Debug, Eq, PartialEq, Structural)]
pub enum LoadStep {
    /// Write the path of the library to the host.
    WritePath,
    /// Find the system's function that loads a library.
    FindLoader,
    /// Run that function in the host and see that it gave a module.
    RunLoader,
    /// Give back the memory of the path.
    FreePath,
    /// Give back the memory of the path, after a failure.
    DropPath,
    /// The host has loaded the library.
    Loaded,
    Failed,
}

impl Steps for LoadStep {
    open spec fn after(self, ok: bool) -> Self {
        match self {
            LoadStep::WritePath => if ok {
                LoadStep::FindLoader
            } else {
                LoadStep::Failed
            },
            LoadStep::FindLoader => if ok {
                LoadStep::RunLoader
            } else {
                LoadStep::DropPath
            },
            LoadStep::RunLoader => if ok {
                LoadStep::FreePath
            } else {
                LoadStep::DropPath
            },
            LoadStep::FreePath => LoadStep::Loaded,
            LoadStep::DropPath => LoadStep::Failed,
            LoadStep::Loaded => LoadStep::Loaded,
            LoadStep::Failed => LoadStep::Failed,
        }
    }

    open spec fn left(self) -> nat {
        match self {
            LoadStep::WritePath => 4,
            LoadStep::FindLoader => 3,
            LoadStep::RunLoader => 2,
            LoadStep::FreePath => 1,
            LoadStep::DropPath => 1,
            LoadStep::Loaded => 0,
            LoadStep::Failed => 0,
        }
    }

    proof fn steps_run_out(self, ok: bool) {
    }
}

/// The step that follows `step`, which went well or not.
pub fn next_load_step(step: LoadStep, ok: bool) -> (next: LoadStep)
    ensures
        next == step.after(ok),
{
    match step {
        LoadStep::WritePath => {
            if ok {
                LoadStep::FindLoader
            } else {
                LoadStep::Failed
            }
        },
        LoadStep::FindLoader => {
            if ok {
                LoadStep::RunLoader
            } else {
                LoadStep::DropPath
            }
        },
        LoadStep::RunLoader => {
            if ok {
                LoadStep::FreePath
            } else {
                LoadStep::DropPath
            }
        },
        LoadStep::FreePath => LoadStep::Loaded,
        LoadStep::DropPath => LoadStep::Failed,
        LoadStep::Loaded => LoadStep::Loaded,
        LoadStep::Failed => LoadStep::Failed,
    }
}

/// When a step is taken: each of the first steps when those before it went well.
pub open spec fn is_load_step_taken(step: LoadStep, ok: spec_fn(LoadStep) -> bool) -> bool {
    let written = ok(LoadStep::WritePath);
    let loaded = written && ok(LoadStep::FindLoader) && ok(LoadStep::RunLoader);
    match step {
        LoadStep::WritePath => true,
        LoadStep::FindLoader => written,
        LoadStep::RunLoader => written && ok(LoadStep::FindLoader),
        LoadStep::FreePath => loaded,
        LoadStep::DropPath => written && !loaded,
        LoadStep::Loaded => loaded,
        LoadStep::Failed => !loaded,
    }
}

/// Loading always ends, with no step taken twice and each taken exactly when `is_load_step_taken`
/// says. The memory of the path is given back, once, exactly if it was written.
pub proof fn load_gives_back_the_path(ok: spec_fn(LoadStep) -> bool, step: LoadStep)
    ensures
        ({
            let steps = steps_from(LoadStep::WritePath, ok);
            &&& steps.len() > 0
            &&& steps.no_duplicates()
            &&& steps.contains(step) <==> is_load_step_taken(step, ok)
            &&& steps.last() == if is_load_step_taken(LoadStep::Loaded, ok) {
                LoadStep::Loaded
            } else {
                LoadStep::Failed
            }
            &&& ok(LoadStep::WritePath) <==> is_load_step_taken(LoadStep::FreePath, ok)
                || is_load_step_taken(LoadStep::DropPath, ok)
            &&& !(is_load_step_taken(LoadStep::FreePath, ok) && is_load_step_taken(
                LoadStep::DropPath,
                ok,
            ))
        }),
{
    lemma_steps_from(LoadStep::Failed, ok, step);
    lemma_steps_from(LoadStep::Loaded, ok, step);
    lemma_steps_from(LoadStep::DropPath, ok, step);
    lemma_steps_from(LoadStep::FreePath, ok, step);
    lemma_steps_from(LoadStep::RunLoader, ok, step);
    lemma_steps_from(LoadStep::FindLoader, ok, step);
    lemma_steps_from(LoadStep::WritePath, ok, step);
    lemma_no_step_twice(LoadStep::WritePath, ok);
}

/// Every run through the host, step by step, with what follows each failure. Nothing that goes
/// wrong with giving something back makes a difference.
#[verifier::rlimit(80)]
pub proof fn host_runs_go_step_by_step(ok: spec_fn(HostStep) -> bool)
    ensures
        steps_from(HostStep::CheckFiles, ok) == if !ok(HostStep::CheckFiles) {
            seq![HostStep::CheckFiles, HostStep::Failed]
        } else if !ok(HostStep::StartHost) {
            seq![HostStep::CheckFiles, HostStep::StartHost, HostStep::Failed]
        } else if !ok(HostStep::LoadWorker) {
            seq![
                HostStep::CheckFiles,
                HostStep::StartHost,
                HostStep::LoadWorker,
                HostStep::AbandonHost,
                HostStep::Failed,
            ]
        } else if !ok(HostStep::WriteRequestPath) {
            seq![
                HostStep::CheckFiles,
                HostStep::StartHost,
                HostStep::LoadWorker,
                HostStep::WriteRequestPath,
                HostStep::AbandonHost,
                HostStep::Failed,
            ]
        } else if !ok(HostStep::LoadLocalWorker) {
            seq![
                HostStep::CheckFiles,
                HostStep::StartHost,
                HostStep::LoadWorker,
                HostStep::WriteRequestPath,
                HostStep::LoadLocalWorker,
                HostStep::DropRequestPath,
                HostStep::AbandonHost,
                HostStep::Failed,
            ]
        } else if !ok(HostStep::FindExport) {
            seq![
                HostStep::CheckFiles,
                HostStep::StartHost,
                HostStep::LoadWorker,
                HostStep::WriteRequestPath,
                HostStep::LoadLocalWorker,
                HostStep::FindExport,
                HostStep::DropLocalWorker,
                HostStep::DropRequestPath,
                HostStep::AbandonHost,
                HostStep::Failed,
            ]
        } else if !ok(HostStep::RunWorker) {
            seq![
                HostStep::CheckFiles,
                HostStep::StartHost,
                HostStep::LoadWorker,
                HostStep::WriteRequestPath,
                HostStep::LoadLocalWorker,
                HostStep::FindExport,
                HostStep::RunWorker,
                HostStep::DropLocalWorker,
                HostStep::DropRequestPath,
                HostStep::AbandonHost,
                HostStep::Failed,
            ]
        } else {
            seq![
                HostStep::CheckFiles,
                HostStep::StartHost,
                HostStep::LoadWorker,
                HostStep::WriteRequestPath,
                HostStep::LoadLocalWorker,
                HostStep::FindExport,
                HostStep::RunWorker,
                HostStep::FreeLocalWorker,
                HostStep::FreeRequestPath,
                HostStep::EndHost,
                HostStep::Done,
            ]
        },
{
    lemma_run(HostStep::CheckFiles, ok);
    lemma_run(HostStep::StartHost, ok);
    lemma_run(HostStep::LoadWorker, ok);
    lemma_run(HostStep::WriteRequestPath, ok);
    lemma_run(HostStep::LoadLocalWorker, ok);
    lemma_run(HostStep::FindExport, ok);
    lemma_run(HostStep::RunWorker, ok);
    lemma_run(HostStep::FreeLocalWorker, ok);
    lemma_run(HostStep::FreeRequestPath, ok);
    lemma_run(HostStep::EndHost, ok);
    lemma_run(HostStep::DropLocalWorker, ok);
    lemma_run(HostStep::DropRequestPath, ok);
    lemma_run(HostStep::AbandonHost, ok);
    lemma_run(HostStep::Done, ok);
    lemma_run(HostStep::Failed, ok);
}

/// Every write to the host, step by step, with what follows each failure.
#[verifier::rlimit(80)]
pub proof fn remote_writes_go_step_by_step(ok: spec_fn(RemoteWriteStep) -> bool)
    ensures
        steps_from(RemoteWriteStep::Allocate, ok) == if !ok(RemoteWriteStep::Allocate) {
            seq![RemoteWriteStep::Allocate, RemoteWriteStep::Failed]
        } else if !ok(RemoteWriteStep::Write) {
            seq![
                RemoteWriteStep::Allocate,
                RemoteWriteStep::Write,
                RemoteWriteStep::Release,
                RemoteWriteStep::Failed,
            ]
        } else {
            seq![RemoteWriteStep::Allocate, RemoteWriteStep::Write, RemoteWriteStep::Kept]
        },
{
    lemma_run(RemoteWriteStep::Allocate, ok);
    lemma_run(RemoteWriteStep::Write, ok);
    lemma_run(RemoteWriteStep::Release, ok);
    lemma_run(RemoteWriteStep::Kept, ok);
    lemma_run(RemoteWriteStep::Failed, ok);
}

/// Every thread in the host, step by step, with what follows each failure.
#[verifier::rlimit(80)]
pub proof fn remote_threads_go_step_by_step(ok: spec_fn(RemoteThreadStep) -> bool)
    ensures
        steps_from(RemoteThreadStep::Create, ok) == if !ok(RemoteThreadStep::Create) {
            seq![RemoteThreadStep::Create, RemoteThreadStep::Failed]
        } else if !ok(RemoteThreadStep::Wait) {
            seq![
                RemoteThreadStep::Create,
                RemoteThreadStep::Wait,
                RemoteThreadStep::CloseAfterFailure,
                RemoteThreadStep::Failed,
            ]
        } else if !ok(RemoteThreadStep::GetExitCode) {
            seq![
                RemoteThreadStep::Create,
                RemoteThreadStep::Wait,
                RemoteThreadStep::GetExitCode,
                RemoteThreadStep::Failed,
            ]
        } else {
            seq![
                RemoteThreadStep::Create,
                RemoteThreadStep::Wait,
                RemoteThreadStep::GetExitCode,
                RemoteThreadStep::Close,
                RemoteThreadStep::Ended,
            ]
        },
{
    lemma_run(RemoteThreadStep::Create, ok);
    lemma_run(RemoteThreadStep::Wait, ok);
    lemma_run(RemoteThreadStep::GetExitCode, ok);
    lemma_run(RemoteThreadStep::Close, ok);
    lemma_run(RemoteThreadStep::CloseAfterFailure, ok);
    lemma_run(RemoteThreadStep::Ended, ok);
    lemma_run(RemoteThreadStep::Failed, ok);
}

/// Every loading of a library, step by step, with what follows each failure.
#[verifier::rlimit(80)]
pub proof fn loads_go_step_by_step(ok: spec_fn(LoadStep) -> bool)
    ensures
        steps_from(LoadStep::WritePath, ok) == if !ok(LoadStep::WritePath) {
            seq![LoadStep::WritePath, LoadStep::Failed]
        } else if !ok(LoadStep::FindLoader) {
            seq![
                LoadStep::WritePath,
                LoadStep::FindLoader,
                LoadStep::DropPath,
                LoadStep::Failed,
            ]
        } else if !ok(LoadStep::RunLoader) {
            seq![
                LoadStep::WritePath,
                LoadStep::FindLoader,
                LoadStep::RunLoader,
                LoadStep::DropPath,
                LoadStep::Failed,
            ]
        } else {
            seq![
                LoadStep::WritePath,
                LoadStep::FindLoader,
                LoadStep::RunLoader,
                LoadStep::FreePath,
                LoadStep::Loaded,
            ]
        },
{
    lemma_run(LoadStep::WritePath, ok);
    lemma_run(LoadStep::FindLoader, ok);
    lemma_run(LoadStep::RunLoader, ok);
    lemma_run(LoadStep::FreePath, ok);
    lemma_run(LoadStep::DropPath, ok);
    lemma_run(LoadStep::Loaded, ok);
    lemma_run(LoadStep::Failed, ok);
}

} // verus!
