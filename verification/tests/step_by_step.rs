use iobitunlocker_shell_bridge::helper_run::{next_helper_step, HelperStep};
use iobitunlocker_shell_bridge::host_run::{
    next_host_step, next_load_step, next_remote_thread_step, next_remote_write_step, HostStep,
    LoadStep, RemoteThreadStep, RemoteWriteStep,
};
use iobitunlocker_shell_bridge::launch::{next_launch_step, LaunchStep};
use iobitunlocker_shell_bridge::worker_run::{next_worker_step, worker_exit_code, WorkerStep};

fn taken<S: Copy + PartialEq>(first: S, ends: &[S], failing: &[S], next: fn(S, bool) -> S) -> Vec<S> {
    let mut step = first;
    let mut steps = vec![step];
    while !ends.contains(&step) {
        step = next(step, !failing.contains(&step));
        steps.push(step);
    }
    steps
}

fn launch(failing: &[LaunchStep]) -> Vec<LaunchStep> {
    taken(
        LaunchStep::CheckHelper,
        &[LaunchStep::Launched, LaunchStep::Failed],
        failing,
        next_launch_step,
    )
}

#[test]
fn a_selection_is_launched_once() {
    assert_eq!(launch(&[]), [LaunchStep::CheckHelper, LaunchStep::WriteRequest, LaunchStep::StartHelper, LaunchStep::Launched]);
    assert_eq!(launch(&[LaunchStep::CheckHelper]), [LaunchStep::CheckHelper, LaunchStep::ShowError, LaunchStep::Failed]);
    assert_eq!(launch(&[LaunchStep::WriteRequest]), [LaunchStep::CheckHelper, LaunchStep::WriteRequest, LaunchStep::Failed]);
    assert_eq!(
        launch(&[LaunchStep::StartHelper]),
        [LaunchStep::CheckHelper, LaunchStep::WriteRequest, LaunchStep::StartHelper, LaunchStep::RemoveRequest, LaunchStep::ShowError, LaunchStep::Failed]
    );
}

fn helper(failing: &[HelperStep]) -> Vec<HelperStep> {
    taken(HelperStep::ReadArguments, &[HelperStep::Done], failing, next_helper_step)
}

#[test]
fn a_helper_that_succeeds_shows_nothing() {
    let steps = helper(&[]);
    assert!(!steps.contains(&HelperStep::ShowError));
    assert!(!steps.contains(&HelperStep::ShowFailures));
    assert!(steps.contains(&HelperStep::RemoveFiles));
    assert_eq!(steps.len(), 10);
}

#[test]
fn a_helper_shows_failures_once() {
    let steps = helper(&[HelperStep::CheckFailures]);
    assert_eq!(
        steps[steps.len() - 4..],
        [
            HelperStep::CheckFailures,
            HelperStep::ShowFailures,
            HelperStep::RemoveFiles,
            HelperStep::Done
        ]
    );
    assert!(!steps.contains(&HelperStep::ShowError));
}

#[test]
fn a_helper_that_fails_removes_its_files_and_shows_the_error() {
    for failing in [
        HelperStep::ReadRequest,
        HelperStep::RunHost,
        HelperStep::ReadResult,
        HelperStep::CheckError,
    ] {
        let steps = helper(&[failing]);
        assert_eq!(
            steps[steps.len() - 4..],
            [
                failing,
                HelperStep::RemoveFilesAfterError,
                HelperStep::ShowError,
                HelperStep::Done
            ]
        );
    }
    for failing in [HelperStep::ReadArguments, HelperStep::LocateHelper] {
        let steps = helper(&[failing]);
        assert_eq!(
            steps[steps.len() - 3..],
            [failing, HelperStep::ShowError, HelperStep::Done]
        );
    }
}

fn worker(failing: &[WorkerStep]) -> Vec<WorkerStep> {
    taken(
        WorkerStep::TakeRequestPath,
        &[WorkerStep::Done, WorkerStep::Failed],
        failing,
        next_worker_step,
    )
}

#[test]
fn a_worker_stops_the_driver_that_it_started() {
    let steps = worker(&[]);
    assert_eq!(
        steps[steps.len() - 4..],
        [
            WorkerStep::WriteResult,
            WorkerStep::StopDriver,
            WorkerStep::FreeLibrary,
            WorkerStep::Done
        ]
    );
    assert_eq!(steps.len(), 12);
    let steps = worker(&[WorkerStep::WriteResult]);
    assert_eq!(
        steps[steps.len() - 5..],
        [
            WorkerStep::WriteResult,
            WorkerStep::StopDriverAfterError,
            WorkerStep::FreeLibraryAfterError,
            WorkerStep::WriteError,
            WorkerStep::Failed
        ]
    );
    let steps = worker(&[WorkerStep::StartDriver]);
    assert_eq!(
        steps[steps.len() - 4..],
        [
            WorkerStep::StartDriver,
            WorkerStep::FreeLibraryAfterError,
            WorkerStep::WriteError,
            WorkerStep::Failed
        ]
    );
}

#[test]
fn a_worker_that_fails_leaves_its_error() {
    for failing in [
        WorkerStep::ReadRequest,
        WorkerStep::LocateHost,
        WorkerStep::CheckLibrary,
        WorkerStep::LoadLibrary,
        WorkerStep::FindFunctions,
    ] {
        let steps = worker(&[failing]);
        assert_eq!(
            steps[steps.len() - 3..],
            [failing, WorkerStep::WriteError, WorkerStep::Failed]
        );
    }
    assert_eq!(
        worker(&[WorkerStep::TakeRequestPath]),
        [WorkerStep::TakeRequestPath, WorkerStep::Failed]
    );
    assert_eq!(worker_exit_code(WorkerStep::Done), 0);
    assert_eq!(worker_exit_code(WorkerStep::Failed), 1);
}

fn host(failing: &[HostStep]) -> Vec<HostStep> {
    taken(
        HostStep::CheckFiles,
        &[HostStep::Done, HostStep::Failed],
        failing,
        next_host_step,
    )
}

#[test]
fn a_host_that_was_started_is_ended() {
    let steps = host(&[]);
    assert_eq!(
        steps[steps.len() - 5..],
        [
            HostStep::RunWorker,
            HostStep::FreeLocalWorker,
            HostStep::FreeRequestPath,
            HostStep::EndHost,
            HostStep::Done
        ]
    );
    for failing in [HostStep::CheckFiles, HostStep::StartHost] {
        let steps = host(&[failing]);
        assert_eq!(steps[steps.len() - 2..], [failing, HostStep::Failed]);
    }
    for failing in [HostStep::LoadWorker, HostStep::WriteRequestPath] {
        let steps = host(&[failing]);
        assert_eq!(
            steps[steps.len() - 3..],
            [failing, HostStep::AbandonHost, HostStep::Failed]
        );
    }
    let steps = host(&[HostStep::LoadLocalWorker]);
    assert_eq!(
        steps[steps.len() - 4..],
        [
            HostStep::LoadLocalWorker,
            HostStep::DropRequestPath,
            HostStep::AbandonHost,
            HostStep::Failed
        ]
    );
    for failing in [HostStep::FindExport, HostStep::RunWorker] {
        let steps = host(&[failing]);
        assert_eq!(
            steps[steps.len() - 5..],
            [
                failing,
                HostStep::DropLocalWorker,
                HostStep::DropRequestPath,
                HostStep::AbandonHost,
                HostStep::Failed
            ]
        );
    }
}

#[test]
fn memory_of_the_host_is_kept_or_given_back() {
    let write = |failing: &[RemoteWriteStep]| {
        taken(
            RemoteWriteStep::Allocate,
            &[RemoteWriteStep::Kept, RemoteWriteStep::Failed],
            failing,
            next_remote_write_step,
        )
    };
    assert_eq!(write(&[]), [RemoteWriteStep::Allocate, RemoteWriteStep::Write, RemoteWriteStep::Kept]);
    assert_eq!(write(&[RemoteWriteStep::Allocate]), [RemoteWriteStep::Allocate, RemoteWriteStep::Failed]);
    assert_eq!(write(&[RemoteWriteStep::Write]), [RemoteWriteStep::Allocate, RemoteWriteStep::Write, RemoteWriteStep::Release, RemoteWriteStep::Failed]);
}

#[test]
fn a_loaded_library_leaves_no_path_in_the_host() {
    let load = |failing: &[LoadStep]| {
        taken(
            LoadStep::WritePath,
            &[LoadStep::Loaded, LoadStep::Failed],
            failing,
            next_load_step,
        )
    };
    assert_eq!(
        load(&[]),
        [
            LoadStep::WritePath,
            LoadStep::FindLoader,
            LoadStep::RunLoader,
            LoadStep::FreePath,
            LoadStep::Loaded,
        ]
    );
    assert_eq!(load(&[LoadStep::WritePath]), [LoadStep::WritePath, LoadStep::Failed]);
    for failing in [LoadStep::FindLoader, LoadStep::RunLoader] {
        let steps = load(&[failing]);
        assert_eq!(steps[steps.len() - 3..], [failing, LoadStep::DropPath, LoadStep::Failed]);
        assert!(!steps.contains(&LoadStep::FreePath));
    }
    assert_eq!(next_load_step(LoadStep::Loaded, false), LoadStep::Loaded);
    assert_eq!(next_load_step(LoadStep::Failed, true), LoadStep::Failed);
}

#[test]
fn threads_of_the_host_are_waited_for() {
    let thread = |failing: &[RemoteThreadStep]| {
        taken(
            RemoteThreadStep::Create,
            &[RemoteThreadStep::Ended, RemoteThreadStep::Failed],
            failing,
            next_remote_thread_step,
        )
    };
    assert_eq!(thread(&[]), [RemoteThreadStep::Create, RemoteThreadStep::Wait, RemoteThreadStep::GetExitCode, RemoteThreadStep::Close, RemoteThreadStep::Ended]);
    assert_eq!(thread(&[RemoteThreadStep::Create]), [RemoteThreadStep::Create, RemoteThreadStep::Failed]);
    assert_eq!(thread(&[RemoteThreadStep::Wait]), [RemoteThreadStep::Create, RemoteThreadStep::Wait, RemoteThreadStep::CloseAfterFailure, RemoteThreadStep::Failed]);
    assert_eq!(thread(&[RemoteThreadStep::GetExitCode]), [RemoteThreadStep::Create, RemoteThreadStep::Wait, RemoteThreadStep::GetExitCode, RemoteThreadStep::Failed]);
}
