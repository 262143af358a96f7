//! The official host process in which the worker runs: what has to be there, how long it may take
//! and what its replies mean.

use crate::decimal::{decimal_of, push_decimal};
use crate::outcome::{error_in, fatal_error_is_read, fatal_outcome, outcome_of, outcome_text_of};
use crate::paths::{
    join_of, unlocker_dll_path_for_dir, unlocker_exe_path_for_dir, worker_dll_path_for_dir,
};
use crate::text::{lemma_lines_of_line, lemma_trim_of_fixed, lines_of};
use vstd::prelude::*;

verus! {

/// How long loading the worker into the host may take.
pub const REMOTE_LOAD_LIBRARY_TIMEOUT_MS: u32 = 30_000;

/// How long the worker may take, before what its paths add.
pub const REMOTE_WORKER_BASE_TIMEOUT_MS: u32 = 30_000;

/// What each path adds to the time that the worker may take.
pub const REMOTE_WORKER_TIMEOUT_PER_ITEM_MS: u32 = 15_000;

/// The longest time that the worker may take.
pub const REMOTE_WORKER_TIMEOUT_MAX_MS: u32 = 15 * 60 * 1000;

/// How long the host may take to start.
pub const INPUT_IDLE_TIMEOUT_MS: u32 = 5_000;

/// How long the host may take to end.
pub const PROCESS_EXIT_WAIT_MS: u32 = 2_000;

/// How long the host is left alone once it has started.
pub const HOST_START_SETTLE_MS: u64 = 500;

/// The worker's function that takes a request.
pub const WORKER_EXPORT_NAME: &'static str = "RunBridgeRequestW";

/// The error when the worker could not be loaded into the host.
pub const NULL_MODULE_MESSAGE: &'static str = "remote LoadLibraryW returned null module handle";

/// The time, in milliseconds, that the worker may take over `path_count` paths.
pub open spec fn worker_timeout_of(path_count: nat) -> nat {
    let wanted = 30_000 + 15_000 * path_count;
    if wanted < 900_000 {
        wanted
    } else {
        900_000
    }
}

/// The time, in milliseconds, that the worker may take over `path_count` paths.
pub fn worker_timeout_ms(path_count: usize) -> (timeout: u32)
    ensures
        timeout == worker_timeout_of(path_count as nat),
{
    let per_item: usize = REMOTE_WORKER_TIMEOUT_PER_ITEM_MS as usize;
    assert(path_count * per_item == 15_000 * path_count) by (nonlinear_arith)
        requires
            per_item == 15_000,
    ;
    let extra: usize = match path_count.checked_mul(per_item) {
        Some(extra) => extra,
        None => usize::MAX,
    };
    let extra: u32 = if extra < u32::MAX as usize {
        extra as u32
    } else {
        u32::MAX
    };
    let timeout: u32 = REMOTE_WORKER_BASE_TIMEOUT_MS.saturating_add(extra);
    if timeout < REMOTE_WORKER_TIMEOUT_MAX_MS {
        timeout
    } else {
        REMOTE_WORKER_TIMEOUT_MAX_MS
    }
}

/// More paths never shorten the time that the worker may take, and it stays between the base and
/// the longest time.
pub proof fn worker_timeout_grows(path_count: nat, more: nat)
    requires
        path_count <= more,
    ensures
        30_000 <= worker_timeout_of(path_count) <= worker_timeout_of(more) <= 900_000,
{
}

/// What is said when IObit Unlocker's program is not in the deployment directory.
pub open spec fn missing_host_message_of(host_path: Seq<char>) -> Seq<char> {
    "未找到官方宿主 IObitUnlocker.exe：\n"@ + host_path
}

/// What is said when the worker is not in the deployment directory.
pub open spec fn missing_worker_message_of(worker_path: Seq<char>) -> Seq<char> {
    "未找到 worker DLL：\n"@ + worker_path
}

/// Whether the host can be started from `dir`, where the program and the worker are there or not.
/// The program is missed first.
pub fn check_host_files(dir: &str, host_is_file: bool, worker_is_file: bool) -> (r: Result<
    (),
    String,
>)
    ensures
        match r {
            Ok(_) => host_is_file && worker_is_file,
            Err(message) => if !host_is_file {
                message@ == missing_host_message_of(join_of(dir@, "IObitUnlocker.exe"@))
            } else {
                !worker_is_file && message@ == missing_worker_message_of(
                    join_of(dir@, "iobitunlocker_shell_bridge_worker.dll"@),
                )
            },
        },
{
    if !host_is_file {
        let mut message = String::new();
        message.append("未找到官方宿主 IObitUnlocker.exe：\n");
        let path: String = unlocker_exe_path_for_dir(dir);
        message.append(path.as_str());
        return Err(message);
    }
    if !worker_is_file {
        let mut message = String::new();
        message.append("未找到 worker DLL：\n");
        let path: String = worker_dll_path_for_dir(dir);
        message.append(path.as_str());
        return Err(message);
    }
    Ok(())
}

/// What the worker says when IObit Unlocker's library is not beside its host.
pub open spec fn missing_driver_message_of(library_path: Seq<char>) -> Seq<char> {
    "worker did not find IObitUnlocker.dll:\n"@ + library_path
}

/// Whether the worker can load IObit Unlocker's library from `dir`, where it is there or not.
pub fn check_driver_file(dir: &str, library_is_file: bool) -> (r: Result<(), String>)
    ensures
        match r {
            Ok(_) => library_is_file,
            Err(message) => !library_is_file && message@ == missing_driver_message_of(
                join_of(dir@, "IObitUnlocker.dll"@),
            ),
        },
{
    if library_is_file {
        return Ok(());
    }
    let mut message = String::new();
    message.append("worker did not find IObitUnlocker.dll:\n");
    let path: String = unlocker_dll_path_for_dir(dir);
    message.append(path.as_str());
    Err(message)
}

/// A missing library is told of by the first line of what the worker says, without the path, unless
/// a line of the path reads as an error itself.
pub proof fn missing_driver_is_told_of(library_path: Seq<char>)
    requires
        forall|i: int|
            0 <= i < lines_of(library_path).len() ==> error_in(
                #[trigger] lines_of(library_path)[i],
            ) is None,
    ensures
        outcome_of(
            outcome_text_of(fatal_outcome(missing_driver_message_of(library_path))),
        ).error_message == Some("worker did not find IObitUnlocker.dll:"@),
{
    let first = "worker did not find IObitUnlocker.dll:"@;
    let message = missing_driver_message_of(library_path);
    let lines = lines_of(message);
    reveal_strlit("worker did not find IObitUnlocker.dll:");
    reveal_strlit("worker did not find IObitUnlocker.dll:\n");
    assert("worker did not find IObitUnlocker.dll:\n"@ == first.push('\n'));
    lemma_lines_of_line(first, library_path);
    lemma_trim_of_fixed(first);
    assert forall|i: int| 1 <= i < lines.len() implies error_in(#[trigger] lines[i]) is None by {
        assert(lines[i] == lines_of(library_path)[i - 1]);
    }
    fatal_error_is_read(message);
}

/// What the worker says when the driver does not start.
pub const DRIVER_START_FAILED_MESSAGE: &'static str = "worker DriverStart failed";

/// Whether the driver started: its start function then gives a code other than 0.
pub fn check_driver_start(code: i32) -> (r: Result<(), String>)
    ensures
        match r {
            Ok(_) => code != 0,
            Err(message) => code == 0 && message@ == "worker DriverStart failed"@,
        },
{
    if code != 0 {
        Ok(())
    } else {
        Err(DRIVER_START_FAILED_MESSAGE.to_owned())
    }
}

/// The status of a wait that ended because the thread did.
pub const WAIT_OBJECT_0: u32 = 0;

/// The status of a wait that took too long.
pub const WAIT_TIMEOUT: u32 = 258;

/// The status of a wait that failed.
pub const WAIT_FAILED: u32 = 0xffff_ffff;

/// What a wait for a thread in the host came to.
pub enum WaitOutcome {
    /// The thread has ended.
    Ended,
    /// It has not, for this reason.
    Failed(String),
    /// It has not, for the reason that the system gives.
    FailedBySystem,
}

/// What a wait of `timeout_ms` milliseconds for a thread in the host came to.
pub fn wait_outcome(wait: u32, timeout_ms: u32) -> (outcome: WaitOutcome)
    ensures
        if wait == 0 {
            outcome is Ended
        } else if wait == 258 {
            outcome matches WaitOutcome::Failed(message) && message@
                == "remote thread timed out after "@ + decimal_of(timeout_ms as nat) + " ms"@
        } else if wait == 0xffff_ffff {
            outcome is FailedBySystem
        } else {
            outcome matches WaitOutcome::Failed(message) && message@
                == "remote thread wait failed with code "@ + decimal_of(wait as nat)
        },
{
    if wait == WAIT_OBJECT_0 {
        WaitOutcome::Ended
    } else if wait == WAIT_TIMEOUT {
        let mut message = String::new();
        message.append("remote thread timed out after ");
        push_decimal(&mut message, timeout_ms as u128);
        message.append(" ms");
        WaitOutcome::Failed(message)
    } else if wait == WAIT_FAILED {
        WaitOutcome::FailedBySystem
    } else {
        let mut message = String::new();
        message.append("remote thread wait failed with code ");
        push_decimal(&mut message, wait as u128);
        WaitOutcome::Failed(message)
    }
}

/// The base of the worker in the host, where the exit code of the loading thread gives one.
pub fn loaded_module(exit_code: u32) -> (base: Option<usize>)
    ensures
        base == if exit_code == 0 {
            None::<usize>
        } else {
            Some(exit_code as usize)
        },
{
    if exit_code == 0 {
        None
    } else {
        Some(exit_code as usize)
    }
}

/// The address in the host of a function of the worker: as far behind the worker's base there as
/// it is behind the worker's base here.
pub fn remote_export_address(remote_module: usize, local_module: usize, local_export: usize) -> (r:
    usize)
    requires
        local_module <= local_export,
        remote_module + (local_export - local_module) <= usize::MAX,
    ensures
        r - remote_module == local_export - local_module,
{
    remote_module + (local_export - local_module)
}

/// What is said when a write to the host was cut short.
pub open spec fn short_write_message_of(written: nat, byte_len: nat) -> Seq<char> {
    "WriteProcessMemory wrote "@ + decimal_of(written) + " of "@ + decimal_of(byte_len)
        + " bytes"@
}

/// Whether what was written to the host can stay there. Where it cannot, the memory is to be given
/// back and the message is the error. `error` is the system's, if the write failed.
pub fn check_write(error: Option<String>, written: usize, byte_len: usize) -> (r: Result<
    (),
    String,
>)
    ensures
        match error {
            Some(error) => r matches Err(message) && message@ == "WriteProcessMemory failed: "@
                + error@,
            None => if written == byte_len {
                r is Ok
            } else {
                r matches Err(message) && message@ == short_write_message_of(
                    written as nat,
                    byte_len as nat,
                )
            },
        },
{
    let mut message = String::new();
    match error {
        Some(error) => {
            message.append("WriteProcessMemory failed: ");
            message.append(error.as_str());
            Err(message)
        },
        None => {
            if written == byte_len {
                Ok(())
            } else {
                message.append("WriteProcessMemory wrote ");
                push_decimal(&mut message, written as u128);
                message.append(" of ");
                push_decimal(&mut message, byte_len as u128);
                message.append(" bytes");
                Err(message)
            }
        },
    }
}

/// The worker has half a minute, a quarter of a minute more for each path, and never more than
/// fifteen minutes.
pub proof fn each_path_adds_to_the_time(path_count: nat)
    ensures
        worker_timeout_of(0) == 30_000,
        path_count < 58 ==> worker_timeout_of(path_count + 1) == worker_timeout_of(path_count)
            + 15_000,
        path_count >= 58 ==> worker_timeout_of(path_count) == 900_000,
{
}

/// A missing file is named by its path, in full.
pub proof fn missing_files_are_named(path: Seq<char>)
    ensures
        missing_host_message_of(path) == "未找到官方宿主 IObitUnlocker.exe：\n"@ + path,
        missing_worker_message_of(path) == "未找到 worker DLL：\n"@ + path,
        missing_driver_message_of(path) == "worker did not find IObitUnlocker.dll:\n"@ + path,
{
}

/// A write that was cut short is told of with what was written and what there was to write.
pub proof fn short_writes_tell_both_lengths(written: nat, byte_len: nat)
    ensures
        short_write_message_of(written, byte_len) == "WriteProcessMemory wrote "@ + decimal_of(
            written,
        ) + " of "@ + decimal_of(byte_len) + " bytes"@,
{
}

} // verus!
