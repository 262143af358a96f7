//! The logic of a Windows Explorer context-menu extension that hands a whole selection of files to
//! IObit Unlocker, to be unlocked or unlocked and deleted, with a single elevation.
//!
//! Text comes first (`text`, `decimal`, `wide`, `ini`), then what is written and read in it: the
//! settings (`config`), requests (`request`, `request_file`) and their results (`outcome`), paths
//! and command lines (`paths`, `quoting`, `command_line`, `runtime_args`). The rest decides: what
//! the menu shows and means (`menu`, `bitmap`, `selection`, `module`), how a selection is handed
//! over (`launch`), what the host process needs (`host`), which driver call comes next (`batch`)
//! and what the user is told (`report`, `log`). Work that goes step by step, and has to be undone
//! where a step fails, is laid out over `steps` (`menu`, `bitmap`, `launch`, `helper_run`,
//! `host_run`, `worker_run`).

pub mod action;
pub mod batch;
pub mod bitmap;
pub mod command_line;
pub mod config;
pub mod decimal;
pub mod helper_run;
pub mod host;
pub mod host_run;
pub mod ini;
pub mod launch;
pub mod log;
pub mod menu;
pub mod module;
pub mod outcome;
pub mod paths;
pub mod quoting;
pub mod report;
pub mod request;
pub mod request_file;
pub mod runtime_args;
pub mod selection;
pub mod steps;
pub mod text;
pub mod wide;
pub mod worker_run;
