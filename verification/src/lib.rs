//! Interactive pseudo-terminal sessions: the rules behind them, verified.
use vstd::prelude::*;

pub mod background_task;
pub mod buffer;
pub mod control;
pub mod emulator;
pub mod encoding;
pub mod entry;
pub mod hooks;
pub mod json;
pub mod keys;
pub mod launch;
pub mod manager;
pub mod mcp;
pub mod monitor;
pub mod observation;
pub mod pattern;
pub mod platform;
pub mod protocol;
pub mod reader;
pub mod reading;
pub mod render;
pub mod runtime;
pub mod screen;
pub mod session;
pub mod silence;
pub mod supervisor;
pub mod terminal;
pub mod text;
pub mod types;
pub mod wait;
pub mod waiting;
pub mod watcher;
pub mod writer;

verus! {

/// The name of the application.
pub const APP_NAME: &'static str = "pty-bridge";

/// How long a background task may take to attach to its session, in seconds.
pub const DEFAULT_BACKGROUND_TASK_TICKET_TTL_SECONDS: u64 = 1800;

/// How many rows a terminal has unless it is said otherwise.
pub const DEFAULT_ROWS: u16 = 24;

/// How many columns a terminal has unless it is said otherwise.
pub const DEFAULT_COLS: u16 = 80;

/// How many sessions, active or retained, one server holds at most.
pub const MAX_SESSIONS: usize = 64;

} // verus!
