//! Names of the winpty agent interface: the handle types that its calls
//! pass around, and the codes and flags that they take and return.

use vstd::prelude::*;

verus! {

pub const WINPTY_ERROR_SUCCESS: u32 = 0;

pub const WINPTY_ERROR_OUT_OF_MEMORY: u32 = 1;

pub const WINPTY_ERROR_SPAWN_CREATE_PROCESS_FAILED: u32 = 2;

pub const WINPTY_ERROR_LOST_CONNECTION: u32 = 3;

pub const WINPTY_ERROR_AGENT_EXE_MISSING: u32 = 4;

pub const WINPTY_ERROR_UNSPECIFIED: u32 = 5;

pub const WINPTY_ERROR_AGENT_DIED: u32 = 6;

pub const WINPTY_ERROR_AGENT_TIMEOUT: u32 = 7;

pub const WINPTY_ERROR_AGENT_CREATION_FAILED: u32 = 8;

pub const WINPTY_FLAG_CONERR: u64 = 1;

pub const WINPTY_FLAG_PLAIN_OUTPUT: u64 = 2;

pub const WINPTY_FLAG_COLOR_ESCAPES: u64 = 4;

pub const WINPTY_FLAG_ALLOW_CURPROC_DESKTOP_CREATION: u64 = 8;

pub const WINPTY_MOUSE_MODE_NONE: u32 = 0;

pub const WINPTY_MOUSE_MODE_AUTO: u32 = 1;

pub const WINPTY_MOUSE_MODE_FORCE: u32 = 2;

pub const WINPTY_SPAWN_FLAG_AUTO_SHUTDOWN: u64 = 1;

pub const WINPTY_SPAWN_FLAG_EXIT_AFTER_SHUTDOWN: u64 = 2;

/// An error reported by the agent. Only ever handled by address.
#[allow(non_camel_case_types)]
pub struct winpty_error_t {}

/// A running agent. Only ever handled by address.
#[allow(non_camel_case_types)]
pub struct winpty_t {}

/// The settings for a process to spawn. Only ever handled by address.
#[allow(non_camel_case_types)]
pub struct winpty_spawn_config_t {}

/// The settings for an agent to start. Only ever handled by address.
#[allow(non_camel_case_types)]
pub struct winpty_config_t {}

/// The result code of a call to the agent.
#[allow(non_camel_case_types)]
pub type winpty_result_t = u32;

} // verus!
