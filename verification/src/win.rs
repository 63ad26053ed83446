//! The Windows numbers that the policies go by.

use vstd::prelude::*;

verus! {

pub const ERROR_SUCCESS: u32 = 0;

pub const ERROR_FILE_NOT_FOUND: u32 = 2;

pub const ERROR_PATH_NOT_FOUND: u32 = 3;

pub const ERROR_ACCESS_DENIED: u32 = 5;

pub const ERROR_INVALID_HANDLE: u32 = 6;

pub const ERROR_BAD_UNIT: u32 = 20;

pub const ERROR_GEN_FAILURE: u32 = 31;

pub const ERROR_SHARING_VIOLATION: u32 = 32;

pub const ERROR_INSUFFICIENT_BUFFER: u32 = 122;

pub const ERROR_ALREADY_EXISTS: u32 = 183;

pub const ERROR_MORE_DATA: u32 = 234;

pub const ERROR_NO_MORE_ITEMS: u32 = 259;

pub const ERROR_NO_SUCH_DEVICE: u32 = 433;

pub const ERROR_OPERATION_ABORTED: u32 = 995;

pub const ERROR_IO_INCOMPLETE: u32 = 996;

pub const ERROR_IO_PENDING: u32 = 997;

pub const ERROR_DEVICE_NOT_CONNECTED: u32 = 1167;

pub const ERROR_NOT_FOUND: u32 = 1168;

pub const ERROR_CLASS_ALREADY_EXISTS: u32 = 1410;

pub const ERROR_DEVICE_REMOVED: u32 = 1617;

pub const WAIT_OBJECT_0: u32 = 0;

pub const WAIT_TIMEOUT: u32 = 258;

pub const WAIT_FAILED: u32 = 0xffff_ffff;

pub const CTRL_C_EVENT: u32 = 0;

pub const CTRL_BREAK_EVENT: u32 = 1;

pub const CTRL_CLOSE_EVENT: u32 = 2;

pub const WM_DESTROY: u32 = 0x0002;

pub const WM_CLOSE: u32 = 0x0010;

pub const WM_QUERYENDSESSION: u32 = 0x0011;

pub const WM_ENDSESSION: u32 = 0x0016;

pub const WM_DEVICECHANGE: u32 = 0x0219;

pub const WM_APP: u32 = 0x8000;

pub const DBT_DEVICEARRIVAL: usize = 0x8000;

pub const DBT_DEVICEREMOVECOMPLETE: usize = 0x8004;

pub const DBT_DEVTYP_DEVICEINTERFACE: u32 = 5;

pub const REG_SZ: u32 = 1;

pub const REG_EXPAND_SZ: u32 = 2;

pub const REG_DWORD: u32 = 4;

pub const DEVICE_INTERFACE_DETAIL_CB_SIZE: u32 = 8;

pub const DEVICE_INTERFACE_DETAIL_PATH_OFFSET: usize = 4;

pub const NIM_ADD: u32 = 0;

pub const NIM_MODIFY: u32 = 1;

pub const NIM_DELETE: u32 = 2;

pub const NIM_SETVERSION: u32 = 4;

pub const MF_STRING: u32 = 0x0000;

pub const MF_GRAYED: u32 = 0x0001;

/// The thread already runs another concurrency model; as a signed result,
/// 0x8001_0106.
pub const RPC_E_CHANGED_MODE: i32 = -2_147_417_850;

} // verus!
