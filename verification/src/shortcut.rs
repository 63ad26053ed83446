//! Start Menu shortcuts: where the entry lives, what it points at, and what
//! the results of the shell's link object mean.

use vstd::prelude::*;

use crate::install;
use crate::usbprint::WinError;
use crate::utf16;
use crate::win::RPC_E_CHANGED_MODE;

verus! {

/// File name of the Start Menu entry.
pub const SHORTCUT_FILE: &'static str = "ezrama.lnk";

/// Longest path the link object hands back.
pub const MAX_PATH: usize = 260;

/// What a shortcut points at.
#[derive(Debug, Clone, PartialEq, Eq)]
pub struct Shortcut {
    pub target: String,
    pub arguments: String,
}

/// Where the Start Menu entry lives under the roaming app data directory
/// `base`.
pub open spec fn entry_path(base: Seq<char>) -> Seq<char> {
    install::path_in(
        install::path_in(
            install::path_in(
                install::path_in(install::path_in(base, "Microsoft"@), "Windows"@),
                "Start Menu"@,
            ),
            "Programs"@,
        ),
        SHORTCUT_FILE@,
    )
}

/// Where the current user's Start Menu entry lives:
/// `Microsoft\Windows\Start Menu\Programs\ezrama.lnk` under the roaming app
/// data directory `base`.
pub fn start_menu_path(base: &str) -> (path: String)
    ensures
        path@ == entry_path(base@),
{
    let vendor = install::file_in(base, "Microsoft");
    let system = install::file_in(vendor.as_str(), "Windows");
    let menu = install::file_in(system.as_str(), "Start Menu");
    let programs = install::file_in(menu.as_str(), "Programs");
    install::file_in(programs.as_str(), SHORTCUT_FILE)
}

/// A result as the 32 bits of an error code.
pub open spec fn result_code(result: i32) -> u32 {
    if result < 0 {
        (result + 0x1_0000_0000) as u32
    } else {
        result as u32
    }
}

/// What a result of `call` means.
pub open spec fn outcome(call: &'static str, result: i32) -> Result<(), WinError> {
    if result < 0 {
        Err(WinError { call, code: result_code(result) })
    } else {
        Ok(())
    }
}

/// What a result of `call` means: a negative one is a failure.
pub fn check(call: &'static str, result: i32) -> (outcome: Result<(), WinError>)
    ensures
        outcome == self::outcome(call, result),
{
    if result < 0 {
        return Err(WinError { call, code: (result as i64 + 0x1_0000_0000) as u32 });
    }
    Ok(())
}

/// Whether starting COM on this thread has to be undone later: not where the
/// thread already runs another concurrency model.
pub fn com_started(result: i32) -> (owned: Result<bool, WinError>)
    ensures
        owned == if result == RPC_E_CHANGED_MODE {
            Ok::<bool, WinError>(false)
        } else {
            match outcome("CoInitializeEx", result) {
                Ok(_) => Ok(true),
                Err(error) => Err(error),
            }
        },
{
    if result == RPC_E_CHANGED_MODE {
        return Ok(false);
    }
    match check("CoInitializeEx", result) {
        Ok(_) => Ok(true),
        Err(error) => Err(error),
    }
}

/// What a shortcut points at, from the NUL-terminated buffers the link object
/// filled.
pub fn read(target: &[u16], arguments: &[u16]) -> (shortcut: Shortcut)
    ensures
        shortcut.target@ == utf16::utf16_text(utf16::before_nul(target@)),
        shortcut.arguments@ == utf16::utf16_text(utf16::before_nul(arguments@)),
{
    Shortcut {
        target: utf16::text_before_nul(target),
        arguments: utf16::text_before_nul(arguments),
    }
}

} // verus!
