//! Installing for the current user: the windowless copy of the program, the
//! logon entry, the installed-apps entry, and the search path.

use vstd::prelude::*;
use vstd::string::StringExecFns;

use crate::registry;
use crate::registry::Raw;
use crate::text;
use crate::win::{REG_EXPAND_SZ, REG_SZ};

verus! {

/// Registry key whose values start programs at logon for the current user.
pub const RUN_KEY: &'static str = r"Software\Microsoft\Windows\CurrentVersion\Run";

/// Name of ezrama's value under [`RUN_KEY`].
pub const RUN_VALUE: &'static str = "ezrama";

/// Key where Task Manager records which Run entries it has disabled.
pub const STARTUP_APPROVED_KEY: &'static str =
    r"Software\Microsoft\Windows\CurrentVersion\Explorer\StartupApproved\Run";

/// Registry key whose subkeys are the current user's installed programs,
/// as Settings lists them.
pub const UNINSTALL_ROOT: &'static str =
    r"Software\Microsoft\Windows\CurrentVersion\Uninstall";

/// ezrama's subkey under [`UNINSTALL_ROOT`].
pub const UNINSTALL_SUBKEY: &'static str = "ezrama";

/// Registry key holding the current user's environment variables.
pub const ENVIRONMENT_KEY: &'static str = "Environment";

/// The user's search path value under [`ENVIRONMENT_KEY`].
pub const PATH_VALUE: &'static str = "Path";

/// File name of the console binary.
pub const CONSOLE_BINARY: &'static str = "ezrama.exe";

/// File name of the windowless copy that the logon entry starts.
pub const WATCHER_BINARY: &'static str = "ezramaw.exe";

/// File name of the icon written next to the binaries for the shortcut
/// and the installed-apps entry.
pub const ICON_FILE: &'static str = "ezrama.ico";

// ---------------------------------------------------------------------------
// Paths.
// ---------------------------------------------------------------------------

/// Whether a directory is a drive alone: a letter and a colon. It stands for
/// the present directory on that drive.
pub open spec fn is_bare_drive(directory: Seq<char>) -> bool {
    directory.len() == 2 && directory[1] == ':' && ('a' <= directory[0] <= 'z' || 'A'
        <= directory[0] <= 'Z')
}

/// Whether a separator has to stand between `directory` and a file name.
pub open spec fn needs_separator(directory: Seq<char>) -> bool {
    directory.len() > 0 && directory.last() != '\\' && directory.last() != '/' && !is_bare_drive(
        directory,
    )
}

/// The path of `file` in `directory`.
pub open spec fn path_in(directory: Seq<char>, file: Seq<char>) -> Seq<char> {
    if needs_separator(directory) {
        directory + seq!['\\'] + file
    } else {
        directory + file
    }
}

/// The path of `file` in `directory`.
pub fn file_in(directory: &str, file: &str) -> (path: String)
    ensures
        path@ == path_in(directory@, file@),
{
    let chars = text::chars_of(directory);
    proof {
        reveal_strlit("\\");
        assert("\\"@ == seq!['\\']);
    }
    let bare_drive = chars.len() == 2 && chars[1] == ':' && (('a' <= chars[0] && chars[0] <= 'z')
        || ('A' <= chars[0] && chars[0] <= 'Z'));
    if chars.len() > 0 && chars[chars.len() - 1] != '\\' && chars[chars.len() - 1] != '/'
        && !bare_drive {
        text::join3(directory, "\\", file)
    } else {
        text::join(directory, file)
    }
}

/// The per-user installation directory under the local app data directory
/// `base`.
pub fn install_dir(base: &str) -> (directory: String)
    ensures
        directory@ == path_in(base@, "ezrama"@),
{
    file_in(base, "ezrama")
}

/// A quoted path followed by an argument.
pub open spec fn quoted_command(path: Seq<char>, argument: Seq<char>) -> Seq<char> {
    "\""@ + path + argument
}

/// The command line the Run entry executes for the watcher at `watcher`.
pub fn run_command(watcher: &str) -> (command: String)
    ensures
        command@ == quoted_command(watcher@, "\" watch"@),
{
    text::join3("\"", watcher, "\" watch")
}

// ---------------------------------------------------------------------------
// The windowless copy.
// ---------------------------------------------------------------------------

/// Subsystem value of a program that runs without a console.
pub const SUBSYSTEM_WINDOWS_GUI: u16 = 2;

/// Offset of the subsystem field within a 64-bit optional header.
pub const OPTIONAL_HEADER_SUBSYSTEM: usize = 68;

/// Offset of the checksum field within a 64-bit optional header.
pub const OPTIONAL_HEADER_CHECKSUM: usize = 64;

/// Magic number of a 64-bit optional header.
pub const OPTIONAL_HEADER_MAGIC_PE32_PLUS: u16 = 0x20b;

/// Where the executable header starts: the number at byte 60.
pub open spec fn header_offset(image: Seq<u8>) -> int {
    image[60] + image[61] * 0x100 + image[62] * 0x1_0000 + image[63] * 0x100_0000
}

/// Where the optional header starts.
pub open spec fn optional_header(image: Seq<u8>) -> int {
    header_offset(image) + 24
}

/// The signature at the start of the executable header.
pub open spec fn has_signature(image: Seq<u8>, at: int) -> bool {
    at + 4 <= image.len() && image[at] == 0x50 && image[at + 1] == 0x45 && image[at + 2] == 0
        && image[at + 3] == 0
}

/// What is wrong with `image`, if it is no 64-bit Windows executable with a
/// subsystem field.
pub open spec fn image_fault(image: Seq<u8>) -> Option<Seq<char>> {
    if image.len() < 2 || image[0] != 0x4d || image[1] != 0x5a {
        Some("not a Windows executable"@)
    } else if image.len() < 64 {
        Some("the image is too short"@)
    } else if !has_signature(image, header_offset(image)) {
        Some("no executable header"@)
    } else if image.len() < optional_header(image) + 2 {
        Some("the image is too short"@)
    } else if image[optional_header(image)] + image[optional_header(image) + 1] * 0x100
        != OPTIONAL_HEADER_MAGIC_PE32_PLUS {
        Some("not a 64-bit executable"@)
    } else if image.len() < optional_header(image) + OPTIONAL_HEADER_SUBSYSTEM + 2 {
        Some("the image is too short"@)
    } else {
        None
    }
}

/// The image with the subsystem field set to the windowed value and the
/// checksum cleared, everything else as it was.
pub open spec fn windowless(image: Seq<u8>) -> Seq<u8> {
    let checksum = optional_header(image) + OPTIONAL_HEADER_CHECKSUM;
    Seq::new(
        image.len(),
        |i: int|
            if checksum <= i < checksum + 4 {
                0u8
            } else if i == checksum + 4 {
                2u8
            } else if i == checksum + 5 {
                0u8
            } else {
                image[i]
            },
    )
}

/// The console program `image` rewritten to run without a console: the
/// same code and data with the subsystem field set to the windowed value
/// and the checksum cleared, which is what the windowless twin of a
/// console build differs in.
pub fn windowless_image(image: &[u8]) -> (result: Result<Vec<u8>, String>)
    ensures
        match result {
            Ok(out) => image_fault(image@) is None && out@ == windowless(image@),
            Err(fault) => image_fault(image@) == Some(fault@),
        },
{
    if image.len() < 2 || image[0] != 0x4d || image[1] != 0x5a {
        return Err("not a Windows executable".to_owned());
    }
    if image.len() < 64 {
        return Err("the image is too short".to_owned());
    }
    let offset: u32 = image[60] as u32 + image[61] as u32 * 0x100 + image[62] as u32 * 0x1_0000
        + image[63] as u32 * 0x100_0000;
    if offset as u64 + 4 > image.len() as u64 {
        return Err("no executable header".to_owned());
    }
    let header: usize = offset as usize;
    if image[header] != 0x50 || image[header + 1] != 0x45 || image[header + 2] != 0 || image[header
        + 3] != 0 {
        return Err("no executable header".to_owned());
    }
    let left: usize = image.len() - header;
    if left < 26 {
        return Err("the image is too short".to_owned());
    }
    let optional: usize = header + 24;
    if image[optional] as u16 + image[optional + 1] as u16 * 0x100
        != OPTIONAL_HEADER_MAGIC_PE32_PLUS {
        return Err("not a 64-bit executable".to_owned());
    }
    if left < 24 + OPTIONAL_HEADER_SUBSYSTEM + 2 {
        return Err("the image is too short".to_owned());
    }
    let checksum: usize = optional + OPTIONAL_HEADER_CHECKSUM;
    let mut out: Vec<u8> = vstd::slice::slice_to_vec(image);
    out.set(checksum, 0);
    out.set(checksum + 1, 0);
    out.set(checksum + 2, 0);
    out.set(checksum + 3, 0);
    out.set(checksum + 4, (SUBSYSTEM_WINDOWS_GUI % 0x100) as u8);
    out.set(checksum + 5, (SUBSYSTEM_WINDOWS_GUI / 0x100) as u8);
    assert(out@ == windowless(image@));
    Ok(out)
}

// ---------------------------------------------------------------------------
// The logon entry.
// ---------------------------------------------------------------------------

/// A value under the Run key: its name and the command it runs.
#[derive(Debug, Clone, PartialEq, Eq)]
pub struct RunEntry {
    pub name: String,
    pub command: String,
}

/// Whether Task Manager has disabled the Run entry that it keeps `record` of.
pub open spec fn disabled(record: Option<Raw>) -> bool {
    match record {
        None => false,
        Some((_, bytes)) => bytes@.len() > 0 && bytes@[0] % 2 == 1,
    }
}

/// Whether Task Manager has disabled the Run entry that it keeps `record` of.
/// An entry with no record is enabled; the record's first byte is even when
/// enabled and odd when disabled.
pub fn startup_disabled(record: &Option<Raw>) -> (off: bool)
    ensures
        off == disabled(*record),
{
    match record {
        None => false,
        Some(raw) => raw.1.len() > 0 && raw.1[0] % 2 == 1,
    }
}

/// Whether a Run entry is not ezrama's and its command mentions KANALI.
pub open spec fn mentions_kanali(entry: RunEntry) -> bool {
    entry.name@ != RUN_VALUE@ && text::holds(
        text::lowercase(entry.command@),
        text::lowercase("kanali"@),
    )
}

/// Whether a Run entry is not ezrama's and its command mentions KANALI.
pub fn is_kanali_entry(entry: &RunEntry) -> (found: bool)
    ensures
        found == mentions_kanali(*entry),
{
    !text::same(entry.name.as_str(), RUN_VALUE) && text::holds_ignoring_case(
        entry.command.as_str(),
        "kanali",
    )
}

/// The names and commands of the entries that mention KANALI and that their
/// records do not disable, in order.
pub open spec fn enabled_kanali_entries(found: Seq<(RunEntry, Option<Raw>)>) -> Seq<
    (Seq<char>, Seq<char>),
>
    decreases found.len(),
{
    if found.len() == 0 {
        Seq::empty()
    } else {
        let before = enabled_kanali_entries(found.drop_last());
        let (entry, record) = found.last();
        if mentions_kanali(entry) && !disabled(record) {
            before.push((entry.name@, entry.command@))
        } else {
            before
        }
    }
}

/// The names and commands of several entries.
pub open spec fn entry_views(entries: Seq<RunEntry>) -> Seq<(Seq<char>, Seq<char>)> {
    entries.map_values(|entry: RunEntry| (entry.name@, entry.command@))
}

/// Run entries other than ezrama's whose command mentions KANALI and that
/// Task Manager has not disabled. Each entry comes with the record that Task
/// Manager keeps of it.
pub fn kanali_run_entries(found: &Vec<(RunEntry, Option<Raw>)>) -> (enabled: Vec<RunEntry>)
    ensures
        entry_views(enabled@) == enabled_kanali_entries(found@),
{
    let mut enabled: Vec<RunEntry> = Vec::new();
    let mut i: usize = 0;
    assert(entry_views(enabled@) == Seq::<(Seq<char>, Seq<char>)>::empty());
    while i < found.len()
        invariant
            i <= found@.len(),
            entry_views(enabled@) == enabled_kanali_entries(found@.take(i as int)),
        decreases found@.len() - i,
    {
        let ghost more = found@.take(i + 1);
        assert(more.drop_last() == found@.take(i as int));
        let ghost before = enabled@;
        let (entry, record) = &found[i];
        if is_kanali_entry(entry) && !startup_disabled(record) {
            let copy = RunEntry { name: entry.name.clone(), command: entry.command.clone() };
            enabled.push(copy);
            assert(entry_views(enabled@) == entry_views(before).push(
                (entry.name@, entry.command@),
            ));
        }
        i = i + 1;
    }
    assert(found@.take(i as int) == found@);
    enabled
}

/// What has to be done to the logon entry.
#[derive(Debug, Clone, PartialEq, Eq)]
pub enum StartupChange {
    /// Delete the value; the change counts if it existed.
    Delete,
    /// It is as it should be.
    Nothing,
    /// Write this command.
    Write(String),
}

/// What turns the logon entry for the watcher in `directory` on or off, when
/// the entry's command is `current` now.
pub fn set_startup(enabled: bool, directory: &str, current: &Option<String>) -> (change:
    StartupChange)
    ensures
        ({
            let command = quoted_command(path_in(directory@, WATCHER_BINARY@), "\" watch"@);
            match change {
                StartupChange::Delete => !enabled,
                StartupChange::Nothing => enabled && *current is Some && current->Some_0@
                    == command,
                StartupChange::Write(text) => enabled && !(*current is Some && current->Some_0@
                    == command) && text@ == command,
            }
        }),
{
    if !enabled {
        return StartupChange::Delete;
    }
    let watcher = file_in(directory, WATCHER_BINARY);
    let command = run_command(watcher.as_str());
    match current {
        Some(current) => {
            if text::same(current.as_str(), command.as_str()) {
                return StartupChange::Nothing;
            }
        },
        None => {},
    }
    StartupChange::Write(command)
}

// ---------------------------------------------------------------------------
// The installed-apps entry.
// ---------------------------------------------------------------------------

/// What the installed-apps entry says about the program.
#[derive(Debug, Clone, PartialEq, Eq)]
pub struct UninstallEntry {
    pub display_name: String,
    pub version: String,
    pub icon: String,
    pub location: String,
    /// The command Settings runs to remove the program.
    pub uninstall_command: String,
    pub size_kb: u32,
}

/// The sum of several file sizes.
pub open spec fn total(sizes: Seq<u64>) -> nat
    decreases sizes.len(),
{
    if sizes.len() == 0 {
        0
    } else {
        total(sizes.drop_last()) + sizes.last() as nat
    }
}

proof fn lemma_total_grows(sizes: Seq<u64>, n: int)
    requires
        0 <= n <= sizes.len(),
    ensures
        total(sizes.take(n)) <= total(sizes),
    decreases sizes.len() - n,
{
    if n < sizes.len() {
        lemma_total_grows(sizes, n + 1);
        assert(sizes.take(n + 1).drop_last() == sizes.take(n));
    } else {
        assert(sizes.take(n) == sizes);
    }
}

/// How many kilobytes hold so many bytes, the last one perhaps in part.
pub open spec fn kilobytes(bytes: nat) -> nat {
    (bytes + 1023) / 1024
}

/// The entry for an installation in `directory`: the console binary's
/// `uninstall` command, the icon file, and the size of what is there, as 32
/// bits hold it.
pub fn uninstall_entry_for(directory: &str, name: &str, version: &str, sizes: &[u64]) -> (entry:
    UninstallEntry)
    requires
        total(sizes@) <= u64::MAX,
    ensures
        entry.display_name@ == name@,
        entry.version@ == version@,
        entry.icon@ == path_in(directory@, ICON_FILE@),
        entry.location@ == directory@,
        entry.uninstall_command@ == quoted_command(
            path_in(directory@, CONSOLE_BINARY@),
            "\" uninstall"@,
        ),
        entry.size_kb == kilobytes(total(sizes@)) % 0x1_0000_0000,
{
    let mut sum: u64 = 0;
    let mut i: usize = 0;
    while i < sizes.len()
        invariant
            i <= sizes@.len(),
            sum == total(sizes@.take(i as int)),
            total(sizes@) <= u64::MAX,
        decreases sizes@.len() - i,
    {
        proof {
            assert(sizes@.take(i + 1).drop_last() == sizes@.take(i as int));
            lemma_total_grows(sizes@, i + 1);
        }
        sum = sum + sizes[i];
        i = i + 1;
    }
    assert(sizes@.take(i as int) == sizes@);
    let whole: u64 = sum / 1024;
    let kb: u64 = if sum % 1024 == 0 {
        whole
    } else {
        whole + 1
    };
    let console = file_in(directory, CONSOLE_BINARY);
    UninstallEntry {
        display_name: name.to_owned(),
        version: version.to_owned(),
        icon: file_in(directory, ICON_FILE),
        location: directory.to_owned(),
        uninstall_command: text::join3("\"", console.as_str(), "\" uninstall"),
        size_kb: (kb % 0x1_0000_0000) as u32,
    }
}

/// The installed-apps key for `subkey` under [`UNINSTALL_ROOT`].
pub fn uninstall_key(subkey: &str) -> (key: String)
    ensures
        key@ == UNINSTALL_ROOT@ + "\\"@ + subkey@,
{
    text::join3(UNINSTALL_ROOT, "\\", subkey)
}

/// Whether a value to be written has this name, type, and text.
pub open spec fn text_value(value: (&str, Raw), name: Seq<char>, text: Seq<char>) -> bool {
    let (key, (kind, bytes)) = value;
    key@ == name && kind == REG_SZ && bytes@ == registry::text_bytes(text)
}

/// Whether a value to be written has this name and number.
pub open spec fn number_value(value: (&str, Raw), name: Seq<char>, number: u32) -> bool {
    let (key, (kind, bytes)) = value;
    key@ == name && kind == crate::win::REG_DWORD && bytes@ == registry::number_bytes(number)
}

/// The values of an installed-apps entry, so that Settings lists the program
/// with a working Uninstall.
pub fn uninstall_values(entry: &UninstallEntry) -> (values: Vec<(&'static str, Raw)>)
    ensures
        values@.len() == 8,
        text_value(values@[0], "DisplayName"@, entry.display_name@),
        text_value(values@[1], "DisplayVersion"@, entry.version@),
        text_value(values@[2], "DisplayIcon"@, entry.icon@),
        text_value(values@[3], "InstallLocation"@, entry.location@),
        text_value(values@[4], "UninstallString"@, entry.uninstall_command@),
        number_value(values@[5], "NoModify"@, 1),
        number_value(values@[6], "NoRepair"@, 1),
        number_value(values@[7], "EstimatedSize"@, entry.size_kb),
{
    let mut values: Vec<(&'static str, Raw)> = Vec::new();
    values.push(("DisplayName", registry::string_value(entry.display_name.as_str(), REG_SZ)));
    values.push(("DisplayVersion", registry::string_value(entry.version.as_str(), REG_SZ)));
    values.push(("DisplayIcon", registry::string_value(entry.icon.as_str(), REG_SZ)));
    values.push(("InstallLocation", registry::string_value(entry.location.as_str(), REG_SZ)));
    values.push(
        ("UninstallString", registry::string_value(entry.uninstall_command.as_str(), REG_SZ)),
    );
    values.push(("NoModify", registry::number_value(1)));
    values.push(("NoRepair", registry::number_value(1)));
    values.push(("EstimatedSize", registry::number_value(entry.size_kb)));
    values
}

// ---------------------------------------------------------------------------
// The search path.
// ---------------------------------------------------------------------------

/// What two search path entries that name the same directory have in common:
/// the entry without white space around it and without separators at its end,
/// in small letters.
pub open spec fn directory_key(entry: Seq<char>) -> Seq<char> {
    text::lowercase(text::without_end(text::trimmed(entry), '\\', '/'))
}

/// Whether two search path entries name the same directory: case does not
/// matter and neither does a trailing separator.
pub fn same_directory(a: &str, b: &str) -> (same: bool)
    ensures
        same == (directory_key(a@) == directory_key(b@)),
{
    text::same_ignoring_case(
        text::trim_end(text::trim(a), '\\', '/'),
        text::trim_end(text::trim(b), '\\', '/'),
    )
}

/// Whether one of several entries names `directory`.
pub open spec fn lists(entries: Seq<Seq<char>>, directory: Seq<char>) -> bool {
    exists|i: int|
        0 <= i < entries.len() && directory_key(#[trigger] entries[i]) == directory_key(directory)
}

/// Whether one of several entries names `directory`.
fn any_names(entries: &Vec<String>, directory: &str) -> (found: bool)
    ensures
        found == lists(text::views(entries@), directory@),
{
    let ghost all = text::views(entries@);
    let mut i: usize = 0;
    while i < entries.len()
        invariant
            i <= entries@.len(),
            all == text::views(entries@),
            forall|j: int|
                0 <= j < i ==> directory_key(#[trigger] all[j]) != directory_key(directory@),
        decreases entries@.len() - i,
    {
        assert(all[i as int] == entries@[i as int]@);
        if same_directory(entries[i].as_str(), directory) {
            return true;
        }
        i = i + 1;
    }
    false
}

/// What [`path_with`] makes of a search path.
pub open spec fn extended_path(current: Seq<char>, directory: Seq<char>) -> Option<Seq<char>> {
    let start = text::without_end(current, ';', ';');
    if lists(text::split_at(current, ';'), directory) {
        None
    } else if start.len() == 0 {
        Some(directory)
    } else {
        Some(start + seq![';'] + directory)
    }
}

/// `current` with `directory` appended, or `None` when it is already
/// there.
pub fn path_with(current: &str, directory: &str) -> (path: Option<String>)
    ensures
        match path {
            Some(path) => extended_path(current@, directory@) == Some(path@),
            None => extended_path(current@, directory@) is None,
        },
{
    if any_names(&text::split(current, ';'), directory) {
        return None;
    }
    let start = text::trim_end(current, ';', ';');
    if start.is_empty() {
        Some(directory.to_owned())
    } else {
        proof {
            reveal_strlit(";");
            assert(";"@ == seq![';']);
        }
        Some(text::join3(start, ";", directory))
    }
}

/// Whether an entry stays when `directory` is taken out: it is not blank and
/// names another directory.
pub open spec fn stays(entry: Seq<char>, directory: Seq<char>) -> bool {
    text::trimmed(entry).len() > 0 && directory_key(entry) != directory_key(directory)
}

/// The entries that stay when `directory` is taken out.
pub open spec fn others(entries: Seq<Seq<char>>, directory: Seq<char>) -> Seq<Seq<char>>
    decreases entries.len(),
{
    if entries.len() == 0 {
        entries
    } else if stays(entries.last(), directory) {
        others(entries.drop_last(), directory).push(entries.last())
    } else {
        others(entries.drop_last(), directory)
    }
}

/// What [`path_without`] makes of a search path.
pub open spec fn reduced_path(current: Seq<char>, directory: Seq<char>) -> Option<Seq<char>> {
    let entries = text::split_at(current, ';');
    if lists(entries, directory) {
        Some(text::joined(others(entries, directory), seq![';']))
    } else {
        None
    }
}

/// `current` without `directory`, or `None` when it was not there.
pub fn path_without(current: &str, directory: &str) -> (path: Option<String>)
    ensures
        match path {
            Some(path) => reduced_path(current@, directory@) == Some(path@),
            None => reduced_path(current@, directory@) is None,
        },
{
    let entries = text::split(current, ';');
    if !any_names(&entries, directory) {
        return None;
    }
    let ghost all = text::views(entries@);
    let mut kept: Vec<String> = Vec::new();
    let mut i: usize = 0;
    assert(text::views(kept@) == Seq::<Seq<char>>::empty());
    assert(all.take(0) == Seq::<Seq<char>>::empty());
    while i < entries.len()
        invariant
            i <= entries@.len(),
            all == text::views(entries@),
            text::views(kept@) == others(all.take(i as int), directory@),
        decreases entries@.len() - i,
    {
        let ghost more = all.take(i + 1);
        let ghost before = text::views(kept@);
        assert(more.drop_last() == all.take(i as int));
        assert(more.last() == entries@[i as int]@);
        let entry = entries[i].as_str();
        if !text::trim(entry).is_empty() && !same_directory(entry, directory) {
            kept.push(entry.to_owned());
            assert(text::views(kept@) == before.push(entry@));
        }
        i = i + 1;
    }
    proof {
        assert(all.take(i as int) == all);
        reveal_strlit(";");
        assert(";"@ == seq![';']);
    }
    Some(text::join_all(&kept, ";"))
}

/// How the search path is to be changed.
#[derive(Debug, Clone, Copy, PartialEq, Eq)]
pub enum PathEdit {
    Add,
    Remove,
}

/// What has to be done to the search path value.
#[derive(Debug, PartialEq, Eq)]
pub enum PathChange {
    /// It is as it should be.
    Nothing,
    /// Nothing is left in it: delete it.
    Delete,
    /// Write this value.
    Write(Raw),
}

/// The text of a search path value that was read; a missing one is empty.
pub open spec fn path_text(raw: Option<Raw>) -> Seq<char> {
    match raw {
        Some((_, bytes)) => registry::stored_text(bytes@),
        None => Seq::empty(),
    }
}

/// The type of a search path value that was read; a missing one is made
/// expandable.
pub open spec fn path_kind(raw: Option<Raw>) -> u32 {
    match raw {
        Some((kind, _)) => kind,
        None => REG_EXPAND_SZ,
    }
}

/// The text of a search path value that was read; a missing one is empty.
fn path_string(raw: &Option<Raw>) -> (text: String)
    ensures
        text@ == path_text(*raw),
{
    match raw {
        Some(raw) => registry::utf16_string(raw.1.as_slice()),
        None => {
            let text = String::new();
            assert(text@ == Seq::<char>::empty());
            text
        },
    }
}

/// The path after an edit, if it changes anything.
pub open spec fn edited_path(current: Seq<char>, edit: PathEdit, directory: Seq<char>) -> Option<
    Seq<char>,
> {
    match edit {
        PathEdit::Add => extended_path(current, directory),
        PathEdit::Remove => reduced_path(current, directory),
    }
}

/// Adds `directory` to the user's search path value or takes it out, keeping
/// the value's type and leaving `%NAME%` references unexpanded.
pub fn edit_user_path(raw: &Option<Raw>, edit: PathEdit, directory: &str) -> (change: PathChange)
    ensures
        match change {
            PathChange::Nothing => edited_path(path_text(*raw), edit, directory@) is None,
            PathChange::Delete => edited_path(path_text(*raw), edit, directory@) == Some(
                Seq::<char>::empty(),
            ),
            PathChange::Write((kind, bytes)) => match edited_path(
                path_text(*raw),
                edit,
                directory@,
            ) {
                Some(path) => path.len() > 0 && kind == path_kind(*raw) && bytes@
                    == registry::text_bytes(path),
                None => false,
            },
        },
{
    let kind: u32 = match raw {
        Some(raw) => raw.0,
        None => REG_EXPAND_SZ,
    };
    let current = path_string(raw);
    let updated = match edit {
        PathEdit::Add => path_with(current.as_str(), directory),
        PathEdit::Remove => path_without(current.as_str(), directory),
    };
    match updated {
        None => PathChange::Nothing,
        Some(path) => {
            if path.as_str().is_empty() {
                assert(path@ == Seq::<char>::empty());
                PathChange::Delete
            } else {
                PathChange::Write(registry::string_value(path.as_str(), kind))
            }
        },
    }
}

/// Whether the user's search path value lists `directory`.
pub fn user_path_has(raw: &Option<Raw>, directory: &str) -> (found: bool)
    ensures
        found == lists(text::split_at(path_text(*raw), ';'), directory@),
{
    path_with(path_string(raw).as_str(), directory).is_none()
}

// ---------------------------------------------------------------------------
// Laws.
// ---------------------------------------------------------------------------

/// The windowless copy is as long as the console program and differs from it
/// only in the checksum and subsystem fields.
pub proof fn windowless_copies_differ_in_two_fields(image: Seq<u8>, i: int)
    requires
        image_fault(image) is None,
        0 <= i < image.len(),
    ensures
        windowless(image).len() == image.len(),
        !(optional_header(image) + 64 <= i < optional_header(image) + 70) ==> windowless(image)[i]
            == image[i],
{
}

/// A windowless copy is again an image that can be made windowless, and that
/// changes nothing.
pub proof fn windowless_copies_stay_as_they_are(image: Seq<u8>)
    requires
        image_fault(image) is None,
    ensures
        image_fault(windowless(image)) is None,
        windowless(windowless(image)) == windowless(image),
{
    let out = windowless(image);
    assert(out[0] == image[0] && out[1] == image[1]);
    if 60 >= optional_header(image) + 64 {
        assert(false);
    }
    assert(optional_header(out) == optional_header(image)) by {
        assert(out[60] == image[60]);
        assert(out[61] == image[61]);
        assert(out[62] == image[62]);
        assert(out[63] == image[63]);
    }
    assert(windowless(out) == out);
}

/// A directory that was added to the search path is found there, so adding it
/// again changes nothing, provided that its name holds no semicolon.
pub proof fn added_directory_is_found(current: Seq<char>, directory: Seq<char>)
    requires
        !directory.contains(';'),
    ensures
        match extended_path(current, directory) {
            Some(path) => extended_path(path, directory) is None,
            None => true,
        },
{
    let start = text::without_end(current, ';', ';');
    text::split_of_one_part(directory, ';');
    if extended_path(current, directory) is Some {
        if start.len() == 0 {
            let entries = text::split_at(directory, ';');
            assert(entries[0] == directory);
            assert(lists(entries, directory));
        } else {
            text::split_of_two(start, directory, ';');
            let entries = text::split_at(start + seq![';'] + directory, ';');
            assert(entries == text::split_at(start, ';') + seq![directory]);
            assert(entries[entries.len() - 1] == directory);
            assert(lists(entries, directory));
        }
    }
}

proof fn lemma_others_stay(entries: Seq<Seq<char>>, directory: Seq<char>)
    ensures
        forall|i: int|
            0 <= i < others(entries, directory).len() ==> stays(
                #[trigger] others(entries, directory)[i],
                directory,
            ) && entries.contains(others(entries, directory)[i]),
    decreases entries.len(),
{
    if entries.len() > 0 {
        let init = entries.drop_last();
        lemma_others_stay(init, directory);
        let kept = others(entries, directory);
        assert forall|i: int| 0 <= i < kept.len() implies stays(#[trigger] kept[i], directory)
            && entries.contains(kept[i]) by {
            let before = others(init, directory);
            if i < before.len() {
                assert(kept[i] == before[i]);
                assert(init.contains(before[i]));
                let j = choose|j: int| 0 <= j < init.len() && init[j] == before[i];
                assert(entries[j] == kept[i]);
            } else {
                assert(kept[i] == entries[entries.len() - 1]);
            }
        }
    }
}

/// A directory that was taken out of the search path is no longer there, so
/// taking it out again changes nothing. A directory whose name is blank, or
/// nothing but separators, is left out: the empty path counts as naming it.
pub proof fn removed_directory_is_gone(current: Seq<char>, directory: Seq<char>)
    requires
        directory_key(directory).len() > 0,
    ensures
        match reduced_path(current, directory) {
            Some(path) => reduced_path(path, directory) is None,
            None => true,
        },
{
    let entries = text::split_at(current, ';');
    let kept = others(entries, directory);
    lemma_others_stay(entries, directory);
    text::split_parts_are_free_of_the_separator(current, ';');
    let path = text::joined(kept, seq![';']);
    let again = text::split_at(path, ';');
    if kept.len() == 0 {
        assert(path == Seq::<char>::empty());
        assert(again == seq![Seq::<char>::empty()]);
        assert(directory_key(Seq::<char>::empty()).len() == 0);
    } else {
        assert forall|i: int| 0 <= i < kept.len() implies !(#[trigger] kept[i]).contains(';') by {
            assert(entries.contains(kept[i]));
        }
        text::joined_parts_split_again(kept, ';');
        assert(again == kept);
    }
    assert(!lists(again, directory));
}

proof fn lemma_all_stay(entries: Seq<Seq<char>>, directory: Seq<char>)
    requires
        forall|i: int| 0 <= i < entries.len() ==> stays(#[trigger] entries[i], directory),
    ensures
        others(entries, directory) == entries,
    decreases entries.len(),
{
    if entries.len() > 0 {
        let init = entries.drop_last();
        assert(stays(entries[entries.len() - 1], directory));
        assert forall|i: int| 0 <= i < init.len() implies stays(
            #[trigger] init[i],
            directory,
        ) by {
            assert(init[i] == entries[i]);
        }
        lemma_all_stay(init, directory);
        assert(init.push(entries.last()) == entries);
    }
}

/// The entries that are not blank.
pub open spec fn filled(entries: Seq<Seq<char>>) -> Seq<Seq<char>>
    decreases entries.len(),
{
    if entries.len() == 0 {
        entries
    } else if text::trimmed(entries.last()).len() > 0 {
        filled(entries.drop_last()).push(entries.last())
    } else {
        filled(entries.drop_last())
    }
}

proof fn lemma_filled_stay(entries: Seq<Seq<char>>, directory: Seq<char>)
    requires
        !lists(entries, directory),
    ensures
        others(entries, directory) == filled(entries),
    decreases entries.len(),
{
    if entries.len() > 0 {
        let init = entries.drop_last();
        assert(directory_key(entries[entries.len() - 1]) != directory_key(directory));
        assert forall|i: int| 0 <= i < init.len() implies directory_key(#[trigger] init[i])
            != directory_key(directory) by {
            assert(init[i] == entries[i]);
        }
        lemma_filled_stay(init, directory);
    }
}

/// Semicolons at the end of a search path make no difference to what stays.
proof fn lemma_end_does_not_stay(current: Seq<char>, directory: Seq<char>)
    ensures
        others(text::split_at(text::without_end(current, ';', ';'), ';'), directory) == others(
            text::split_at(current, ';'),
            directory,
        ),
    decreases current.len(),
{
    if current.len() > 0 && current.last() == ';' {
        let init = current.drop_last();
        let nothing = Seq::<char>::empty();
        lemma_end_does_not_stay(init, directory);
        assert(current == init + seq![';'] + nothing);
        text::split_of_two(init, nothing, ';');
        let entries = text::split_at(current, ';');
        assert(entries == text::split_at(init, ';') + seq![nothing]);
        assert(entries.drop_last() == text::split_at(init, ';'));
        assert(text::trimmed(nothing).len() == 0);
    }
}

/// Adding a directory to a search path that does not list it, and taking it out
/// again, leaves the path's entries that are not blank, in their order, provided
/// that the name holds no semicolon.
pub proof fn removing_after_adding_leaves_the_entries(current: Seq<char>, directory: Seq<char>)
    requires
        !directory.contains(';'),
        !lists(text::split_at(current, ';'), directory),
    ensures
        match extended_path(current, directory) {
            Some(path) => reduced_path(path, directory) == Some(
                text::joined(filled(text::split_at(current, ';')), seq![';']),
            ),
            None => false,
        },
{
    let start = text::without_end(current, ';', ';');
    let entries = text::split_at(current, ';');
    lemma_end_does_not_stay(current, directory);
    lemma_filled_stay(entries, directory);
    text::split_of_one_part(directory, ';');
    assert(!stays(directory, directory));
    if start.len() == 0 {
        assert(start == Seq::<char>::empty());
        let all = text::split_at(directory, ';');
        assert(all == seq![directory]);
        assert(all[0] == directory);
        assert(lists(all, directory));
        assert(all.drop_last() == Seq::<Seq<char>>::empty());
        assert(others(all.drop_last(), directory) == Seq::<Seq<char>>::empty());
        text::split_of_one_part(start, ';');
        let none = text::split_at(start, ';');
        assert(none == seq![start]);
        assert(none.drop_last() == Seq::<Seq<char>>::empty());
        assert(text::trimmed(start).len() == 0);
        assert(others(none, directory) == Seq::<Seq<char>>::empty());
    } else {
        let path = start + seq![';'] + directory;
        text::split_of_two(start, directory, ';');
        let all = text::split_at(path, ';');
        assert(all == text::split_at(start, ';') + seq![directory]);
        assert(all[all.len() - 1] == directory);
        assert(lists(all, directory));
        assert(all.drop_last() == text::split_at(start, ';'));
    }
}

/// Adding a directory to a search path and taking it out again gives the path
/// back, if no entry of it was blank and the name holds no semicolon.
pub proof fn adding_and_removing_gives_the_path_back(current: Seq<char>, directory: Seq<char>)
    requires
        !directory.contains(';'),
        !lists(text::split_at(current, ';'), directory),
        current.len() == 0 || forall|i: int|
            0 <= i < text::split_at(current, ';').len() ==> text::trimmed(
                #[trigger] text::split_at(current, ';')[i],
            ).len() > 0,
    ensures
        match extended_path(current, directory) {
            Some(path) => reduced_path(path, directory) == Some(current),
            None => false,
        },
{
    let entries = text::split_at(current, ';');
    text::split_of_one_part(directory, ';');
    if current.len() == 0 {
        let all = text::split_at(directory, ';');
        assert(all == seq![directory]);
        assert(all[0] == directory);
        assert(lists(all, directory));
        assert(all.drop_last() == Seq::<Seq<char>>::empty());
        assert(others(all.drop_last(), directory) == Seq::<Seq<char>>::empty());
        assert(current == Seq::<char>::empty());
    } else {
        assert(current.last() != ';') by {
            if current.last() == ';' {
                assert(entries[entries.len() - 1] == Seq::<char>::empty());
                assert(text::trimmed(entries[entries.len() - 1]).len() == 0);
            }
        }
        let path = current + seq![';'] + directory;
        text::split_of_two(current, directory, ';');
        let all = text::split_at(path, ';');
        assert(all == entries + seq![directory]);
        assert(all[all.len() - 1] == directory);
        assert(lists(all, directory));
        assert(all.drop_last() == entries);
        assert(!stays(directory, directory));
        assert forall|i: int| 0 <= i < entries.len() implies stays(
            #[trigger] entries[i],
            directory,
        ) by {
            assert(text::trimmed(entries[i]).len() > 0);
        }
        lemma_all_stay(entries, directory);
        text::split_parts_join_to_the_text(current, ';');
    }
}

/// The size of an installation is stated in whole kilobytes that hold it, and no
/// more of them than it takes.
pub proof fn sizes_are_rounded_up(bytes: nat)
    ensures
        kilobytes(bytes) * 1024 >= bytes,
        bytes > 0 ==> (kilobytes(bytes) - 1) * 1024 < bytes,
        bytes == 0 ==> kilobytes(bytes) == 0,
{
}

/// A search path keeps its type when it is edited; one that did not exist is
/// made expandable, and starts out empty.
pub proof fn edited_paths_keep_their_type(raw: Option<Raw>)
    ensures
        raw is None ==> path_kind(raw) == 2 && path_text(raw).len() == 0,
        raw matches Some(value) ==> path_kind(raw) == value.0,
{
}

/// Task Manager has disabled an entry exactly if it keeps a record of it whose
/// first byte is odd.
pub proof fn odd_records_disable(kind: u32, bytes: Vec<u8>)
    ensures
        !disabled(None),
        bytes@.len() == 0 ==> !disabled(Some((kind, bytes))),
        bytes@.len() > 0 ==> (disabled(Some((kind, bytes))) <==> bytes@[0] % 2 == 1),
{
}

/// A file's path is its directory's and its own name, with one separator between
/// them, but behind a drive alone, which takes none.
pub proof fn paths_have_one_separator(directory: Seq<char>, file: Seq<char>)
    ensures
        ({
            let path = path_in(directory, file);
            let n = directory.len() as int;
            let drive = n == 2 && directory[1] == ':' && ('a' <= directory[0] <= 'z' || 'A'
                <= directory[0] <= 'Z');
            let separated = n == 0 || directory[n - 1] == '\\' || directory[n - 1] == '/' || drive;
            &&& path.take(n) == directory
            &&& path.skip(path.len() - file.len()) == file
            &&& separated ==> path.len() == n + file.len()
            &&& !separated ==> path.len() == n + file.len() + 1 && path[n] == '\\'
        }),
{
    let path = path_in(directory, file);
    assert(path.take(directory.len() as int) == directory);
    assert(path.skip(path.len() - file.len()) == file);
}

/// An entry that mentions KANALI is listed exactly if it is not ezrama's own and
/// is not disabled.
pub proof fn enabled_entries_are_listed(
    found: Seq<(RunEntry, Option<Raw>)>,
    name: Seq<char>,
    command: Seq<char>,
)
    ensures
        enabled_kanali_entries(found).contains((name, command)) <==> exists|i: int|
            0 <= i < found.len() && (#[trigger] found[i]).0.name@ == name && found[i].0.command@
                == command && name != "ezrama"@ && text::holds(
                text::lowercase(command),
                text::lowercase("kanali"@),
            ) && !disabled(found[i].1),
    decreases found.len(),
{
    let all = enabled_kanali_entries(found);
    if found.len() > 0 {
        let earlier = found.drop_last();
        let before = enabled_kanali_entries(earlier);
        enabled_entries_are_listed(earlier, name, command);
        let (entry, record) = found.last();
        if all.contains((name, command)) {
            let k = choose|k: int| 0 <= k < all.len() && all[k] == (name, command);
            if k < before.len() {
                assert(before[k] == (name, command));
                assert(before.contains((name, command)));
                let i = choose|i: int|
                    0 <= i < earlier.len() && (#[trigger] earlier[i]).0.name@ == name
                        && earlier[i].0.command@ == command && name != "ezrama"@ && text::holds(
                        text::lowercase(command),
                        text::lowercase("kanali"@),
                    ) && !disabled(earlier[i].1);
                assert(found[i] == earlier[i]);
            } else {
                assert(found[found.len() - 1].0.name@ == name);
            }
        }
        if exists|i: int|
            0 <= i < found.len() && (#[trigger] found[i]).0.name@ == name && found[i].0.command@
                == command && name != "ezrama"@ && text::holds(
                text::lowercase(command),
                text::lowercase("kanali"@),
            ) && !disabled(found[i].1) {
            let i = choose|i: int|
                0 <= i < found.len() && (#[trigger] found[i]).0.name@ == name && found[i].0.command@
                    == command && name != "ezrama"@ && text::holds(
                    text::lowercase(command),
                    text::lowercase("kanali"@),
                ) && !disabled(found[i].1);
            if i < earlier.len() {
                assert(earlier[i] == found[i]);
                assert(before.contains((name, command)));
                let k = choose|k: int| 0 <= k < before.len() && before[k] == (name, command);
                assert(all[k] == (name, command));
            } else {
                assert(all.last() == (name, command));
            }
        }
    }
}

} // verus!
