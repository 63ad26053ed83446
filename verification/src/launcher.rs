//! Starting other programs and waiting for them: the watcher at install
//! time, and KANALI on request, where the wait covers KANALI's habit of
//! handing over to a fresh process of its own.

use vstd::prelude::*;

use crate::install;
use crate::text;
use crate::time::Duration;
use crate::utf16;

verus! {

/// File name of KANALI's executable.
pub const KANALI_EXE: &'static str = "KANALI.exe";

/// Uninstall key written by KANALI's installer; its `DisplayIcon` value
/// names the executable.
pub const KANALI_UNINSTALL_KEY: &'static str =
    r"Software\Microsoft\Windows\CurrentVersion\Uninstall\KANALI";

/// After a started KANALI hands over to another process of its own, how
/// long to look for that process before concluding KANALI has closed.
pub const HANDOVER_GRACE: Duration = 1_000_000_000;

/// How many times to look.
pub const HANDOVER_CHECKS: u32 = 3;

/// How many processes one wait can cover.
pub const MAXIMUM_WAITED: usize = 64;

// ---------------------------------------------------------------------------
// Where KANALI is.
// ---------------------------------------------------------------------------

/// The path in a trimmed `DisplayIcon` value: what stands between quotes, or
/// else what stands before the last comma if an icon index follows it.
pub open spec fn icon_path_part(value: Seq<char>) -> Seq<char> {
    let comma = text::last_at(value, ',');
    if value.len() > 0 && value[0] == '"' {
        text::before(value.skip(1), '"')
    } else if comma >= 0 && text::writes_i32(text::trimmed(value.skip(comma + 1))) {
        value.take(comma)
    } else {
        value
    }
}

/// A `DisplayIcon` value is a path, possibly quoted, possibly followed by
/// a comma and an icon index.
pub fn icon_source_path<'a>(value: &'a str) -> (path: &'a str)
    ensures
        path@ == text::trimmed(icon_path_part(text::trimmed(value@))),
{
    let value = text::trim(value);
    let chars = text::chars_of(value);
    let length: usize = chars.len();
    if length > 0 && chars[0] == '"' {
        assert(value@.skip(1) == value@.subrange(1, length as int));
        return text::trim(text::up_to(text::slice(value, 1, length), '"'));
    }
    if let Some(comma) = text::find_last(value, ',') {
        assert(value@.skip(comma + 1) == value@.subrange(comma + 1, length as int));
        if text::is_i32(text::trim(text::slice(value, comma + 1, length))) {
            assert(value@.take(comma as int) == value@.subrange(0, comma as int));
            return text::trim(text::slice(value, 0, comma));
        }
    }
    text::trim(value)
}

/// Where to look for KANALI's executable, in this order: the paths that the
/// `DisplayIcon` values name, as far as there are any, then its directory
/// under the program files directory.
pub open spec fn kanali_places(
    icons: Seq<Option<String>>,
    program_files: Option<String>,
) -> Seq<Seq<char>> {
    match program_files {
        Some(programs) => icon_paths(icons).push(
            install::path_in(install::path_in(programs@, "KANALI"@), KANALI_EXE@),
        ),
        None => icon_paths(icons),
    }
}

/// The paths that `DisplayIcon` values name, as far as there are any.
pub open spec fn icon_paths(icons: Seq<Option<String>>) -> Seq<Seq<char>>
    decreases icons.len(),
{
    if icons.len() == 0 {
        Seq::empty()
    } else {
        let before = icon_paths(icons.drop_last());
        match icons.last() {
            Some(value) => before.push(text::trimmed(icon_path_part(text::trimmed(value@)))),
            None => before,
        }
    }
}

/// Where KANALI's executable may be, the first one that is a file counting:
/// the paths that the `DisplayIcon` values of its uninstall keys name, then
/// its directory under the program files directory.
pub fn kanali_candidates(icons: &Vec<Option<String>>, program_files: &Option<String>) -> (places:
    Vec<String>)
    ensures
        text::views(places@) == kanali_places(icons@, *program_files),
{
    let mut places: Vec<String> = Vec::new();
    let mut i: usize = 0;
    assert(text::views(places@) == Seq::<Seq<char>>::empty());
    while i < icons.len()
        invariant
            i <= icons@.len(),
            text::views(places@) == icon_paths(icons@.take(i as int)),
        decreases icons@.len() - i,
    {
        let ghost more = icons@.take(i + 1);
        assert(more.drop_last() == icons@.take(i as int));
        let ghost before = text::views(places@);
        match &icons[i] {
            Some(value) => {
                let path = icon_source_path(value.as_str()).to_owned();
                places.push(path);
                assert(text::views(places@) == before.push(path@));
            },
            None => {},
        }
        i = i + 1;
    }
    assert(icons@.take(i as int) == icons@);
    let ghost before = text::views(places@);
    match program_files {
        Some(programs) => {
            let directory = install::file_in(programs.as_str(), "KANALI");
            let path = install::file_in(directory.as_str(), KANALI_EXE);
            places.push(path);
            assert(text::views(places@) == before.push(path@));
        },
        None => {},
    }
    places
}

// ---------------------------------------------------------------------------
// Starting a program.
// ---------------------------------------------------------------------------

/// The units of a command line: the quoted path of the program, the arguments,
/// and a terminator.
pub fn command_line(program: &[u16], arguments: &str) -> (units: Vec<u16>)
    ensures
        units@ == (seq![0x22u16] + program@ + utf16::utf16_of("\" "@ + arguments@)).push(0u16),
{
    let mut units: Vec<u16> = Vec::new();
    units.push(0x22);
    units.extend_from_slice(program);
    let rest = text::join("\" ", arguments);
    let mut tail = utf16::encode(rest.as_str());
    assert(units@ == seq![0x22u16] + program@);
    units.append(&mut tail);
    units.push(0);
    units
}

// ---------------------------------------------------------------------------
// Waiting for processes.
// ---------------------------------------------------------------------------

/// The processes among `listed` whose executable is named `name`, but for the
/// process `own`.
pub open spec fn named_processes(listed: Seq<(u32, String)>, own: u32, name: Seq<char>) -> Seq<u32>
    decreases listed.len(),
{
    if listed.len() == 0 {
        Seq::empty()
    } else {
        let before = named_processes(listed.drop_last(), own, name);
        let (id, exe) = listed.last();
        if id != own && text::lowercase(exe@) == text::lowercase(name) {
            before.push(id)
        } else {
            before
        }
    }
}

/// Process ids whose executable is named `name`, other than this process,
/// which is `own`.
pub fn processes_named(listed: &Vec<(u32, String)>, own: u32, name: &str) -> (found: Vec<u32>)
    ensures
        found@ == named_processes(listed@, own, name@),
{
    let mut found: Vec<u32> = Vec::new();
    let mut i: usize = 0;
    while i < listed.len()
        invariant
            i <= listed@.len(),
            found@ == named_processes(listed@.take(i as int), own, name@),
        decreases listed@.len() - i,
    {
        let ghost more = listed@.take(i + 1);
        assert(more.drop_last() == listed@.take(i as int));
        let (id, exe) = &listed[i];
        if *id != own && text::same_ignoring_case(exe.as_str(), name) {
            found.push(*id);
        }
        i = i + 1;
    }
    assert(listed@.take(i as int) == listed@);
    found
}

/// What to do after looking for processes.
#[derive(Debug, Clone, Copy, PartialEq, Eq)]
pub enum Look {
    /// No process is left.
    Gone,
    /// Look again after [`HANDOVER_GRACE`].
    Pause,
    /// Wait for the first of the listed processes, so many of them, to exit,
    /// then look again.
    Wait(usize),
}

/// What follows from a look that found so many processes, with so many repeats
/// of the first look left, and how many are left then.
pub open spec fn looked(checks: u32, found: nat) -> (Look, u32) {
    if found > 0 {
        (
            Look::Wait(
                if found < MAXIMUM_WAITED {
                    found as usize
                } else {
                    MAXIMUM_WAITED
                },
            ),
            0,
        )
    } else if checks == 0 {
        (Look::Gone, 0)
    } else {
        (Look::Pause, (checks - 1) as u32)
    }
}

/// Waiting until no process of a name is left. A program that starts and
/// hands over to a fresh process of its own may leave a gap; the first
/// look is repeated [`HANDOVER_CHECKS`] times, [`HANDOVER_GRACE`] apart,
/// before an empty result counts. Once a process has been seen, an empty
/// result counts at once: KANALI hands over exactly once, within a third
/// of a second, and repeating the grace after every wait would delay each
/// resume by the full grace for a second hand-over that does not happen.
#[derive(Debug, Clone, Copy, PartialEq, Eq)]
pub struct Handover {
    /// How many more times an empty result does not count.
    pub checks: u32,
}

impl Handover {
    pub fn new() -> (handover: Self)
        ensures
            handover.checks == HANDOVER_CHECKS,
    {
        Handover { checks: HANDOVER_CHECKS }
    }

    /// What to do after a look that found so many processes.
    pub fn look(&mut self, found: usize) -> (look: Look)
        ensures
            (look, final(self).checks) == looked(old(self).checks, found as nat),
    {
        if found == 0 {
            if self.checks == 0 {
                return Look::Gone;
            }
            self.checks = self.checks - 1;
            return Look::Pause;
        }
        self.checks = 0;
        if found < MAXIMUM_WAITED {
            Look::Wait(found)
        } else {
            Look::Wait(MAXIMUM_WAITED)
        }
    }
}

// ---------------------------------------------------------------------------
// Laws.
// ---------------------------------------------------------------------------

/// How many repeats are left after `n` looks that found nothing.
pub open spec fn checks_after(checks: u32, n: nat) -> u32
    decreases n,
{
    if n == 0 {
        checks
    } else {
        looked(checks_after(checks, (n - 1) as nat), 0).1
    }
}

proof fn lemma_checks_after(n: nat)
    requires
        n <= HANDOVER_CHECKS,
    ensures
        checks_after(HANDOVER_CHECKS, n) == HANDOVER_CHECKS - n,
    decreases n,
{
    if n > 0 {
        lemma_checks_after((n - 1) as nat);
    }
}

/// A program that is never seen is waited for through exactly
/// [`HANDOVER_CHECKS`] pauses.
pub proof fn unseen_program_gets_the_whole_grace(n: nat)
    requires
        n <= HANDOVER_CHECKS,
    ensures
        looked(checks_after(HANDOVER_CHECKS, n), 0).0 == if n < HANDOVER_CHECKS {
            Look::Pause
        } else {
            Look::Gone
        },
{
    lemma_checks_after(n);
}

/// Once a process was seen, the first look that finds none ends the wait,
/// whatever repeats were left before.
pub proof fn seen_program_ends_the_grace(checks: u32, found: nat)
    requires
        found > 0,
    ensures
        looked(checks, found).0 is Wait,
        looked(looked(checks, found).1, 0).0 is Gone,
{
}

/// The own process is never among those that are waited for.
pub proof fn own_process_is_not_listed(
    listed: Seq<(u32, String)>,
    own: u32,
    name: Seq<char>,
    i: int,
)
    requires
        0 <= i < named_processes(listed, own, name).len(),
    ensures
        named_processes(listed, own, name)[i] != own,
    decreases listed.len(),
{
    if listed.len() > 0 {
        let before = named_processes(listed.drop_last(), own, name);
        if i < before.len() {
            own_process_is_not_listed(listed.drop_last(), own, name, i);
        }
    }
}

/// A program is waited for as long as any process of its name is seen, however
/// many there are, but for no more than 64 of them at a time; and one that was
/// never seen is looked for four times in all, a second apart.
pub proof fn seen_programs_are_waited_for(checks: u32, found: nat)
    ensures
        found > 0 ==> looked(checks, found).0 == Look::Wait(
            if found <= 64 {
                found as usize
            } else {
                64
            },
        ),
        found == 0 ==> (looked(checks, found).0 is Gone <==> checks == 0),
        HANDOVER_CHECKS == 3,
        HANDOVER_GRACE == 1_000_000_000,
{
}

/// A process is waited for exactly if it is another one than this and its
/// executable has the name, whatever the case of the letters.
pub proof fn named_processes_are_all_listed(
    listed: Seq<(u32, String)>,
    own: u32,
    name: Seq<char>,
    id: u32,
)
    ensures
        named_processes(listed, own, name).contains(id) <==> exists|i: int|
            0 <= i < listed.len() && (#[trigger] listed[i]).0 == id && id != own && text::lowercase(
                listed[i].1@,
            ) == text::lowercase(name),
    decreases listed.len(),
{
    let all = named_processes(listed, own, name);
    if listed.len() > 0 {
        let earlier = listed.drop_last();
        let before = named_processes(earlier, own, name);
        named_processes_are_all_listed(earlier, own, name, id);
        if all.contains(id) {
            let k = choose|k: int| 0 <= k < all.len() && all[k] == id;
            if k < before.len() {
                assert(before[k] == id);
                assert(before.contains(id));
                let i = choose|i: int|
                    0 <= i < earlier.len() && (#[trigger] earlier[i]).0 == id && id != own
                        && text::lowercase(earlier[i].1@) == text::lowercase(name);
                assert(listed[i] == earlier[i]);
            } else {
                assert(listed[listed.len() - 1].0 == id);
            }
        }
        if exists|i: int|
            0 <= i < listed.len() && (#[trigger] listed[i]).0 == id && id != own && text::lowercase(
                listed[i].1@,
            ) == text::lowercase(name) {
            let i = choose|i: int|
                0 <= i < listed.len() && (#[trigger] listed[i]).0 == id && id != own
                    && text::lowercase(listed[i].1@) == text::lowercase(name);
            if i < earlier.len() {
                assert(earlier[i] == listed[i]);
                assert(before.contains(id));
                let k = choose|k: int| 0 <= k < before.len() && before[k] == id;
                assert(all[k] == id);
            } else {
                assert(all.last() == id);
            }
        }
    }
}

} // verus!
