//! Discovery of the display's USB printer-class interface, and what the
//! failures of the calls on it mean.

use vstd::prelude::*;

use crate::text;
use crate::utf16;
use crate::win::{
    DEVICE_INTERFACE_DETAIL_PATH_OFFSET, ERROR_ACCESS_DENIED, ERROR_DEVICE_NOT_CONNECTED,
    ERROR_FILE_NOT_FOUND, ERROR_GEN_FAILURE, ERROR_INSUFFICIENT_BUFFER, ERROR_NO_MORE_ITEMS,
    ERROR_PATH_NOT_FOUND, ERROR_SHARING_VIOLATION,
};

verus! {

/// USB vendor id of the display.
pub const VENDOR_ID: u16 = 0x391a;

/// USB product id of the Panorama SE.
pub const PRODUCT_ID: u16 = 0x1021;

/// Substring that identifies the display in an interface path.
const PANORAMA_MARKER: &'static str = "vid_391a&pid_1021";

/// A failed Win32 call.
#[derive(Debug, Clone, Copy, PartialEq, Eq)]
pub struct WinError {
    pub call: &'static str,
    pub code: u32,
}

/// What [`WinError::describe`] says, when the system describes the code as
/// `message`.
pub open spec fn win_error_text(error: WinError, message: Seq<char>) -> Seq<char> {
    if message.len() == 0 {
        error.call@ + " failed with Windows error "@ + text::decimal(error.code as nat)
    } else {
        error.call@ + " failed: "@ + message + " (Windows error "@ + text::decimal(
            error.code as nat,
        ) + ")"@
    }
}

impl WinError {
    /// The error in words. `message` is the system's description of the code,
    /// or empty if it has none.
    pub fn describe(&self, message: &str) -> (text: String)
        ensures
            text@ == win_error_text(*self, message@),
    {
        let code = text::number(self.code as u128);
        if message.is_empty() {
            text::join3(self.call, " failed with Windows error ", code.as_str())
        } else {
            let start = text::join3(self.call, " failed: ", message);
            let middle = text::join3(start.as_str(), " (Windows error ", code.as_str());
            text::join(middle.as_str(), ")")
        }
    }
}

/// Why the device could not be opened.
#[derive(Debug, Clone, Copy, PartialEq, Eq)]
pub enum OpenError {
    /// Another program holds the device.
    Busy(WinError),
    /// The interface path no longer refers to a working device.
    Gone(WinError),
    Other(WinError),
}

/// What a failed open means.
pub open spec fn open_error(error: WinError) -> OpenError {
    if error.code == ERROR_ACCESS_DENIED || error.code == ERROR_SHARING_VIOLATION {
        OpenError::Busy(error)
    } else if error.code == ERROR_FILE_NOT_FOUND || error.code == ERROR_PATH_NOT_FOUND
        || error.code == ERROR_GEN_FAILURE || error.code == ERROR_DEVICE_NOT_CONNECTED {
        OpenError::Gone(error)
    } else {
        OpenError::Other(error)
    }
}

/// What [`OpenError::describe`] says, when the system describes the code as
/// `message`.
pub open spec fn open_error_text(error: OpenError, message: Seq<char>) -> Seq<char> {
    match error {
        OpenError::Busy(error) => "another program holds the device ("@ + win_error_text(
            error,
            message,
        ) + ")"@,
        OpenError::Gone(error) => "the device is not available ("@ + win_error_text(error, message)
            + ")"@,
        OpenError::Other(error) => win_error_text(error, message),
    }
}

impl OpenError {
    /// What a failed open means.
    pub fn classify(error: WinError) -> (class: Self)
        ensures
            class == open_error(error),
    {
        match error.code {
            ERROR_ACCESS_DENIED | ERROR_SHARING_VIOLATION => OpenError::Busy(error),
            ERROR_FILE_NOT_FOUND
            | ERROR_PATH_NOT_FOUND
            | ERROR_GEN_FAILURE
            | ERROR_DEVICE_NOT_CONNECTED => OpenError::Gone(error),
            _ => OpenError::Other(error),
        }
    }

    /// The call that failed.
    pub fn error(&self) -> (error: WinError)
        ensures
            *self is Busy ==> error == self->Busy_0,
            *self is Gone ==> error == self->Gone_0,
            *self is Other ==> error == self->Other_0,
    {
        match *self {
            OpenError::Busy(error) => error,
            OpenError::Gone(error) => error,
            OpenError::Other(error) => error,
        }
    }

    /// The error in words. `message` is the system's description of the code,
    /// or empty if it has none.
    pub fn describe(&self, message: &str) -> (text: String)
        ensures
            text@ == open_error_text(*self, message@),
    {
        match *self {
            OpenError::Busy(error) => text::join3(
                "another program holds the device (",
                error.describe(message).as_str(),
                ")",
            ),
            OpenError::Gone(error) => text::join3(
                "the device is not available (",
                error.describe(message).as_str(),
                ")",
            ),
            OpenError::Other(error) => error.describe(message),
        }
    }
}

/// NUL-terminated UTF-16 for Win32 wide-string parameters.
pub fn wide(text: &str) -> (units: Vec<u16>)
    ensures
        units@ == utf16::utf16_of(text@).push(0),
{
    let mut units = utf16::encode(text);
    units.push(0);
    units
}

/// Outcome of looking for the display.
#[derive(Debug, PartialEq, Eq)]
pub enum Discovery {
    Absent,
    One(String),
    Several(Vec<String>),
}

/// What [`decode_detail_path`] reads.
pub open spec fn detail_path(detail: Seq<u8>) -> Seq<char> {
    utf16::utf16_text(
        if detail.len() >= DEVICE_INTERFACE_DETAIL_PATH_OFFSET {
            utf16::units_until_nul(detail.skip(DEVICE_INTERFACE_DETAIL_PATH_OFFSET as int))
        } else {
            Seq::empty()
        },
    )
}

/// Extracts the NUL-terminated UTF-16 path from a filled
/// `SP_DEVICE_INTERFACE_DETAIL_DATA_W` buffer.
pub fn decode_detail_path(detail: &[u8]) -> (path: String)
    ensures
        path@ == detail_path(detail@),
{
    let units = utf16::read_units(detail, DEVICE_INTERFACE_DETAIL_PATH_OFFSET);
    utf16::decode(units.as_slice())
}

/// Whether an interface path belongs to a Panorama SE: it holds the marker,
/// whatever the case of its letters.
pub open spec fn is_panorama(path: Seq<char>) -> bool {
    text::holds(text::lowercase(path), text::lowercase("vid_391a&pid_1021"@))
}

/// Whether an interface path belongs to a Panorama SE.
pub fn is_panorama_path(path: &str) -> (panorama: bool)
    ensures
        panorama == is_panorama(path@),
{
    text::holds_ignoring_case(path, PANORAMA_MARKER)
}

/// The paths that belong to a Panorama SE, in order.
pub open spec fn panorama_paths(paths: Seq<String>) -> Seq<String> {
    paths.filter(|path: String| is_panorama(path@))
}

/// Narrows a list of printer-class interface paths to the display.
pub fn select_panorama(paths: Vec<String>) -> (found: Discovery)
    ensures
        ({
            let matching = panorama_paths(paths@);
            match found {
                Discovery::Absent => matching.len() == 0,
                Discovery::One(path) => matching == seq![path],
                Discovery::Several(several) => matching.len() >= 2 && several@ == matching,
            }
        }),
{
    let mut matching: Vec<String> = Vec::new();
    let mut i: usize = 0;
    let ghost pick = |path: String| is_panorama(path@);
    assert(paths@.take(0).filter(pick) == Seq::<String>::empty()) by {
        reveal(Seq::filter);
    }
    while i < paths.len()
        invariant
            i <= paths@.len(),
            pick == |path: String| is_panorama(path@),
            matching@ == paths@.take(i as int).filter(pick),
        decreases paths@.len() - i,
    {
        if is_panorama_path(paths[i].as_str()) {
            matching.push(paths[i].clone());
        }
        i = i + 1;
        proof {
            reveal(Seq::filter);
            assert(paths@.take(i as int).drop_last() == paths@.take(i - 1));
        }
    }
    assert(paths@.take(i as int) == paths@);
    if matching.len() == 0 {
        Discovery::Absent
    } else if matching.len() == 1 {
        let ghost all = matching@;
        let path = matching.swap_remove(0);
        assert(all == seq![path]);
        Discovery::One(path)
    } else {
        Discovery::Several(matching)
    }
}

// ---------------------------------------------------------------------------
// Listing the printer-class interfaces.
// ---------------------------------------------------------------------------

/// What listing the interfaces does next.
#[derive(Debug, PartialEq, Eq)]
pub enum ListAction {
    /// Ask for the interface with this number.
    Next(u32),
    /// Ask how many bytes its detail takes.
    Measure,
    /// Ask for its detail, in a buffer of this many 32-bit words.
    Fetch(usize),
    /// The list is complete.
    Finish(Vec<String>),
    /// The list cannot be made.
    Fail(WinError),
}

/// How what was done last has ended.
#[derive(Debug, PartialEq, Eq)]
pub enum ListEvent {
    /// Whether there is such an interface, and the error code if not.
    Found(bool, u32),
    /// The error code of the measurement, and how many bytes it asks for.
    Measured(u32, u32),
    /// Whether the detail was filled in, the error code if not, and the detail.
    Fetched(bool, u32, Vec<u8>),
}

/// The paths found so far, and the number of the interface that is looked at.
#[derive(Debug, PartialEq, Eq)]
pub struct Listing {
    pub index: u32,
    pub paths: Vec<String>,
}

/// The paths found so far, and the number of the interface that is looked at.
pub struct ListingView {
    pub index: u32,
    pub paths: Seq<Seq<char>>,
}

impl View for Listing {
    type V = ListingView;

    open spec fn view(&self) -> ListingView {
        ListingView { index: self.index, paths: text::views(self.paths@) }
    }
}

/// How many 32-bit words hold so many bytes; at least two.
pub open spec fn detail_words(required: u32) -> int {
    if required <= 8 {
        2
    } else {
        (required + 3) / 4
    }
}

/// The failure of `call`.
pub open spec fn failure(call: &'static str, code: u32) -> WinError {
    WinError { call, code }
}

/// Whether `action` follows an event, and the listing after it.
pub open spec fn list_next(l: ListingView, event: ListEvent, action: ListAction, after: ListingView) -> bool {
    match event {
        ListEvent::Found(found, code) => {
            &&& after == l
            &&& if found {
                action == ListAction::Measure
            } else if code == ERROR_NO_MORE_ITEMS {
                action matches ListAction::Finish(paths) && text::views(paths@) == l.paths
            } else {
                action == ListAction::Fail(failure("SetupDiEnumDeviceInterfaces", code))
            }
        },
        ListEvent::Measured(code, required) => {
            &&& after == l
            &&& if code == ERROR_INSUFFICIENT_BUFFER {
                action matches ListAction::Fetch(words) && words == detail_words(required)
            } else {
                action == ListAction::Fail(failure("SetupDiGetDeviceInterfaceDetailW", code))
            }
        },
        ListEvent::Fetched(filled, code, detail) => if filled {
            &&& action == ListAction::Next((l.index + 1) as u32)
            &&& after == (ListingView {
                index: (l.index + 1) as u32,
                paths: l.paths.push(detail_path(detail@)),
            })
        } else {
            &&& action == ListAction::Fail(failure("SetupDiGetDeviceInterfaceDetailW", code))
            &&& after == l
        },
    }
}

impl Listing {
    /// Starts with the first interface.
    pub fn start() -> (started: (ListAction, Self))
        ensures
            started.0 == ListAction::Next(0),
            started.1@ == (ListingView { index: 0, paths: Seq::empty() }),
    {
        let listing = Listing { index: 0, paths: Vec::new() };
        assert(listing@.paths == Seq::<Seq<char>>::empty());
        (ListAction::Next(0), listing)
    }

    /// What follows an event: the interfaces are asked for one after the other
    /// until there are no more, and each for its path.
    pub fn next(&mut self, event: ListEvent) -> (action: ListAction)
        requires
            old(self).index < u32::MAX,
        ensures
            list_next(old(self)@, event, action, final(self)@),
    {
        match event {
            ListEvent::Found(found, code) => {
                if found {
                    ListAction::Measure
                } else if code == ERROR_NO_MORE_ITEMS {
                    ListAction::Finish(copies(&self.paths))
                } else {
                    ListAction::Fail(WinError { call: "SetupDiEnumDeviceInterfaces", code })
                }
            },
            ListEvent::Measured(code, required) => {
                if code != ERROR_INSUFFICIENT_BUFFER {
                    return ListAction::Fail(
                        WinError { call: "SetupDiGetDeviceInterfaceDetailW", code },
                    );
                }
                let words: usize = if required <= 8 {
                    2
                } else if required % 4 == 0 {
                    (required / 4) as usize
                } else {
                    (required / 4) as usize + 1
                };
                ListAction::Fetch(words)
            },
            ListEvent::Fetched(filled, code, detail) => {
                if !filled {
                    return ListAction::Fail(
                        WinError { call: "SetupDiGetDeviceInterfaceDetailW", code },
                    );
                }
                let ghost before = self@.paths;
                let path = decode_detail_path(detail.as_slice());
                self.paths.push(path);
                self.index = self.index + 1;
                assert(self@.paths == before.push(path@));
                ListAction::Next(self.index)
            },
        }
    }
}

/// Copies of several texts.
fn copies(texts: &Vec<String>) -> (copied: Vec<String>)
    ensures
        text::views(copied@) == text::views(texts@),
{
    let mut copied: Vec<String> = Vec::new();
    let mut i: usize = 0;
    let ghost all = text::views(texts@);
    assert(text::views(copied@) == all.take(0));
    while i < texts.len()
        invariant
            i <= texts@.len(),
            all == text::views(texts@),
            text::views(copied@) == all.take(i as int),
        decreases texts@.len() - i,
    {
        let ghost before = text::views(copied@);
        copied.push(texts[i].clone());
        assert(text::views(copied@) == before.push(texts@[i as int]@));
        assert(all.take(i + 1) == all.take(i as int).push(texts@[i as int]@));
        i = i + 1;
    }
    assert(all.take(i as int) == all);
    copied
}

// ---------------------------------------------------------------------------
// Laws.
// ---------------------------------------------------------------------------

/// The case of the letters in a path makes no difference.
pub proof fn marker_match_ignores_case(a: Seq<char>, b: Seq<char>)
    requires
        text::lowercase(a) == text::lowercase(b),
    ensures
        is_panorama(a) == is_panorama(b),
{
}

/// A failed open means that another program holds the device exactly if access
/// was denied or the sharing violated, and that the device is gone exactly if
/// its path leads nowhere or it does not work; the failed call stays known.
pub proof fn failed_opens_are_told_apart(error: WinError)
    ensures
        open_error(error) == OpenError::Busy(error) <==> error.code == 5 || error.code == 32,
        open_error(error) == OpenError::Gone(error) <==> error.code == 2 || error.code == 3
            || error.code == 31 || error.code == 1167,
        open_error(error) == OpenError::Busy(error) || open_error(error) == OpenError::Gone(error)
            || open_error(error) == OpenError::Other(error),
{
}

/// A failed open is told by what it means, and with the call, the system's
/// description and the code.
pub proof fn failed_opens_say_what_they_mean(error: OpenError, call: WinError, message: Seq<char>)
    requires
        error == OpenError::Busy(call) || error == OpenError::Gone(call) || error
            == OpenError::Other(call),
    ensures
        ({
            let code = text::decimal(call.code as nat);
            let cause = if message.len() > 0 {
                call.call@ + " failed: "@ + message + " (Windows error "@ + code + ")"@
            } else {
                call.call@ + " failed with Windows error "@ + code
            };
            open_error_text(error, message) == match error {
                OpenError::Busy(_) => "another program holds the device ("@ + cause + ")"@,
                OpenError::Gone(_) => "the device is not available ("@ + cause + ")"@,
                OpenError::Other(_) => cause,
            }
        }),
{
}

/// A buffer for a detail holds all the bytes that were asked for, and the size
/// and the start of a path in any case, with less than a word to spare.
pub proof fn details_fit_their_buffer(required: u32)
    ensures
        detail_words(required) * 4 >= required,
        detail_words(required) * 4 >= 8,
        required > 8 ==> detail_words(required) * 4 < required + 4,
{
}

/// What is taken for the display is exactly what bears its marker, and nothing
/// that bears it is left out.
pub proof fn displays_are_those_with_the_marker(paths: Seq<String>, path: String)
    ensures
        panorama_paths(paths).contains(path) <==> paths.contains(path) && text::holds(
            text::lowercase(path@),
            text::lowercase("vid_391a&pid_1021"@),
        ),
{
    let pick = |p: String| is_panorama(p@);
    if paths.contains(path) && is_panorama(path@) {
        let i = choose|i: int| 0 <= i < paths.len() && paths[i] == path;
        lemma_filter_keeps(paths, i);
    }
    if panorama_paths(paths).contains(path) {
        lemma_filter_only(paths, path);
    }
}

proof fn lemma_filter_keeps(paths: Seq<String>, i: int)
    requires
        0 <= i < paths.len(),
        is_panorama(paths[i]@),
    ensures
        panorama_paths(paths).contains(paths[i]),
    decreases paths.len(),
{
    reveal(Seq::filter);
    let pick = |p: String| is_panorama(p@);
    let before = panorama_paths(paths.drop_last());
    if i < paths.len() - 1 {
        lemma_filter_keeps(paths.drop_last(), i);
        let k = choose|k: int| 0 <= k < before.len() && before[k] == paths[i];
        assert(panorama_paths(paths)[k] == paths[i]);
    } else {
        assert(panorama_paths(paths).last() == paths[i]);
    }
}

proof fn lemma_filter_only(paths: Seq<String>, path: String)
    requires
        panorama_paths(paths).contains(path),
    ensures
        paths.contains(path),
        is_panorama(path@),
    decreases paths.len(),
{
    reveal(Seq::filter);
    if paths.len() > 0 {
        let before = panorama_paths(paths.drop_last());
        let all = panorama_paths(paths);
        let k = choose|k: int| 0 <= k < all.len() && all[k] == path;
        if k < before.len() {
            assert(before[k] == path);
            assert(before.contains(path));
            lemma_filter_only(paths.drop_last(), path);
            let i = choose|i: int| 0 <= i < paths.drop_last().len() && paths.drop_last()[i] == path;
            assert(paths[i] == path);
        } else {
            assert(paths[paths.len() - 1] == path);
        }
    }
}

} // verus!
