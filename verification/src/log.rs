//! A small log: what its lines look like, when its file is moved aside, and
//! the lines that wait to be written.

use vstd::prelude::*;
use vstd::string::StringExecFns;

use crate::install;
use crate::text;

verus! {

/// Size at which the current log is moved aside before writing.
pub const MAX_LOG_BYTES: u64 = 1_048_576;

/// File name of the log.
pub const LOG_FILE: &'static str = "ezrama.log";

/// The default log location under the local app data directory `base`: next to
/// the installed program.
pub fn default_log_path(base: &str) -> (path: String)
    ensures
        path@ == install::path_in(install::path_in(base@, "ezrama"@), LOG_FILE@),
{
    install::file_in(install::install_dir(base).as_str(), LOG_FILE)
}

/// Whether a line goes to standard output: where it is echoed, and where there
/// is no file to hold it.
pub fn is_printed(has_file: bool, echo: bool) -> (printed: bool)
    ensures
        printed == (echo || !has_file),
{
    echo || !has_file
}

/// Whether a log of `size` bytes should be moved aside before appending.
pub fn should_rotate(size: u64) -> (rotate: bool)
    ensures
        rotate == (size >= MAX_LOG_BYTES),
{
    size >= MAX_LOG_BYTES
}

/// One log line: timestamp, a space, the message, a newline.
pub fn format_line(timestamp: &str, message: &str) -> (line: String)
    ensures
        line@ == timestamp@ + " "@ + message@ + "\n"@,
{
    let mut line = text::join3(timestamp, " ", message);
    line.append("\n");
    line
}

/// A local date and time.
#[derive(Debug, Clone, Copy, PartialEq, Eq, Structural)]
pub struct LocalTime {
    pub year: u16,
    pub month: u16,
    pub day: u16,
    pub hour: u16,
    pub minute: u16,
    pub second: u16,
}

/// `n` in decimal with zeros in front up to `width` digits.
pub open spec fn padded(n: nat, width: nat) -> Seq<char> {
    let digits = text::decimal(n);
    if digits.len() >= width {
        digits
    } else {
        Seq::new((width - digits.len()) as nat, |i: int| '0') + digits
    }
}

/// What [`timestamp`] says.
pub open spec fn timestamp_text(time: LocalTime) -> Seq<char> {
    padded(time.year as nat, 4) + "-"@ + padded(time.month as nat, 2) + "-"@ + padded(
        time.day as nat,
        2,
    ) + " "@ + padded(time.hour as nat, 2) + ":"@ + padded(time.minute as nat, 2) + ":"@ + padded(
        time.second as nat,
        2,
    )
}

/// `n` in decimal with zeros in front up to `width` digits.
fn pad(n: u16, width: usize) -> (text: String)
    requires
        width <= 4,
    ensures
        text@ == padded(n as nat, width as nat),
{
    let digits = text::number(n as u128);
    let mut zeros = String::new();
    let mut len: usize = digits.as_str().unicode_len();
    let ghost first = len;
    proof {
        reveal_strlit("0");
    }
    while len < width
        invariant
            first <= len,
            first <= width ==> len <= width,
            first > width ==> len == first,
            first == text::decimal(n as nat).len(),
            zeros@ == Seq::new((len - first) as nat, |i: int| '0'),
            "0"@ == seq!['0'],
        decreases width - len,
    {
        zeros.append("0");
        len = len + 1;
        assert(zeros@ == Seq::new((len - first) as nat, |i: int| '0'));
    }
    zeros.append(digits.as_str());
    assert(zeros@ == padded(n as nat, width as nat));
    zeros
}

/// A local time as it stands at the front of a log line:
/// `YYYY-MM-DD hh:mm:ss`.
pub fn timestamp(time: LocalTime) -> (stamp: String)
    ensures
        stamp@ == timestamp_text(time),
{
    let mut stamp = pad(time.year, 4);
    stamp.append("-");
    stamp.append(pad(time.month, 2).as_str());
    stamp.append("-");
    stamp.append(pad(time.day, 2).as_str());
    stamp.append(" ");
    stamp.append(pad(time.hour, 2).as_str());
    stamp.append(":");
    stamp.append(pad(time.minute, 2).as_str());
    stamp.append(":");
    stamp.append(pad(time.second, 2).as_str());
    stamp
}

/// Collects lines until they are written out.
#[derive(Debug)]
pub struct Logger {
    /// Whether lines are dropped.
    pub silent: bool,
    /// The lines that wait to be written.
    pub lines: Vec<String>,
}

/// What a [`Logger`] holds.
#[verifier::ext_equal]
pub struct LogView {
    pub silent: bool,
    pub lines: Seq<Seq<char>>,
}

impl View for Logger {
    type V = LogView;

    open spec fn view(&self) -> LogView {
        LogView {
            silent: self.silent,
            lines: self.lines@.map_values(|line: String| line@),
        }
    }
}

impl LogView {
    /// With one more line.
    pub open spec fn with(self, line: Seq<char>) -> LogView {
        if self.silent {
            self
        } else {
            LogView { lines: self.lines.push(line), ..self }
        }
    }
}

impl Logger {
    /// A log that keeps its lines.
    pub fn new() -> (log: Self)
        ensures
            log@ == (LogView { silent: false, lines: Seq::empty() }),
    {
        let log = Logger { silent: false, lines: Vec::new() };
        assert(log@.lines == Seq::<Seq<char>>::empty());
        log
    }

    /// A log that drops its lines.
    pub fn silent() -> (log: Self)
        ensures
            log@ == (LogView { silent: true, lines: Seq::empty() }),
    {
        let log = Logger { silent: true, lines: Vec::new() };
        assert(log@.lines == Seq::<Seq<char>>::empty());
        log
    }

    /// Appends one line.
    pub fn log(&mut self, message: &str)
        ensures
            final(self)@ == old(self)@.with(message@),
    {
        if !self.silent {
            self.lines.push(message.to_owned());
            assert(self@.lines == old(self)@.lines.push(message@));
        }
    }

    /// Hands out the lines that wait to be written.
    pub fn take(&mut self) -> (lines: Vec<String>)
        ensures
            lines@ == old(self).lines@,
            final(self)@ == (LogView { lines: Seq::empty(), ..old(self)@ }),
    {
        let mut lines: Vec<String> = Vec::new();
        lines.append(&mut self.lines);
        assert(lines@ == old(self).lines@);
        assert(self@.lines == Seq::<Seq<char>>::empty());
        lines
    }
}

// ---------------------------------------------------------------------------
// Laws.
// ---------------------------------------------------------------------------

proof fn lemma_digits(n: nat)
    ensures
        forall|i: int| 0 <= i < text::decimal(n).len() ==> '0' <= #[trigger] text::decimal(n)[i] <= '9',
        text::decimal(n).len() >= 1,
    decreases n,
{
    if n >= 10 {
        lemma_digits(n / 10);
    }
}

/// Whether a character may stand in a timestamp.
pub open spec fn stamp_char(c: char) -> bool {
    ('0' <= c <= '9') || c == '-' || c == ':' || c == ' '
}

/// Whether every character may stand in a timestamp.
pub open spec fn stamp_chars(text: Seq<char>) -> bool {
    forall|i: int| 0 <= i < text.len() ==> stamp_char(#[trigger] text[i])
}

proof fn lemma_padded(n: nat, width: nat)
    ensures
        stamp_chars(padded(n, width)),
        padded(n, width).len() > 0,
{
    lemma_digits(n);
}

proof fn lemma_joined(a: Seq<char>, b: Seq<char>)
    requires
        stamp_chars(a),
        stamp_chars(b),
    ensures
        stamp_chars(a + b),
{
}

/// A timestamp is never empty and holds nothing but digits, dashes, colons and
/// a space.
pub proof fn timestamps_have_a_stable_shape(time: LocalTime)
    ensures
        timestamp_text(time).len() > 0,
        stamp_chars(timestamp_text(time)),
{
    reveal_strlit("-");
    reveal_strlit(":");
    reveal_strlit(" ");
    lemma_padded(time.year as nat, 4);
    lemma_padded(time.month as nat, 2);
    lemma_padded(time.day as nat, 2);
    lemma_padded(time.hour as nat, 2);
    lemma_padded(time.minute as nat, 2);
    lemma_padded(time.second as nat, 2);
    let year = padded(time.year as nat, 4);
    let month = padded(time.month as nat, 2);
    let day = padded(time.day as nat, 2);
    let hour = padded(time.hour as nat, 2);
    let minute = padded(time.minute as nat, 2);
    let second = padded(time.second as nat, 2);
    lemma_joined(year, "-"@);
    lemma_joined(year + "-"@, month);
    lemma_joined(year + "-"@ + month, "-"@);
    lemma_joined(year + "-"@ + month + "-"@, day);
    lemma_joined(year + "-"@ + month + "-"@ + day, " "@);
    let date = year + "-"@ + month + "-"@ + day + " "@;
    lemma_joined(date, hour);
    lemma_joined(date + hour, ":"@);
    lemma_joined(date + hour + ":"@, minute);
    lemma_joined(date + hour + ":"@ + minute, ":"@);
    lemma_joined(date + hour + ":"@ + minute + ":"@, second);
}

} // verus!
