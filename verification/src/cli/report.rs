//! What the commands say, and how they exit.

use vstd::prelude::*;

use crate::backend;
use crate::backend::{shown, StartView};
use crate::cli::{
    WatcherRequest, EXIT_ALREADY_RUNNING, EXIT_BUSY, EXIT_FAILURE, EXIT_SEVERAL, EXIT_SUCCESS,
    PAUSE_CONFIRMATION,
};
use crate::hold::{EventView, HoldEvent};
use crate::log::{LogView, Logger};
use crate::overlapped::{Disarm, READ_BUFFER_SIZE};
use crate::session::laws;
use crate::session::model::{self, BootstrapView, Record, State};
use crate::session::{plain, Bootstrap, Clock, OptionalReply, Session, SessionError};
use crate::text;
use crate::time::{self, Duration, Instant};
use crate::transport::{ReadError, Transport};
use crate::usbprint::{Discovery, OpenError};
use crate::wire::{
    DisplayConfiguration, LoopMode, MediaMode, UserConfiguration, UserConfigurationView,
    WorkConfiguration, WorkConfigurationView,
};

verus! {

// ---------------------------------------------------------------------------
// Output.
// ---------------------------------------------------------------------------

/// A line of output.
#[derive(Debug, Clone, PartialEq, Eq)]
pub enum Line {
    /// For the standard output.
    Out(String),
    /// For the standard error.
    Problem(String),
}

/// What a [`Line`] says.
pub enum LineView {
    Out(Seq<char>),
    Problem(Seq<char>),
}

impl View for Line {
    type V = LineView;

    open spec fn view(&self) -> LineView {
        match *self {
            Line::Out(text) => LineView::Out(text@),
            Line::Problem(text) => LineView::Problem(text@),
        }
    }
}

/// Lines that wait to be printed, in order.
#[derive(Debug, Clone, PartialEq, Eq)]
pub struct Output {
    pub lines: Vec<Line>,
}

impl View for Output {
    type V = Seq<LineView>;

    open spec fn view(&self) -> Seq<LineView> {
        self.lines@.map_values(|line: Line| line@)
    }
}

/// With one more line for the standard output.
pub open spec fn said(lines: Seq<LineView>, text: Seq<char>) -> Seq<LineView> {
    lines.push(LineView::Out(text))
}

/// With one more line for the standard error.
pub open spec fn complained(lines: Seq<LineView>, text: Seq<char>) -> Seq<LineView> {
    lines.push(LineView::Problem(text))
}

impl Output {
    /// No lines.
    pub fn new() -> (output: Self)
        ensures
            output@ == Seq::<LineView>::empty(),
    {
        let output = Output { lines: Vec::new() };
        assert(output@ == Seq::<LineView>::empty());
        output
    }

    /// One more line for the standard output.
    pub fn out(&mut self, text: &str)
        ensures
            final(self)@ == said(old(self)@, text@),
    {
        self.lines.push(Line::Out(text.to_owned()));
        assert(self@ == said(old(self)@, text@));
    }

    /// One more line for the standard error.
    pub fn problem(&mut self, text: &str)
        ensures
            final(self)@ == complained(old(self)@, text@),
    {
        self.lines.push(Line::Problem(text.to_owned()));
        assert(self@ == complained(old(self)@, text@));
    }

    /// One more line for the standard output, made of two parts.
    fn out2(&mut self, a: &str, b: &str)
        ensures
            final(self)@ == said(old(self)@, a@ + b@),
    {
        self.out(text::join(a, b).as_str());
    }

    /// One more line for the standard error, made of two parts.
    fn problem2(&mut self, a: &str, b: &str)
        ensures
            final(self)@ == complained(old(self)@, a@ + b@),
    {
        self.problem(text::join(a, b).as_str());
    }
}

/// `lines`, then each path on a line of its own for the standard output,
/// indented.
pub open spec fn listed(lines: Seq<LineView>, paths: Seq<String>) -> Seq<LineView>
    decreases paths.len(),
{
    if paths.len() == 0 {
        lines
    } else {
        said(listed(lines, paths.drop_last()), "  "@ + paths.last()@)
    }
}

/// `lines`, then each path on a line of its own for the standard error,
/// indented.
pub open spec fn listed_problems(lines: Seq<LineView>, paths: Seq<String>) -> Seq<LineView>
    decreases paths.len(),
{
    if paths.len() == 0 {
        lines
    } else {
        complained(listed_problems(lines, paths.drop_last()), "  "@ + paths.last()@)
    }
}

// ---------------------------------------------------------------------------
// Finding and opening the display.
// ---------------------------------------------------------------------------

/// What `probe -v` says about the printer-class interfaces.
pub fn interfaces(paths: &Vec<String>, output: &mut Output)
    ensures
        final(output)@ == listed(
            said(
                old(output)@,
                "printer-class interfaces present: "@ + text::decimal(paths@.len()),
            ),
            paths@,
        ),
{
    let count = text::number(paths.len() as u128);
    output.out2("printer-class interfaces present: ", count.as_str());
    let ghost start = output@;
    let mut i: usize = 0;
    while i < paths.len()
        invariant
            i <= paths@.len(),
            output@ == listed(start, paths@.take(i as int)),
        decreases paths@.len() - i,
    {
        assert(paths@.take(i + 1).drop_last() == paths@.take(i as int));
        output.out2("  ", paths[i].as_str());
        i = i + 1;
    }
    assert(paths@.take(i as int) == paths@);
}

/// What a look for the display comes to: its path, or an exit code, and the
/// lines that say so.
pub open spec fn located(found: Result<Discovery, String>, lines: Seq<LineView>) -> (
    Result<Seq<char>, u8>,
    Seq<LineView>,
) {
    match found {
        Ok(Discovery::One(path)) => (Ok(path@), said(lines, "Panorama SE: "@ + path@)),
        Ok(Discovery::Absent) => (
            Err(EXIT_FAILURE),
            complained(lines, "no Panorama SE printer interface is present"@),
        ),
        Ok(Discovery::Several(paths)) => (
            Err(EXIT_SEVERAL),
            listed_problems(
                complained(
                    lines,
                    text::decimal(paths@.len()) + " Panorama SE printer interfaces are present:"@,
                ),
                paths@,
            ),
        ),
        Err(error) => (Err(EXIT_FAILURE), complained(lines, "discovery failed: "@ + error@)),
    }
}

/// What a path or an exit code says.
pub open spec fn path_view(result: Result<String, u8>) -> Result<Seq<char>, u8> {
    match result {
        Ok(path) => Ok(path@),
        Err(code) => Err(code),
    }
}

/// Finds the one display, saying why when that is not possible.
pub fn locate(found: Result<Discovery, String>, output: &mut Output) -> (result: Result<String, u8>)
    ensures
        (path_view(result), final(output)@) == located(found, old(output)@),
{
    match found {
        Ok(Discovery::One(path)) => {
            output.out2("Panorama SE: ", path.as_str());
            Ok(path)
        },
        Ok(Discovery::Absent) => {
            output.problem("no Panorama SE printer interface is present");
            Err(EXIT_FAILURE)
        },
        Ok(Discovery::Several(paths)) => {
            let count = text::number(paths.len() as u128);
            output.problem2(count.as_str(), " Panorama SE printer interfaces are present:");
            let ghost start = output@;
            let mut i: usize = 0;
            while i < paths.len()
                invariant
                    i <= paths@.len(),
                    output@ == listed_problems(start, paths@.take(i as int)),
                decreases paths@.len() - i,
            {
                assert(paths@.take(i + 1).drop_last() == paths@.take(i as int));
                output.problem2("  ", paths[i].as_str());
                i = i + 1;
            }
            assert(paths@.take(i as int) == paths@);
            Err(EXIT_SEVERAL)
        },
        Err(error) => {
            output.problem2("discovery failed: ", error.as_str());
            Err(EXIT_FAILURE)
        },
    }
}

/// How a command exits when the display could not be opened. `message` is the
/// system's description of the failure.
pub fn open_failed(error: &OpenError, message: &str, output: &mut Output) -> (code: u8)
    ensures
        code == if *error is Busy {
            EXIT_BUSY
        } else {
            EXIT_FAILURE
        },
        final(output)@ == complained(
            old(output)@,
            crate::usbprint::open_error_text(*error, message@),
        ),
{
    output.problem(error.describe(message).as_str());
    match error {
        OpenError::Busy(_) => EXIT_BUSY,
        _ => EXIT_FAILURE,
    }
}

/// What `probe -v` says about a second open while the device is held.
pub open spec fn second_open_line(refusal: Option<OpenError>, message: Seq<char>) -> Seq<char> {
    match refusal {
        Some(OpenError::Busy(error)) => "second open refused while held: "@
            + crate::usbprint::win_error_text(error, message),
        Some(error) => "second open failed: "@ + crate::usbprint::open_error_text(error, message),
        None => "second open succeeded; the driver does not enforce exclusivity"@,
    }
}

/// What `probe -v` says about a second open while the device is held.
/// `message` is the system's description of the refusal.
pub fn second_open(refusal: &Option<OpenError>, message: &str, output: &mut Output)
    ensures
        final(output)@ == said(old(output)@, second_open_line(*refusal, message@)),
{
    match refusal {
        Some(OpenError::Busy(error)) => output.out2(
            "second open refused while held: ",
            error.describe(message).as_str(),
        ),
        Some(error) => output.out2("second open failed: ", error.describe(message).as_str()),
        None => output.out("second open succeeded; the driver does not enforce exclusivity"),
    }
}

// ---------------------------------------------------------------------------
// The transfer check.
// ---------------------------------------------------------------------------

/// What the transfer check says after its read, and whether it goes on.
pub open spec fn armed_read(
    result: Result<Vec<u8>, ReadError>,
    elapsed: Duration,
    lines: Seq<LineView>,
) -> (bool, Seq<LineView>) {
    match result {
        Ok(bytes) => if bytes@.len() == 0 {
            (
                true,
                said(
                    lines,
                    "armed a "@ + text::decimal((READ_BUFFER_SIZE / 1024) as nat)
                        + " KiB read; nothing arrived within "@ + text::decimal(
                        (elapsed / time::NANOS_PER_MILLI) as nat,
                    ) + " ms"@,
                ),
            )
        } else {
            (
                true,
                said(
                    lines,
                    "armed a read; "@ + text::decimal(bytes@.len())
                        + " unsolicited bytes arrived"@,
                ),
            )
        },
        Err(error) => (false, complained(lines, "read failed: "@ + error.text())),
    }
}

/// What the transfer check says after its read; whether it goes on.
pub fn read_outcome(result: &Result<Vec<u8>, ReadError>, elapsed: Duration, output: &mut Output) -> (
    go_on: bool)
    ensures
        (go_on, final(output)@) == armed_read(*result, elapsed, old(output)@),
{
    match result {
        Ok(bytes) => {
            if bytes.len() == 0 {
                let size = text::number((READ_BUFFER_SIZE / 1024) as u128);
                let millis = text::number(time::as_millis(elapsed));
                let line = text::join3(
                    "armed a ",
                    size.as_str(),
                    " KiB read; nothing arrived within ",
                );
                output.out(text::join3(line.as_str(), millis.as_str(), " ms").as_str());
            } else {
                let count = text::number(bytes.len() as u128);
                output.out(
                    text::join3(
                        "armed a read; ",
                        count.as_str(),
                        " unsolicited bytes arrived",
                    ).as_str(),
                );
            }
            true
        },
        Err(error) => {
            output.problem2("read failed: ", error.describe().as_str());
            false
        },
    }
}

/// What the transfer check says about whether a read is armed.
pub fn still_armed(armed: bool, output: &mut Output)
    ensures
        final(output)@ == said(
            old(output)@,
            "read still armed: "@ + if armed {
                "true"@
            } else {
                "false"@
            },
        ),
{
    output.out2(
        "read still armed: ",
        if armed {
            "true"
        } else {
            "false"
        },
    );
}

/// What the transfer check says about a cancelled read, and whether it goes
/// on.
pub open spec fn disarmed(disarm: Disarm, lines: Seq<LineView>) -> (bool, Seq<LineView>) {
    match disarm {
        Disarm::Cancelled(elapsed) => (
            true,
            said(
                lines,
                "cancelled and reaped in "@ + text::decimal(
                    (elapsed / time::NANOS_PER_MILLI) as nat,
                ) + " ms"@,
            ),
        ),
        Disarm::Completed(n) => (
            true,
            said(
                lines,
                "read had completed with "@ + text::decimal(n as nat) + " bytes before cancel"@,
            ),
        ),
        Disarm::NotArmed => (true, said(lines, "no read was armed"@)),
        Disarm::Abandoned => (
            false,
            complained(lines, "cancellation did not complete; buffer abandoned"@),
        ),
    }
}

/// What the transfer check says about a cancelled read; whether it goes on.
pub fn disarm_outcome(disarm: &Disarm, output: &mut Output) -> (go_on: bool)
    ensures
        (go_on, final(output)@) == disarmed(*disarm, old(output)@),
{
    match disarm {
        Disarm::Cancelled(elapsed) => {
            let millis = text::number(time::as_millis(*elapsed));
            output.out(text::join3("cancelled and reaped in ", millis.as_str(), " ms").as_str());
            true
        },
        Disarm::Completed(n) => {
            let count = text::number(*n as u128);
            output.out(
                text::join3(
                    "read had completed with ",
                    count.as_str(),
                    " bytes before cancel",
                ).as_str(),
            );
            true
        },
        Disarm::NotArmed => {
            output.out("no read was armed");
            true
        },
        Disarm::Abandoned => {
            output.problem("cancellation did not complete; buffer abandoned");
            false
        },
    }
}

/// How the transfer check exits.
pub fn check_end(lost: &Option<String>, output: &mut Output) -> (code: u8)
    ensures
        match *lost {
            None => code == EXIT_SUCCESS && final(output)@ == old(output)@,
            Some(reason) => code == EXIT_FAILURE && final(output)@ == complained(
                old(output)@,
                "transport lost: "@ + reason@,
            ),
        },
{
    match lost {
        None => EXIT_SUCCESS,
        Some(reason) => {
            output.problem2("transport lost: ", reason.as_str());
            EXIT_FAILURE
        },
    }
}

// ---------------------------------------------------------------------------
// The device's state.
// ---------------------------------------------------------------------------

/// What `info` says about the device.
pub open spec fn device_lines(
    lines: Seq<LineView>,
    bootstrap: BootstrapView,
    span: Duration,
) -> Seq<LineView> {
    let device = bootstrap.device;
    let l1 = said(
        lines,
        "session started in "@ + text::decimal((span / time::NANOS_PER_MILLI) as nat)
            + " ms after "@ + text::decimal(bootstrap.readiness_attempts as nat)
            + " DeviceInfo attempt(s)"@,
    );
    let l2 = said(l1, "Device"@);
    let l3 = said(l2, "  product:    "@ + shown(device.product_name));
    let l4 = said(l3, "  os:         "@ + shown(device.os_name) + " "@ + device.os_version);
    let l5 = said(l4, "  firmware:   "@ + shown(device.firmware_version));
    let l6 = said(l5, "  app:        "@ + shown(device.app_version));
    let l7 = said(
        l6,
        "  serial:     "@ + shown(device.serial_number) + if device.serial_number_locked {
            " (locked)"@
        } else {
            ""@
        },
    );
    let l8 = said(l7, "  chip id:    "@ + shown(device.chip_id));
    said(l8, "  auth:       "@ + shown(bootstrap.auth))
}

/// What `info` says about the device.
pub fn device_report(bootstrap: &Bootstrap, span: Duration, output: &mut Output)
    ensures
        final(output)@ == device_lines(old(output)@, bootstrap@, span),
{
    let device = &bootstrap.device;
    let millis = text::number(time::as_millis(span));
    let attempts = text::number(bootstrap.readiness_attempts as u128);
    let line = text::join3("session started in ", millis.as_str(), " ms after ");
    output.out(text::join3(line.as_str(), attempts.as_str(), " DeviceInfo attempt(s)").as_str());
    output.out("Device");
    output.out2("  product:    ", backend::show(device.product_name.as_str()));
    let line = text::join3("  os:         ", backend::show(device.os_name.as_str()), " ");
    output.out2(line.as_str(), device.os_version.as_str());
    output.out2("  firmware:   ", backend::show(device.firmware_version.as_str()));
    output.out2("  app:        ", backend::show(device.app_version.as_str()));
    output.out(
        text::join3(
            "  serial:     ",
            backend::show(device.serial_number.as_str()),
            if device.serial_number_locked {
                " (locked)"
            } else {
                ""
            },
        ).as_str(),
    );
    output.out2("  chip id:    ", backend::show(device.chip_id.as_str()));
    output.out2("  auth:       ", backend::show(bootstrap.auth.as_str()));
}

/// The name of a media mode.
pub open spec fn media_mode_name(mode: MediaMode) -> Seq<char> {
    match mode {
        MediaMode::Single => "single"@,
        MediaMode::Dual => "dual"@,
        MediaMode::Kaleidoscope => "kaleidoscope"@,
        MediaMode::Unknown(value) => "unknown ("@ + text::decimal(value as nat) + ")"@,
    }
}

/// The name of a media mode.
fn media_mode_text(mode: MediaMode) -> (name: String)
    ensures
        name@ == media_mode_name(mode),
{
    match mode {
        MediaMode::Single => "single".to_owned(),
        MediaMode::Dual => "dual".to_owned(),
        MediaMode::Kaleidoscope => "kaleidoscope".to_owned(),
        MediaMode::Unknown(value) => {
            let number = text::number(value as u128);
            text::join3("unknown (", number.as_str(), ")")
        },
    }
}

/// The name of a loop mode.
pub open spec fn loop_mode_name(mode: LoopMode) -> Seq<char> {
    match mode {
        LoopMode::Single => "single"@,
        LoopMode::All => "all"@,
        LoopMode::Random => "random"@,
        LoopMode::Unknown(value) => "unknown ("@ + text::decimal(value as nat) + ")"@,
    }
}

/// The name of a loop mode.
fn loop_mode_text(mode: LoopMode) -> (name: String)
    ensures
        name@ == loop_mode_name(mode),
{
    match mode {
        LoopMode::Single => "single".to_owned(),
        LoopMode::All => "all".to_owned(),
        LoopMode::Random => "random".to_owned(),
        LoopMode::Unknown(value) => {
            let number = text::number(value as u128);
            text::join3("unknown (", number.as_str(), ")")
        },
    }
}

/// What `info` says about the work configuration.
pub open spec fn work_lines(lines: Seq<LineView>, work: Option<WorkConfigurationView>) -> Seq<
    LineView,
> {
    match work {
        Some(work) => {
            let l1 = said(
                lines,
                "  work mode:  "@ + media_mode_name(work.media_mode) + ", loop "@ + loop_mode_name(
                    work.loop_mode,
                ),
            );
            let l2 = said(l1, "  single:     "@ + shown(work.single_mode_media_file));
            let l3 = said(
                l2,
                "  dual:       left "@ + shown(work.dual_mode_left_media_file) + ", right "@ + shown(
                    work.dual_mode_right_media_file,
                ),
            );
            said(
                l3,
                "  kaleido:    "@ + shown(work.kaleidoscope_media_file) + " (source "@
                    + text::decimal(work.kaleidoscope_source as nat) + ")"@,
            )
        },
        None => said(lines, "  work:       not reported"@),
    }
}

/// What a work configuration says, if there is one.
pub open spec fn work_view(work: Option<WorkConfiguration>) -> Option<WorkConfigurationView> {
    match work {
        Some(work) => Some(work@),
        None => None,
    }
}

/// What `info` says about the work configuration.
fn work_report(work: &Option<WorkConfiguration>, output: &mut Output)
    ensures
        final(output)@ == work_lines(old(output)@, work_view(*work)),
{
    match work {
        Some(work) => {
            let mode = media_mode_text(work.media_mode);
            let looping = loop_mode_text(work.loop_mode);
            let line = text::join3("  work mode:  ", mode.as_str(), ", loop ");
            output.out2(line.as_str(), looping.as_str());
            output.out2("  single:     ", backend::show(work.single_mode_media_file.as_str()));
            let line = text::join3(
                "  dual:       left ",
                backend::show(work.dual_mode_left_media_file.as_str()),
                ", right ",
            );
            output.out2(
                line.as_str(),
                backend::show(work.dual_mode_right_media_file.as_str()),
            );
            let source = text::number(work.kaleidoscope_source as u128);
            let line = text::join3(
                "  kaleido:    ",
                backend::show(work.kaleidoscope_media_file.as_str()),
                " (source ",
            );
            output.out(text::join3(line.as_str(), source.as_str(), ")").as_str());
        },
        None => output.out("  work:       not reported"),
    }
}

/// What `info` says about the display configuration.
pub open spec fn display_lines(lines: Seq<LineView>, display: Option<DisplayConfiguration>) -> Seq<
    LineView,
> {
    match display {
        Some(display) => {
            let l1 = said(
                lines,
                "  backlight:  "@ + if display.backlight_enable {
                    "on"@
                } else {
                    "off"@
                } + ", brightness "@ + text::decimal(display.backlight_brightness as nat),
            );
            said(
                l1,
                "  rotation:   ui "@ + text::decimal(display.ui_rotation as nat) + ", media "@
                    + text::decimal(display.media_rotation as nat) + ", mirror flag "@
                    + if display.mirror {
                    "true"@
                } else {
                    "false"@
                },
            )
        },
        None => said(lines, "  display:    not reported"@),
    }
}

/// What `info` says about the display configuration.
fn display_report(display: &Option<DisplayConfiguration>, output: &mut Output)
    ensures
        final(output)@ == display_lines(old(output)@, *display),
{
    match display {
        Some(display) => {
            let brightness = text::number(display.backlight_brightness as u128);
            let line = text::join3(
                "  backlight:  ",
                if display.backlight_enable {
                    "on"
                } else {
                    "off"
                },
                ", brightness ",
            );
            output.out2(line.as_str(), brightness.as_str());
            let ui = text::number(display.ui_rotation as u128);
            let media = text::number(display.media_rotation as u128);
            let line = text::join3("  rotation:   ui ", ui.as_str(), ", media ");
            let line = text::join3(line.as_str(), media.as_str(), ", mirror flag ");
            output.out2(
                line.as_str(),
                if display.mirror {
                    "true"
                } else {
                    "false"
                },
            );
        },
        None => output.out("  display:    not reported"),
    }
}

/// What `info` says about the configuration.
pub open spec fn configuration_lines(lines: Seq<LineView>, config: UserConfigurationView) -> Seq<
    LineView,
> {
    let l1 = said(lines, "Configuration"@);
    let l2 = match config.poweron {
        Some(poweron) => said(l1, "  power-on:   "@ + shown(poweron.media_file)),
        None => said(l1, "  power-on:   not reported"@),
    };
    let l3 = match config.standby {
        Some(standby) => said(
            l2,
            "  standby:    "@ + if standby.enable {
                "enabled"@
            } else {
                "disabled"@
            } + ", media "@ + shown(standby.media_file),
        ),
        None => said(l2, "  standby:    not reported"@),
    };
    display_lines(work_lines(l3, config.work), config.display)
}

/// What `info` says about the configuration.
pub fn configuration_report(config: &UserConfiguration, output: &mut Output)
    ensures
        final(output)@ == configuration_lines(old(output)@, config@),
{
    output.out("Configuration");
    match &config.poweron {
        Some(poweron) => output.out2("  power-on:   ", backend::show(poweron.media_file.as_str())),
        None => output.out("  power-on:   not reported"),
    }
    match &config.standby {
        Some(standby) => {
            let line = text::join3(
                "  standby:    ",
                if standby.enable {
                    "enabled"
                } else {
                    "disabled"
                },
                ", media ",
            );
            output.out2(line.as_str(), backend::show(standby.media_file.as_str()));
        },
        None => output.out("  standby:    not reported"),
    }
    work_report(&config.work, output);
    display_report(&config.display, output);
}

/// What [`info`] does: the bootstrap, then the configuration query, and the
/// lines for each.
pub open spec fn info_run(s: State, o: Record, lines: Seq<LineView>) -> (u8, State, Seq<LineView>) {
    let started = s.next_now(o);
    let (bootstrap, s2) = model::bootstrap_run(s.timed(started), o);
    match bootstrap {
        Err(error) => (
            EXIT_FAILURE,
            s2,
            complained(lines, "session start failed: "@ + error.text()),
        ),
        Ok(bootstrap) => {
            let now = s2.next_now(o);
            let span = time::span_since(now as int, started as int) as u128;
            let lines = device_lines(lines, bootstrap, span);
            let (config, s4) = model::query_run(s2.timed(now), o);
            match config {
                Err(error) => (
                    EXIT_FAILURE,
                    s4,
                    complained(lines, "configuration query failed: "@ + error.text()),
                ),
                Ok(config) => {
                    let lines = configuration_lines(lines, config);
                    match s4.closed {
                        None => (EXIT_SUCCESS, s4, lines),
                        Some(error) => (
                            EXIT_FAILURE,
                            s4,
                            complained(lines, "session closed: "@ + error.text()),
                        ),
                    }
                },
            }
        },
    }
}

/// Runs a bootstrap, reads the device's information and configuration, and
/// says them. Sends only the read-only bootstrap and configuration queries.
pub fn info<T: Transport, C: Clock>(session: &mut Session<T, C>, output: &mut Output) -> (code: u8)
    ensures
        old(session)@.begins(final(session)@.record()),
        forall|o: Record| #[trigger]
            final(session)@.begins(o) ==> info_run(old(session)@, o, old(output)@) == (
                code,
                final(session)@,
                final(output)@,
            ),
{
    let ghost s0 = session@;
    let started: Instant = session.now();
    let ghost s1 = session@;
    proof {
        model::calls_are_kept(s0);
    }
    let bootstrap = session.bootstrap();
    let ghost s2 = session@;
    proof {
        model::begins_earlier(s0, s1, s2.record());
        assert forall|o: Record| #[trigger] s2.begins(o) implies s0.next_now(o) == started by {
            model::begins_earlier(s1, s2, o);
            model::time_is_recorded(s0, started, o);
        }
    }
    let bootstrap = match bootstrap {
        Ok(bootstrap) => bootstrap,
        Err(error) => {
            output.problem2("session start failed: ", error.describe().as_str());
            return EXIT_FAILURE;
        },
    };
    let now: Instant = session.now();
    let ghost s3 = session@;
    device_report(&bootstrap, time::saturating_since(now, started), output);
    proof {
        model::calls_are_kept(s2);
        model::begins_earlier(s0, s2, s3.record());
    }
    let config = session.query_user_configuration();
    let ghost s4 = session@;
    proof {
        model::begins_earlier(s0, s3, s4.record());
        assert forall|o: Record| #[trigger] s4.begins(o) implies s2.begins(o) && s2.next_now(o)
            == now by {
            model::begins_earlier(s3, s4, o);
            model::time_is_recorded(s2, now, o);
        }
    }
    let config = match config {
        Ok(config) => config,
        Err(error) => {
            output.problem2("configuration query failed: ", error.describe().as_str());
            return EXIT_FAILURE;
        },
    };
    configuration_report(&config, output);
    match session.closed_by() {
        None => EXIT_SUCCESS,
        Some(error) => {
            output.problem2("session closed: ", error.describe().as_str());
            EXIT_FAILURE
        },
    }
}

// ---------------------------------------------------------------------------
// Starting a session.
// ---------------------------------------------------------------------------

/// `lines`, then each line of a log on the standard output.
pub open spec fn with_log(lines: Seq<LineView>, log: Seq<Seq<char>>) -> Seq<LineView>
    decreases log.len(),
{
    if log.len() == 0 {
        lines
    } else {
        said(with_log(lines, log.drop_last()), log.last())
    }
}

/// Prints the lines of a log.
fn print_log(log: &Vec<String>, output: &mut Output)
    ensures
        final(output)@ == with_log(old(output)@, text::views(log@)),
{
    let ghost start = output@;
    let ghost all = text::views(log@);
    let mut i: usize = 0;
    assert(all.take(0) == Seq::<Seq<char>>::empty());
    while i < log.len()
        invariant
            i <= log@.len(),
            all == text::views(log@),
            output@ == with_log(start, all.take(i as int)),
        decreases log@.len() - i,
    {
        assert(all.take(i + 1).drop_last() == all.take(i as int));
        assert(all.take(i + 1).last() == log@[i as int]@);
        output.out(log[i].as_str());
        i = i + 1;
    }
    assert(all.take(i as int) == all);
}

/// A log that has no lines yet.
pub open spec fn fresh_log() -> LogView {
    LogView { silent: false, lines: Seq::empty() }
}

/// What a [`StartView`] says in words.
pub open spec fn start_text(error: StartView) -> Seq<char> {
    match error {
        StartView::Interrupted => "session start interrupted"@,
        StartView::Failed(reason) => reason,
    }
}

/// What [`start_session`] does: the session start, its log on the standard
/// output, and why it failed on the standard error.
pub open spec fn start_run(s: State, o: Record, lines: Seq<LineView>) -> (
    Result<(), u8>,
    State,
    Seq<LineView>,
) {
    let (result, end, log) = backend::establish_run(s, o, fresh_log());
    let lines = with_log(lines, log.lines);
    match result {
        Ok(_) => (Ok(()), end, lines),
        Err(error) => (Err(EXIT_FAILURE), end, complained(lines, start_text(error))),
    }
}

/// Runs the session start, saying each step.
pub fn start_session<T: Transport, C: Clock>(session: &mut Session<T, C>, output: &mut Output) -> (
    result: Result<(), u8>)
    ensures
        old(session)@.begins(final(session)@.record()),
        forall|o: Record| #[trigger]
            final(session)@.begins(o) ==> start_run(old(session)@, o, old(output)@) == (
                result,
                final(session)@,
                final(output)@,
            ),
{
    let ghost s0 = session@;
    let mut log = Logger::new();
    let started = backend::establish(session, &mut log);
    let ghost logged = log@;
    let lines = log.take();
    assert(text::views(lines@) == logged.lines);
    print_log(&lines, output);
    match started {
        Ok(_) => Ok(()),
        Err(error) => {
            output.problem(error.describe().as_str());
            Err(EXIT_FAILURE)
        },
    }
}

// ---------------------------------------------------------------------------
// Activation.
// ---------------------------------------------------------------------------

/// What `activate` says about the media the panel is configured to show.
pub open spec fn activation_report(lines: Seq<LineView>, config: UserConfigurationView) -> Seq<
    LineView,
> {
    match config.work {
        Some(work) => said(
            lines,
            "panel is configured to show "@ + shown(work.single_mode_media_file),
        ),
        None => said(lines, "panel reported no work configuration"@),
    }
}

/// What [`activate`] does: the session start, then the configuration query.
pub open spec fn activate_command_run(s: State, o: Record, lines: Seq<LineView>) -> (
    u8,
    State,
    Seq<LineView>,
) {
    let (started, s1, lines) = start_run(s, o, lines);
    match started {
        Err(code) => (code, s1, lines),
        Ok(_) => {
            let (config, s2) = model::query_run(s1, o);
            match config {
                Ok(config) => (EXIT_SUCCESS, s2, activation_report(lines, config)),
                Err(error) => (
                    EXIT_FAILURE,
                    s2,
                    complained(lines, "configuration query failed: "@ + error.text()),
                ),
            }
        },
    }
}

/// Starts a session and says which media the panel is configured to show,
/// without holding the session.
pub fn activate<T: Transport, C: Clock>(session: &mut Session<T, C>, output: &mut Output) -> (code:
    u8)
    ensures
        old(session)@.begins(final(session)@.record()),
        forall|o: Record| #[trigger]
            final(session)@.begins(o) ==> activate_command_run(old(session)@, o, old(output)@) == (
                code,
                final(session)@,
                final(output)@,
            ),
{
    let ghost s0 = session@;
    let started = start_session(session, output);
    let ghost s1 = session@;
    if let Err(code) = started {
        return code;
    }
    let config = session.query_user_configuration();
    proof {
        let s2 = session@;
        model::begins_earlier(s0, s1, s2.record());
        assert forall|o: Record| #[trigger] s2.begins(o) implies s1.begins(o) by {
            model::begins_earlier(s1, s2, o);
        }
    }
    match config {
        Ok(config) => {
            match &config.work {
                Some(work) => output.out2(
                    "panel is configured to show ",
                    backend::show(work.single_mode_media_file.as_str()),
                ),
                None => output.out("panel reported no work configuration"),
            }
            EXIT_SUCCESS
        },
        Err(error) => {
            output.problem2("configuration query failed: ", error.describe().as_str());
            EXIT_FAILURE
        },
    }
}

// ---------------------------------------------------------------------------
// Holding.
// ---------------------------------------------------------------------------

/// What `run` says before it holds the session.
pub fn holding(handler_installed: bool, interval: Duration, output: &mut Output)
    ensures
        final(output)@ == said(
            if handler_installed {
                old(output)@
            } else {
                complained(
                    old(output)@,
                    "could not install the console stop handler; use the task manager to stop"@,
                )
            },
            "holding the session: ping every "@ + text::decimal(
                (interval / time::NANOS_PER_MILLI) as nat,
            ) + " ms; press Ctrl+C to stop"@,
        ),
{
    if !handler_installed {
        output.problem("could not install the console stop handler; use the task manager to stop");
    }
    let millis = text::number(time::as_millis(interval));
    output.out(
        text::join3(
            "holding the session: ping every ",
            millis.as_str(),
            " ms; press Ctrl+C to stop",
        ).as_str(),
    );
}

/// A reply to a Ping, in words.
pub open spec fn reply_name(reply: OptionalReply) -> Seq<char> {
    match reply {
        OptionalReply::Nothing => "no reply"@,
        OptionalReply::Acknowledged => "acknowledged"@,
        OptionalReply::Drained => "reply consumed"@,
    }
}

/// The line for the `pings`th Ping.
pub open spec fn run_ping_line(
    pings: u64,
    reply: OptionalReply,
    drained: u64,
    gap: Duration,
) -> Seq<char> {
    "ping "@ + text::decimal(pings as nat) + ": "@ + reply_name(reply) + "; "@ + text::decimal(
        (gap / time::NANOS_PER_MILLI) as nat,
    ) + " ms since the last; "@ + text::decimal(drained as nat) + " unasked frames drained so far"@
}

/// What `run` counts while it holds the session.
#[derive(Debug, Clone, Copy, PartialEq, Eq)]
pub struct RunReport {
    pub pings: u64,
    pub verbose: bool,
}

/// How an event changes the count and the lines.
pub open spec fn run_noted(r: RunReport, event: EventView, lines: Seq<LineView>) -> (
    RunReport,
    Seq<LineView>,
) {
    match event {
        EventView::Pinged { reply, drained, gap } => {
            let pings = (r.pings + 1) as u64;
            (
                RunReport { pings, ..r },
                if r.verbose {
                    said(lines, run_ping_line(pings, reply, drained, gap))
                } else {
                    lines
                },
            )
        },
        EventView::Retrying { attempt, error } => (
            r,
            said(lines, backend::retry_line(attempt, error)),
        ),
        EventView::Stopped => (
            r,
            said(
                lines,
                "stop requested after "@ + text::decimal(r.pings as nat) + " pings"@,
            ),
        ),
    }
}

/// How `run` exits and what it says last.
pub open spec fn run_ended(
    r: RunReport,
    result: Result<(), model::ErrorView>,
    lines: Seq<LineView>,
) -> (u8, Seq<LineView>) {
    match result {
        Ok(_) => (EXIT_SUCCESS, said(lines, "session released"@)),
        Err(error) => if error == model::ErrorView::Read(ReadError::Interrupted) {
            (
                EXIT_SUCCESS,
                said(
                    lines,
                    "stop requested after "@ + text::decimal(r.pings as nat)
                        + " pings; session released"@,
                ),
            )
        } else {
            (
                EXIT_FAILURE,
                complained(
                    lines,
                    "session lost after "@ + text::decimal(r.pings as nat) + " pings: "@
                        + error.text(),
                ),
            )
        },
    }
}

impl RunReport {
    pub fn new(verbose: bool) -> (report: Self)
        ensures
            report == (RunReport { pings: 0, verbose }),
    {
        RunReport { pings: 0, verbose }
    }

    /// Counts an event of the holding loop and says it.
    pub fn note(&mut self, event: &HoldEvent, output: &mut Output)
        requires
            old(self).pings < u64::MAX,
        ensures
            (*final(self), final(output)@) == run_noted(*old(self), event@, old(output)@),
    {
        match event {
            HoldEvent::Pinged { reply, drained, gap } => {
                self.pings = self.pings + 1;
                if self.verbose {
                    let count = text::number(self.pings as u128);
                    let reply = match reply {
                        OptionalReply::Nothing => "no reply",
                        OptionalReply::Acknowledged => "acknowledged",
                        OptionalReply::Drained => "reply consumed",
                    };
                    let millis = text::number(time::as_millis(*gap));
                    let swept = text::number(*drained as u128);
                    let line = text::join3("ping ", count.as_str(), ": ");
                    let line = text::join3(line.as_str(), reply, "; ");
                    let line = text::join3(line.as_str(), millis.as_str(), " ms since the last; ");
                    let line = text::join3(
                        line.as_str(),
                        swept.as_str(),
                        " unasked frames drained so far",
                    );
                    output.out(line.as_str());
                }
            },
            HoldEvent::Retrying { attempt, error } => {
                output.out(backend::retry_text(*attempt, error).as_str());
            },
            HoldEvent::Stopped => {
                let count = text::number(self.pings as u128);
                output.out(text::join3("stop requested after ", count.as_str(), " pings").as_str());
            },
        }
    }

    /// How `run` exits, and what it says last. A read that an interrupt cut
    /// short is a stop on request.
    pub fn end(&self, result: &Result<(), SessionError>, output: &mut Output) -> (code: u8)
        ensures
            (code, final(output)@) == run_ended(*self, plain(*result), old(output)@),
    {
        let count = text::number(self.pings as u128);
        match result {
            Ok(_) => {
                output.out("session released");
                EXIT_SUCCESS
            },
            Err(error) => match error {
                SessionError::Read(ReadError::Interrupted) => {
                    output.out(
                        text::join3(
                            "stop requested after ",
                            count.as_str(),
                            " pings; session released",
                        ).as_str(),
                    );
                    EXIT_SUCCESS
                },
                _ => {
                    let line = text::join3("session lost after ", count.as_str(), " pings: ");
                    output.problem2(line.as_str(), error.describe().as_str());
                    EXIT_FAILURE
                },
            },
        }
    }
}

// ---------------------------------------------------------------------------
// Watching.
// ---------------------------------------------------------------------------

/// What a watcher logs when another one already runs.
pub fn already_running(id: u32) -> (line: String)
    ensures
        line@ == "a watcher is already running as process "@ + text::decimal(id as nat)
            + "; nothing to do"@,
{
    let id = text::number(id as u128);
    text::join3("a watcher is already running as process ", id.as_str(), "; nothing to do")
}

/// What a watcher logs when it starts.
pub fn watch_starting(version: &str, interval: Duration) -> (line: String)
    ensures
        line@ == "watch starting: ezrama "@ + version@ + ", ping interval "@ + text::decimal(
            (interval / time::NANOS_PER_MILLI) as nat,
        ) + " ms"@,
{
    let millis = text::number(time::as_millis(interval));
    let line = text::join3("watch starting: ezrama ", version, ", ping interval ");
    text::join3(line.as_str(), millis.as_str(), " ms")
}

/// What a watcher logs about where KANALI is.
pub fn kanali_found(path: &Option<String>) -> (line: String)
    ensures
        line@ == match *path {
            Some(path) => "KANALI found at "@ + path@,
            None => "KANALI not found; the menu cannot start it"@,
        },
{
    match path {
        Some(path) => text::join("KANALI found at ", path.as_str()),
        None => "KANALI not found; the menu cannot start it".to_owned(),
    }
}

/// What a watcher does when it is started: where another one runs, as this
/// process, it says so and exits; otherwise it says that it starts.
pub open spec fn watch_begun(
    running: Option<u32>,
    version: Seq<char>,
    interval: Duration,
    log: LogView,
) -> (Result<(), u8>, LogView) {
    match running {
        Some(id) => (
            Err(EXIT_ALREADY_RUNNING),
            log.with(
                "a watcher is already running as process "@ + text::decimal(id as nat)
                    + "; nothing to do"@,
            ),
        ),
        None => (
            Ok(()),
            log.with(
                "watch starting: ezrama "@ + version + ", ping interval "@ + text::decimal(
                    (interval / time::NANOS_PER_MILLI) as nat,
                ) + " ms"@,
            ),
        ),
    }
}

/// Starts a watcher, unless another one runs.
pub fn watch_begins(running: Option<u32>, version: &str, interval: Duration, log: &mut Logger) -> (
    result: Result<(), u8>)
    ensures
        (result, final(log)@) == watch_begun(running, version@, interval, old(log)@),
{
    match running {
        Some(id) => {
            log.log(already_running(id).as_str());
            Err(EXIT_ALREADY_RUNNING)
        },
        None => {
            log.log(watch_starting(version, interval).as_str());
            Ok(())
        },
    }
}

/// What a watcher found when it set the machine up.
#[derive(Debug, PartialEq, Eq)]
pub struct WatchFacts {
    /// Whether the console stop handler could be installed.
    pub handler_installed: bool,
    /// Why pauses cannot be confirmed, if they cannot.
    pub confirmation: Option<String>,
    /// Where KANALI is, if it is installed.
    pub kanali: Option<String>,
    /// Why there is no notification icon, if there is none.
    pub icon: Option<String>,
}

/// What a watcher logs about what it found.
pub open spec fn watch_found(facts: WatchFacts, log: LogView) -> LogView {
    let log = if facts.handler_installed {
        log
    } else {
        log.with("console stop handler unavailable"@)
    };
    let log = match facts.confirmation {
        Some(reason) => log.with("pause confirmation unavailable: "@ + reason@),
        None => log,
    };
    let log = log.with(
        match facts.kanali {
            Some(path) => "KANALI found at "@ + path@,
            None => "KANALI not found; the menu cannot start it"@,
        },
    );
    match facts.icon {
        Some(reason) => log.with("notification icon unavailable: "@ + reason@),
        None => log,
    }
}

/// Logs what a watcher found when it set the machine up. Nothing of it keeps
/// the watcher from going on.
pub fn watch_prepared(facts: &WatchFacts, log: &mut Logger)
    ensures
        final(log)@ == watch_found(*facts, old(log)@),
{
    if !facts.handler_installed {
        log.log("console stop handler unavailable");
    }
    match &facts.confirmation {
        Some(reason) => log.log(
            text::join("pause confirmation unavailable: ", reason.as_str()).as_str(),
        ),
        None => {},
    }
    log.log(kanali_found(&facts.kanali).as_str());
    match &facts.icon {
        Some(reason) => log.log(
            text::join("notification icon unavailable: ", reason.as_str()).as_str(),
        ),
        None => {},
    }
}

/// How the thread of the message loop ended.
#[derive(Debug, PartialEq, Eq)]
pub enum LoopEnd {
    /// The loop was asked to quit.
    Quit,
    /// The loop failed, for this reason.
    Failed(String),
    /// The thread itself failed.
    Broken,
}

/// What a watcher that is over logs about its message loop, and how it exits.
pub fn watch_ends(end: &LoopEnd, log: &mut Logger) -> (code: u8)
    ensures
        code == EXIT_SUCCESS,
        final(log)@ == match *end {
            LoopEnd::Quit => old(log)@,
            LoopEnd::Failed(reason) => old(log)@.with(
                "device notifications failed: "@ + reason@,
            ),
            LoopEnd::Broken => old(log)@.with("device notification thread failed"@),
        },
{
    match end {
        LoopEnd::Quit => {},
        LoopEnd::Failed(reason) => log.log(
            text::join("device notifications failed: ", reason.as_str()).as_str(),
        ),
        LoopEnd::Broken => log.log("device notification thread failed"),
    }
    EXIT_SUCCESS
}

// ---------------------------------------------------------------------------
// Requests to a running watcher.
// ---------------------------------------------------------------------------

/// How a request to the running watcher comes out. `confirmed` is what waiting
/// for a pause gave: whether it was confirmed in time, or why there was nothing
/// to wait for.
pub open spec fn control_outcome(
    request: WatcherRequest,
    sent: bool,
    confirmed: Result<bool, Seq<char>>,
    lines: Seq<LineView>,
) -> (u8, Seq<LineView>) {
    if !sent {
        (EXIT_FAILURE, complained(lines, "no ezrama watcher is running"@))
    } else {
        match request {
            WatcherRequest::Pause => match confirmed {
                Ok(true) => (EXIT_SUCCESS, said(lines, "watcher paused; the panel is released"@)),
                Ok(false) => (
                    EXIT_FAILURE,
                    complained(
                        lines,
                        "watcher did not confirm the pause within "@ + text::decimal(
                            (PAUSE_CONFIRMATION / time::NANOS_PER_SEC) as nat,
                        ) + " s"@,
                    ),
                ),
                Err(error) => (
                    EXIT_FAILURE,
                    complained(
                        lines,
                        "pause requested, but there is no confirmation to wait for: "@ + error,
                    ),
                ),
            },
            WatcherRequest::Resume => (EXIT_SUCCESS, said(lines, "watcher resumed"@)),
            WatcherRequest::OpenKanali => (
                EXIT_SUCCESS,
                said(lines, "watcher asked to start KANALI"@),
            ),
            WatcherRequest::Stop => (EXIT_SUCCESS, said(lines, "watcher asked to stop"@)),
        }
    }
}

/// What the wait for a confirmation gave.
pub open spec fn confirmation_view(confirmed: Result<bool, String>) -> Result<bool, Seq<char>> {
    match confirmed {
        Ok(confirmed) => Ok(confirmed),
        Err(error) => Err(error@),
    }
}

/// How a request to the running watcher comes out.
pub fn control(
    request: WatcherRequest,
    sent: bool,
    confirmed: &Result<bool, String>,
    output: &mut Output,
) -> (code: u8)
    ensures
        (code, final(output)@) == control_outcome(
            request,
            sent,
            confirmation_view(*confirmed),
            old(output)@,
        ),
{
    if !sent {
        output.problem("no ezrama watcher is running");
        return EXIT_FAILURE;
    }
    match request {
        WatcherRequest::Pause => match confirmed {
            Ok(true) => {
                output.out("watcher paused; the panel is released");
                EXIT_SUCCESS
            },
            Ok(false) => {
                let secs = text::number(time::as_secs(PAUSE_CONFIRMATION));
                output.problem(
                    text::join3(
                        "watcher did not confirm the pause within ",
                        secs.as_str(),
                        " s",
                    ).as_str(),
                );
                EXIT_FAILURE
            },
            Err(error) => {
                output.problem2(
                    "pause requested, but there is no confirmation to wait for: ",
                    error.as_str(),
                );
                EXIT_FAILURE
            },
        },
        WatcherRequest::Resume => {
            output.out("watcher resumed");
            EXIT_SUCCESS
        },
        WatcherRequest::OpenKanali => {
            output.out("watcher asked to start KANALI");
            EXIT_SUCCESS
        },
        WatcherRequest::Stop => {
            output.out("watcher asked to stop");
            EXIT_SUCCESS
        },
    }
}

// ---------------------------------------------------------------------------
// Laws.
// ---------------------------------------------------------------------------

/// Whether a frame is one of the read-only requests: those of a bootstrap, or
/// the configuration query under some track id.
pub open spec fn is_question(frame: Seq<u8>) -> bool {
    ||| frame == laws::probe_frame()
    ||| frame == laws::system_frame()
    ||| frame == laws::auth_frame()
    ||| exists|track: u64| frame == #[trigger] laws::query_frame(track)
}

/// `info` changes nothing: on an open session it writes the three bootstrap
/// requests and the configuration query, and nothing else.
pub proof fn info_only_asks(s: State, o: Record, lines: Seq<LineView>)
    requires
        s.closed is None,
    ensures
        ({
            let before = laws::written(s.io);
            let after = laws::written(info_run(s, o, lines).1.io);
            &&& before.is_prefix_of(after)
            &&& forall|i: int|
                before.len() <= i < after.len() ==> #[trigger] is_question(after[i])
        }),
{
    let s1 = s.timed(s.next_now(o));
    laws::bootstrap_only_asks(s1, o);
    laws::bootstrap_asks_in_order(s1, o);
    let (bootstrap, s2) = model::bootstrap_run(s1, o);
    let before = laws::written(s.io);
    let middle = laws::written(s2.io);
    let asked = middle.skip(before.len() as int);
    assert forall|i: int| before.len() <= i < middle.len() implies #[trigger] is_question(
        middle[i],
    ) by {
        assert(asked[i - before.len()] == middle[i]);
    }
    if bootstrap is Ok {
        let s3 = s2.timed(s2.next_now(o));
        laws::query_only_asks(s3, o);
        let (_, s4) = model::query_run(s3, o);
        let after = laws::written(s4.io);
        assert(before.is_prefix_of(after));
        assert forall|i: int| before.len() <= i < after.len() implies #[trigger] is_question(
            after[i],
        ) by {
            if i < middle.len() {
                assert(after[i] == middle[i]);
            }
        }
    }
}

} // verus!
