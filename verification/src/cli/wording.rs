//! What the commands' lines tell: from what the panel reported, or what was
//! found, to the words that are printed.

use vstd::prelude::*;

use crate::backend::shown;
use crate::cli::report::{
    activate_command_run, armed_read, complained, configuration_lines, control_outcome,
    device_lines, disarmed, info_run, listed, listed_problems, located, run_ended, run_noted, said,
    start_run, watch_begun, LineView, RunReport,
};
use crate::cli::setup::{
    entry_notes, install_progress, kanali_notes, status_lines, uninstall_progress, InstallPlan, InstallStep, Outcome,
    StatusFacts, Uninstall, UninstallStep, WatcherFacts,
};
use crate::cli::WatcherRequest;
use crate::hold::EventView;
use crate::install::RunEntry;
use crate::log::LogView;
use crate::overlapped::Disarm;
use crate::pb::{message_field, message_field_is_added, uint_field, uint_field_is_added};
use crate::session::model::{
    bootstrap_run, query_run, BootstrapView, ErrorView, Record, State,
};
use crate::session::OptionalReply;
use crate::text::decimal;
use crate::time::Duration;
use crate::transport::ReadError;
use crate::usbprint::Discovery;
use crate::watch::state_label;
use crate::wire::{
    configuration_of, configuration_step, device_information_of, device_information_step,
    display_of, display_step, empty_configuration, empty_device_information, empty_display,
    empty_standby, empty_work, lossy_text, standby_of, standby_step, text_step, work_of,
    work_step, UserConfigurationView,
};

verus! {

// ---------------------------------------------------------------------------
// The panel's configuration, from its bytes to the lines.
// ---------------------------------------------------------------------------

/// The bytes of a work section.
pub open spec fn work_bytes(
    mode: u64,
    looping: u64,
    single: Seq<u8>,
    left: Seq<u8>,
    right: Seq<u8>,
    kaleidoscope: Seq<u8>,
    source: u64,
) -> Seq<u8> {
    uint_field(1, mode) + uint_field(2, looping) + message_field(3, single) + message_field(4, left)
        + message_field(5, right) + message_field(6, kaleidoscope) + uint_field(7, source)
}

/// The bytes of a display section.
pub open spec fn display_bytes(
    backlight: u64,
    brightness: u64,
    mirror: u64,
    ui: u64,
    media: u64,
) -> Seq<u8> {
    uint_field(1, backlight) + uint_field(2, brightness) + uint_field(3, mirror) + uint_field(4, ui)
        + uint_field(5, media)
}

proof fn lemma_no_fields()
    ensures
        work_of(Seq::empty()) is Ok,
        work_of(Seq::empty())->Ok_0 == empty_work(),
        display_of(Seq::empty()) is Ok,
        display_of(Seq::empty())->Ok_0 == empty_display(),
        standby_of(Seq::empty()) is Ok,
        standby_of(Seq::empty())->Ok_0 == empty_standby(),
        configuration_of(Seq::empty()) is Ok,
        configuration_of(Seq::empty())->Ok_0 == empty_configuration(),
        device_information_of(Seq::empty()) is Ok,
        device_information_of(Seq::empty())->Ok_0 == empty_device_information(),
{
    reveal_with_fuel(crate::pb::fold_fields, 2);
}

proof fn lemma_work_of(
    mode: u64,
    looping: u64,
    single: Seq<u8>,
    left: Seq<u8>,
    right: Seq<u8>,
    kaleidoscope: Seq<u8>,
    source: u64,
)
    requires
        single.len() <= u64::MAX,
        left.len() <= u64::MAX,
        right.len() <= u64::MAX,
        kaleidoscope.len() <= u64::MAX,
    ensures
        work_of(work_bytes(mode, looping, single, left, right, kaleidoscope, source)) is Ok,
        ({
            let work = work_of(
                work_bytes(mode, looping, single, left, right, kaleidoscope, source),
            )->Ok_0;
            &&& work.media_mode == crate::wire::media_mode(mode)
            &&& work.loop_mode == crate::wire::loop_mode(looping)
            &&& work.single_mode_media_file == lossy_text(single)
            &&& work.dual_mode_left_media_file == lossy_text(left)
            &&& work.dual_mode_right_media_file == lossy_text(right)
            &&& work.kaleidoscope_media_file == lossy_text(kaleidoscope)
            &&& work.kaleidoscope_source == source
        }),
{
    lemma_no_fields();
    let b0 = Seq::<u8>::empty();
    let b1 = b0 + uint_field(1, mode);
    assert(b1 == uint_field(1, mode));
    uint_field_is_added(b0, 1, mode, empty_work(), work_step());
    let b2 = b1 + uint_field(2, looping);
    uint_field_is_added(b1, 2, looping, empty_work(), work_step());
    let b3 = b2 + message_field(3, single);
    message_field_is_added(b2, 3, single, empty_work(), work_step());
    let b4 = b3 + message_field(4, left);
    message_field_is_added(b3, 4, left, empty_work(), work_step());
    let b5 = b4 + message_field(5, right);
    message_field_is_added(b4, 5, right, empty_work(), work_step());
    let b6 = b5 + message_field(6, kaleidoscope);
    message_field_is_added(b5, 6, kaleidoscope, empty_work(), work_step());
    uint_field_is_added(b6, 7, source, empty_work(), work_step());
}

proof fn lemma_display_of(backlight: u64, brightness: u64, mirror: u64, ui: u64, media: u64)
    ensures
        display_of(display_bytes(backlight, brightness, mirror, ui, media)) is Ok,
        ({
            let display = display_of(
                display_bytes(backlight, brightness, mirror, ui, media),
            )->Ok_0;
            &&& display.backlight_enable == (backlight == 1)
            &&& display.backlight_brightness == brightness
            &&& display.mirror == (mirror == 1)
            &&& display.ui_rotation == ui
            &&& display.media_rotation == media
        }),
{
    lemma_no_fields();
    let b0 = Seq::<u8>::empty();
    let b1 = b0 + uint_field(1, backlight);
    assert(b1 == uint_field(1, backlight));
    uint_field_is_added(b0, 1, backlight, empty_display(), display_step());
    let b2 = b1 + uint_field(2, brightness);
    uint_field_is_added(b1, 2, brightness, empty_display(), display_step());
    let b3 = b2 + uint_field(3, mirror);
    uint_field_is_added(b2, 3, mirror, empty_display(), display_step());
    let b4 = b3 + uint_field(4, ui);
    uint_field_is_added(b3, 4, ui, empty_display(), display_step());
    uint_field_is_added(b4, 5, media, empty_display(), display_step());
}

/// The word for the media mode with this number.
pub open spec fn mode_word(mode: u64) -> Seq<char> {
    if mode == 0 {
        "single"@
    } else if mode == 1 {
        "dual"@
    } else if mode == 2 {
        "kaleidoscope"@
    } else {
        "unknown ("@ + decimal(mode as nat) + ")"@
    }
}

/// The word for the loop mode with this number.
pub open spec fn loop_word(looping: u64) -> Seq<char> {
    if looping == 0 {
        "single"@
    } else if looping == 1 {
        "all"@
    } else if looping == 2 {
        "random"@
    } else {
        "unknown ("@ + decimal(looping as nat) + ")"@
    }
}

/// Numbers of modes that the panel does not report alike are not shown alike.
pub proof fn modes_are_told_apart(a: u64, b: u64)
    ensures
        mode_word(a) == mode_word(b) ==> a == b,
        loop_word(a) == loop_word(b) ==> a == b,
{
    reveal_strlit("single");
    reveal_strlit("dual");
    reveal_strlit("kaleidoscope");
    reveal_strlit("all");
    reveal_strlit("random");
    reveal_strlit("unknown (");
    reveal_strlit(")");
    let x = "unknown ("@ + decimal(a as nat) + ")"@;
    let y = "unknown ("@ + decimal(b as nat) + ")"@;
    crate::text::decimal_reads_back(a as nat);
    crate::text::decimal_reads_back(b as nat);
    assert("single"@[0] == 's' && "dual"@[0] == 'd' && "kaleidoscope"@[0] == 'k' && "all"@[0] == 'a'
        && "random"@[0] == 'r' && x[0] == 'u' && y[0] == 'u');
    if x == y {
        assert(x.subrange(9, x.len() - 1) == decimal(a as nat));
        assert(y.subrange(9, y.len() - 1) == decimal(b as nat));
    }
}

/// What `info` prints of a work section is what the panel put there: the modes
/// by their numbers, and each file under its own heading.
pub proof fn info_shows_the_work_section(
    config: Seq<u8>,
    lines: Seq<LineView>,
    mode: u64,
    looping: u64,
    single: Seq<u8>,
    left: Seq<u8>,
    right: Seq<u8>,
    kaleidoscope: Seq<u8>,
    source: u64,
)
    requires
        configuration_of(config) is Ok,
        single.len() <= u64::MAX,
        left.len() <= u64::MAX,
        right.len() <= u64::MAX,
        kaleidoscope.len() <= u64::MAX,
        work_bytes(mode, looping, single, left, right, kaleidoscope, source).len() <= u64::MAX,
    ensures
        ({
            let section = work_bytes(mode, looping, single, left, right, kaleidoscope, source);
            let told = configuration_of(config + message_field(3, section));
            let n = lines.len() as int;
            &&& told is Ok
            &&& {
                let printed = configuration_lines(lines, told->Ok_0);
                &&& printed[n + 3] == LineView::Out(
                    "  work mode:  "@ + mode_word(mode) + ", loop "@ + loop_word(looping),
                )
                &&& printed[n + 4] == LineView::Out("  single:     "@ + shown(lossy_text(single)))
                &&& printed[n + 5] == LineView::Out(
                    "  dual:       left "@ + shown(lossy_text(left)) + ", right "@ + shown(
                        lossy_text(right),
                    ),
                )
                &&& printed[n + 6] == LineView::Out(
                    "  kaleido:    "@ + shown(lossy_text(kaleidoscope)) + " (source "@ + decimal(
                        source as nat,
                    ) + ")"@,
                )
            }
        }),
{
    let section = work_bytes(mode, looping, single, left, right, kaleidoscope, source);
    lemma_work_of(mode, looping, single, left, right, kaleidoscope, source);
    message_field_is_added(config, 3, section, empty_configuration(), configuration_step());
}

/// What `info` prints of a display section is what the panel put there.
pub proof fn info_shows_the_display_section(
    config: Seq<u8>,
    lines: Seq<LineView>,
    backlight: u64,
    brightness: u64,
    mirror: u64,
    ui: u64,
    media: u64,
)
    requires
        configuration_of(config) is Ok,
        display_bytes(backlight, brightness, mirror, ui, media).len() <= u64::MAX,
    ensures
        ({
            let section = display_bytes(backlight, brightness, mirror, ui, media);
            let told = configuration_of(config + message_field(5, section));
            &&& told is Ok
            &&& {
                let printed = configuration_lines(lines, told->Ok_0);
                let n = printed.len() as int;
                &&& printed[n - 2] == LineView::Out(
                    "  backlight:  "@ + if backlight == 1 {
                        "on"@
                    } else {
                        "off"@
                    } + ", brightness "@ + decimal(brightness as nat),
                )
                &&& printed[n - 1] == LineView::Out(
                    "  rotation:   ui "@ + decimal(ui as nat) + ", media "@ + decimal(media as nat)
                        + ", mirror flag "@ + if mirror == 1 {
                        "true"@
                    } else {
                        "false"@
                    },
                )
            }
        }),
{
    let section = display_bytes(backlight, brightness, mirror, ui, media);
    lemma_display_of(backlight, brightness, mirror, ui, media);
    message_field_is_added(config, 5, section, empty_configuration(), configuration_step());
}

/// What `info` prints of the power-on and standby sections is what the panel put
/// there.
pub proof fn info_shows_the_idle_sections(
    config: Seq<u8>,
    lines: Seq<LineView>,
    poweron: Seq<u8>,
    enable: u64,
    standby: Seq<u8>,
)
    requires
        configuration_of(config) is Ok,
        poweron.len() <= u64::MAX,
        standby.len() <= u64::MAX,
        message_field(1, poweron).len() <= u64::MAX,
        (uint_field(1, enable) + message_field(2, standby)).len() <= u64::MAX,
    ensures
        ({
            let first = message_field(1, poweron);
            let second = uint_field(1, enable) + message_field(2, standby);
            let told = configuration_of(
                config + message_field(1, first) + message_field(2, second),
            );
            let n = lines.len() as int;
            &&& told is Ok
            &&& {
                let printed = configuration_lines(lines, told->Ok_0);
                &&& printed[n] == LineView::Out("Configuration"@)
                &&& printed[n + 1] == LineView::Out(
                    "  power-on:   "@ + shown(lossy_text(poweron)),
                )
                &&& printed[n + 2] == LineView::Out(
                    "  standby:    "@ + if enable == 1 {
                        "enabled"@
                    } else {
                        "disabled"@
                    } + ", media "@ + shown(lossy_text(standby)),
                )
            }
        }),
{
    lemma_no_fields();
    let first = message_field(1, poweron);
    let second = uint_field(1, enable) + message_field(2, standby);
    let none = Seq::<u8>::empty();
    reveal_with_fuel(crate::pb::fold_fields, 2);
    message_field_is_added(none, 1, poweron, Seq::<char>::empty(), text_step(1));
    assert(none + first == first);
    uint_field_is_added(none, 1, enable, empty_standby(), standby_step());
    assert(none + uint_field(1, enable) == uint_field(1, enable));
    message_field_is_added(uint_field(1, enable), 2, standby, empty_standby(), standby_step());
    message_field_is_added(config, 1, first, empty_configuration(), configuration_step());
    let more = config + message_field(1, first);
    message_field_is_added(more, 2, second, empty_configuration(), configuration_step());
}

/// A section that the panel does not send is printed as not reported, and one
/// that it sends is not.
pub proof fn info_says_what_is_missing(config: UserConfigurationView, lines: Seq<LineView>)
    ensures
        ({
            let printed = configuration_lines(lines, config);
            let n = lines.len() as int;
            let after = if config.work is Some {
                n + 7
            } else {
                n + 4
            };
            &&& config.poweron is None ==> printed[n + 1] == LineView::Out(
                "  power-on:   not reported"@,
            )
            &&& config.standby is None ==> printed[n + 2] == LineView::Out(
                "  standby:    not reported"@,
            )
            &&& config.work is None ==> printed[n + 3] == LineView::Out(
                "  work:       not reported"@,
            )
            &&& config.display is None ==> printed[after] == LineView::Out(
                "  display:    not reported"@,
            )
            &&& printed.len() == if config.display is Some {
                after + 2
            } else {
                after + 1
            }
            &&& lines.is_prefix_of(printed)
            &&& forall|i: int| n <= i < printed.len() ==> (#[trigger] printed[i]) is Out
        }),
{
}

/// What `info` prints of the device is what the device said of itself, each
/// under its own heading.
pub proof fn info_shows_the_device(
    lines: Seq<LineView>,
    auth: Seq<char>,
    attempts: u32,
    span: Duration,
    os: Seq<u8>,
    version: Seq<u8>,
    firmware: Seq<u8>,
    product: Seq<u8>,
    app: Seq<u8>,
    serial: Seq<u8>,
    locked: u64,
    chip: Seq<u8>,
)
    requires
        os.len() <= u64::MAX,
        version.len() <= u64::MAX,
        firmware.len() <= u64::MAX,
        product.len() <= u64::MAX,
        app.len() <= u64::MAX,
        serial.len() <= u64::MAX,
        chip.len() <= u64::MAX,
    ensures
        ({
            let body = message_field(1, os) + message_field(2, version) + message_field(3, firmware)
                + message_field(4, product) + message_field(5, app) + message_field(8, serial)
                + uint_field(9, locked) + message_field(10, chip);
            let told = device_information_of(body);
            &&& told is Ok
            &&& {
                let printed = device_lines(
                    lines,
                    BootstrapView { device: told->Ok_0, auth, readiness_attempts: attempts },
                    span,
                );
                let n = lines.len() as int;
                &&& printed.len() == n + 9
                &&& lines.is_prefix_of(printed)
                &&& printed[n] == LineView::Out(
                    "session started in "@ + decimal(span as nat / 1_000_000) + " ms after "@
                        + decimal(attempts as nat) + " DeviceInfo attempt(s)"@,
                )
                &&& printed[n + 1] == LineView::Out("Device"@)
                &&& printed[n + 2] == LineView::Out("  product:    "@ + shown(lossy_text(product)))
                &&& printed[n + 3] == LineView::Out(
                    "  os:         "@ + shown(lossy_text(os)) + " "@ + lossy_text(version),
                )
                &&& printed[n + 4] == LineView::Out("  firmware:   "@ + shown(lossy_text(firmware)))
                &&& printed[n + 5] == LineView::Out("  app:        "@ + shown(lossy_text(app)))
                &&& printed[n + 6] == LineView::Out(
                    "  serial:     "@ + shown(lossy_text(serial)) + if locked == 1 {
                        " (locked)"@
                    } else {
                        ""@
                    },
                )
                &&& printed[n + 7] == LineView::Out("  chip id:    "@ + shown(lossy_text(chip)))
                &&& printed[n + 8] == LineView::Out("  auth:       "@ + shown(auth))
            }
        }),
{
    lemma_no_fields();
    let none = empty_device_information();
    let step = device_information_step();
    let b0 = Seq::<u8>::empty();
    message_field_is_added(b0, 1, os, none, step);
    let b1 = message_field(1, os);
    assert(b0 + b1 == b1);
    message_field_is_added(b1, 2, version, none, step);
    let b2 = b1 + message_field(2, version);
    message_field_is_added(b2, 3, firmware, none, step);
    let b3 = b2 + message_field(3, firmware);
    message_field_is_added(b3, 4, product, none, step);
    let b4 = b3 + message_field(4, product);
    message_field_is_added(b4, 5, app, none, step);
    let b5 = b4 + message_field(5, app);
    message_field_is_added(b5, 8, serial, none, step);
    let b6 = b5 + message_field(8, serial);
    uint_field_is_added(b6, 9, locked, none, step);
    let b7 = b6 + uint_field(9, locked);
    message_field_is_added(b7, 10, chip, none, step);
}

// ---------------------------------------------------------------------------
// The status.
// ---------------------------------------------------------------------------

/// What `status` says about the watcher: the line before the last.
pub open spec fn watcher_line(lines: Seq<LineView>, facts: StatusFacts) -> LineView {
    let printed = status_lines(lines, facts);
    printed[printed.len() - 2]
}

proof fn lemma_watcher_words()
    ensures
        "watcher      "@ + "not running"@ == "watcher      not running"@,
        "watcher      "@ + "running, not answering"@ == "watcher      running, not answering"@,
        forall|s: crate::watch::State|
            "watcher      "@ + ("running: "@ + #[trigger] state_label(s)) == "watcher      running: "@
                + state_label(s),
{
    reveal_strlit("watcher      ");
    reveal_strlit("not running");
    reveal_strlit("running, not answering");
    reveal_strlit("running: ");
    reveal_strlit("watcher      not running");
    reveal_strlit("watcher      running, not answering");
    reveal_strlit("watcher      running: ");
    assert("watcher      "@ + "not running"@ =~= "watcher      not running"@);
    assert("watcher      "@ + "running, not answering"@
        =~= "watcher      running, not answering"@);
    assert("watcher      "@ + "running: "@ =~= "watcher      running: "@);
    assert forall|s: crate::watch::State|
        "watcher      "@ + ("running: "@ + #[trigger] state_label(s)) == "watcher      running: "@
            + state_label(s) by {
        assert("watcher      "@ + ("running: "@ + state_label(s)) =~= ("watcher      "@
            + "running: "@) + state_label(s));
    }
}

/// `status` says that the watcher is not running exactly if none was found; it
/// says that it is running exactly if one was, with the state that it answered
/// or that it did not answer; and it tells all of these apart.
pub proof fn status_tells_watchers_apart(
    lines: Seq<LineView>,
    facts: StatusFacts,
    other: StatusFacts,
)
    ensures
        watcher_line(lines, facts) == LineView::Out("watcher      not running"@)
            <==> facts.watcher is Absent,
        watcher_line(lines, facts) == LineView::Out("watcher      running, not answering"@)
            <==> facts.watcher is Silent,
        forall|state: crate::watch::State|
            #![trigger state_label(state)]
            watcher_line(lines, facts) == LineView::Out(
                "watcher      running: "@ + state_label(state),
            ) <==> facts.watcher == WatcherFacts::Answering(state),
        watcher_line(lines, facts) == watcher_line(lines, other) ==> facts.watcher == other.watcher,
{
    lemma_watcher_words();
    reveal_strlit("watcher      not running");
    reveal_strlit("watcher      running, not answering");
    reveal_strlit("watcher      running: ");
    let absent = "watcher      not running"@;
    let silent = "watcher      running, not answering"@;
    let answer = "watcher      running: "@;
    assert(absent[13] == 'n' && silent[13] == 'r' && silent[20] == ',' && answer[13] == 'r'
        && answer[20] == ':');
    assert forall|a: crate::watch::State| #![trigger state_label(a)] (answer + state_label(a))[13] == 'r' && (
    answer + state_label(a))[20] == ':' by {}
    assert forall|a: crate::watch::State, b: crate::watch::State|
        #![trigger state_label(a), state_label(b)]
        answer + state_label(a) == answer + state_label(b) implies a == b by {
        assert((answer + state_label(a)).skip(answer.len() as int) == state_label(a));
        assert((answer + state_label(b)).skip(answer.len() as int) == state_label(b));
        crate::watch::state_labels_are_distinct(a, b);
    }
}

/// `status` ends with the panel: present, with its path, exactly if there is
/// one; otherwise that there is none, how many there are, or why that is not
/// known.
pub proof fn status_ends_with_the_panel(lines: Seq<LineView>, facts: StatusFacts)
    ensures
        ({
            let last = status_lines(lines, facts).last();
            match facts.panel {
                Ok(Discovery::One(path)) => last == LineView::Out(
                    "panel        present at "@ + path@,
                ),
                Ok(Discovery::Absent) => last == LineView::Out("panel        not present"@),
                Ok(Discovery::Several(paths)) => last == LineView::Out(
                    "panel        "@ + decimal(paths@.len()) + " present"@,
                ),
                Err(reason) => last == LineView::Out(
                    "panel        discovery failed: "@ + reason@,
                ),
            }
        }),
{
}

/// How many lines `status` has about the binaries.
pub open spec fn binary_count(facts: StatusFacts) -> int {
    match facts.binaries {
        Some(binaries) => binaries@.len() as int,
        None => 1,
    }
}

proof fn lemma_binary_lines(
    lines: Seq<LineView>,
    binaries: Seq<crate::cli::setup::BinaryFacts>,
)
    ensures
        ({
            let printed = crate::cli::setup::binary_lines(lines, binaries);
            &&& printed.len() == lines.len() + binaries.len()
            &&& lines.is_prefix_of(printed)
            &&& forall|i: int|
                #![trigger binaries[i]]
                0 <= i < binaries.len() ==> printed[lines.len() + i] == LineView::Out(
                    crate::cli::setup::binary_line(binaries[i]),
                )
        }),
    decreases binaries.len(),
{
    if binaries.len() > 0 {
        lemma_binary_lines(lines, binaries.drop_last());
        assert forall|i: int| #![trigger binaries[i]] 0 <= i < binaries.len() - 1 implies binaries[i]
            == binaries.drop_last()[i] by {}
    }
}

proof fn lemma_entry_lines(lines: Seq<LineView>, entries: Seq<crate::install::RunEntry>)
    ensures
        ({
            let printed = crate::cli::setup::entry_lines(lines, entries);
            &&& printed.len() == lines.len() + entries.len()
            &&& lines.is_prefix_of(printed)
            &&& forall|i: int|
                #![trigger entries[i]]
                0 <= i < entries.len() ==> printed[lines.len() + i] == LineView::Out(
                    "kanali       startup entry "@ + entries[i].name@ + ": "@ + entries[i].command@,
                )
        }),
    decreases entries.len(),
{
    if entries.len() > 0 {
        lemma_entry_lines(lines, entries.drop_last());
        assert forall|i: int| #![trigger entries[i]] 0 <= i < entries.len() - 1 implies entries[i]
            == entries.drop_last()[i] by {}
    }
}

/// `status` says of each binary whether it is installed, and where; then which
/// logon entry, which Start Menu entry and which KANALI startup entries there
/// are, or that there are none.
pub proof fn status_says_what_is_installed(lines: Seq<LineView>, facts: StatusFacts)
    ensures
        ({
            let printed = status_lines(lines, facts);
            let n = lines.len() as int;
            let at = n + binary_count(facts);
            &&& lines.is_prefix_of(printed)
            &&& match facts.binaries {
                Some(binaries) => forall|i: int|
                    #![trigger binaries@[i]]
                    0 <= i < binaries@.len() ==> printed[n + i] == LineView::Out(
                        crate::cli::setup::padded(binaries@[i].name@, 12) + " "@
                            + if binaries@[i].exists {
                            "installed at "@ + binaries@[i].path@
                        } else {
                            "not installed"@
                        },
                    ),
                None => printed[n] == LineView::Out(
                    "install dir  unknown (LOCALAPPDATA is not set)"@,
                ),
            }
            &&& printed[at] == LineView::Out(
                match facts.logon {
                    Ok(Some(command)) => "logon entry  "@ + command@,
                    Ok(None) => "logon entry  none"@,
                    Err(reason) => "logon entry  unreadable: "@ + reason@,
                },
            )
            &&& printed[at + 1] == LineView::Out(
                match facts.start_menu {
                    Some(link) => "start menu   "@ + link@,
                    None => "start menu   none"@,
                },
            )
            &&& match facts.kanali {
                Ok(entries) => {
                    &&& entries@.len() == 0 ==> printed[at + 2] == LineView::Out(
                        "kanali       no startup entry"@,
                    ) && printed.len() == at + 5
                    &&& entries@.len() > 0 ==> printed.len() == at + 4 + entries@.len()
                    &&& forall|i: int|
                        #![trigger entries@[i]]
                        0 <= i < entries@.len() ==> printed[at + 2 + i] == LineView::Out(
                            "kanali       startup entry "@ + entries@[i].name@ + ": "@
                                + entries@[i].command@,
                        )
                },
                Err(reason) => printed[at + 2] == LineView::Out(
                    "kanali       unreadable: "@ + reason@,
                ) && printed.len() == at + 5,
            }
        }),
{
    let l1 = match facts.binaries {
        Some(binaries) => {
            lemma_binary_lines(lines, binaries@);
            crate::cli::setup::binary_lines(lines, binaries@)
        },
        None => said(lines, "install dir  unknown (LOCALAPPDATA is not set)"@),
    };
    let l2 = match facts.logon {
        Ok(Some(command)) => said(l1, "logon entry  "@ + command@),
        Ok(None) => said(l1, "logon entry  none"@),
        Err(error) => said(l1, "logon entry  unreadable: "@ + error@),
    };
    let l3 = match facts.start_menu {
        Some(link) => said(l2, "start menu   "@ + link@),
        None => said(l2, "start menu   none"@),
    };
    let l4 = match facts.kanali {
        Ok(entries) => {
            lemma_entry_lines(l3, entries@);
            if entries@.len() == 0 {
                said(l3, "kanali       no startup entry"@)
            } else {
                crate::cli::setup::entry_lines(l3, entries@)
            }
        },
        Err(error) => said(l3, "kanali       unreadable: "@ + error@),
    };
    let printed = status_lines(lines, facts);
    assert(l1.len() == lines.len() + binary_count(facts));
    assert(printed.len() == l4.len() + 2);
    assert forall|k: int| 0 <= k < l4.len() implies #[trigger] printed[k] == l4[k] by {}
    assert forall|k: int| 0 <= k < l3.len() implies #[trigger] printed[k] == l3[k] by {
        assert(l4[k] == l3[k]);
    }
    assert forall|k: int| 0 <= k < l1.len() implies #[trigger] printed[k] == l1[k] by {
        assert(l3[k] == l1[k]);
    }
    let at = l1.len() as int;
    assert(printed[at] == l3[at]);
    assert(printed[at + 1] == l3[at + 1]);
    assert(printed[at + 2] == l4[at + 2]);
    assert(lines.is_prefix_of(printed)) by {
        assert(printed.subrange(0, lines.len() as int) == lines) by {
            assert forall|k: int| 0 <= k < lines.len() implies printed[k] == lines[k] by {
                assert(printed[k] == l1[k]);
            }
        }
    }
    if let Some(binaries) = facts.binaries {
        assert forall|i: int| #![trigger binaries@[i]] 0 <= i < binaries@.len() implies printed[
            lines.len() + i
        ] == LineView::Out(crate::cli::setup::binary_line(binaries@[i])) by {
            assert(printed[lines.len() + i] == l1[lines.len() + i]);
        }
    }
    if let Ok(entries) = facts.kanali {
        assert forall|i: int| #![trigger entries@[i]] 0 <= i < entries@.len() implies printed[
            l3.len() + i
        ] == l4[l3.len() + i] by {}
    }
}

// ---------------------------------------------------------------------------
// Requests to the watcher, and exit codes.
// ---------------------------------------------------------------------------

/// A request to the watcher succeeds, with exit code 0 and a line of its own on
/// the standard output, exactly if it was sent and, for a pause, confirmed.
/// Otherwise the exit code is 1 and the line goes to the standard error.
pub proof fn requests_exit_by_their_success(
    request: WatcherRequest,
    sent: bool,
    confirmed: Result<bool, Seq<char>>,
    lines: Seq<LineView>,
)
    ensures
        ({
            let (code, printed) = control_outcome(request, sent, confirmed, lines);
            let done = sent && (request is Pause ==> confirmed == Ok::<bool, Seq<char>>(true));
            &&& code == if done {
                0u8
            } else {
                1u8
            }
            &&& printed.len() == lines.len() + 1
            &&& printed.drop_last() == lines
            &&& done ==> printed.last() == LineView::Out(
                match request {
                    WatcherRequest::Pause => "watcher paused; the panel is released"@,
                    WatcherRequest::Resume => "watcher resumed"@,
                    WatcherRequest::OpenKanali => "watcher asked to start KANALI"@,
                    WatcherRequest::Stop => "watcher asked to stop"@,
                },
            )
            &&& !done ==> printed.last() == LineView::Problem(
                if !sent {
                    "no ezrama watcher is running"@
                } else {
                    match confirmed {
                        Err(reason) =>
                        "pause requested, but there is no confirmation to wait for: "@ + reason,
                        Ok(_) => "watcher did not confirm the pause within "@ + decimal(5) + " s"@,
                    }
                },
            )
        }),
{
    let (_, printed) = control_outcome(request, sent, confirmed, lines);
    assert(printed.drop_last() == lines);
}

/// A look for the display succeeds exactly if there is exactly one, and gives
/// its path; the exit code is 3 if there are several and 1 otherwise.
pub proof fn looks_exit_by_what_they_found(found: Result<Discovery, String>, lines: Seq<LineView>)
    ensures
        ({
            let (result, printed) = located(found, lines);
            match found {
                Ok(Discovery::One(path)) => {
                    &&& result == Ok::<Seq<char>, u8>(path@)
                    &&& printed == lines.push(LineView::Out("Panorama SE: "@ + path@))
                },
                Ok(Discovery::Absent) => {
                    &&& result == Err::<Seq<char>, u8>(1)
                    &&& printed == lines.push(
                        LineView::Problem("no Panorama SE printer interface is present"@),
                    )
                },
                Ok(Discovery::Several(_)) => result == Err::<Seq<char>, u8>(3),
                Err(reason) => {
                    &&& result == Err::<Seq<char>, u8>(1)
                    &&& printed == lines.push(LineView::Problem("discovery failed: "@ + reason@))
                },
            }
        }),
{
}

/// A hold that was asked to stop exits with 0, whether the request came between
/// two Pings or cut a read short; every other end is a loss and exits with 1.
pub proof fn holds_exit_by_their_end(
    report: RunReport,
    result: Result<(), ErrorView>,
    lines: Seq<LineView>,
)
    ensures
        ({
            let (code, printed) = run_ended(report, result, lines);
            let stopped = result is Ok || result == Err::<(), ErrorView>(
                ErrorView::Read(ReadError::Interrupted),
            );
            let pings = decimal(report.pings as nat);
            &&& code == if stopped {
                0u8
            } else {
                1u8
            }
            &&& result is Ok ==> printed == said(lines, "session released"@)
            &&& result matches Err(error) ==> printed == if stopped {
                said(lines, "stop requested after "@ + pings + " pings; session released"@)
            } else {
                complained(lines, "session lost after "@ + pings + " pings: "@ + error.text())
            }
        }),
{
}

// ---------------------------------------------------------------------------
// Installing and uninstalling.
// ---------------------------------------------------------------------------

/// An installation says of each step what was done, with the details, or why it
/// was not; a failure goes to the standard error.
pub proof fn installations_say_each_step(
    step: InstallStep,
    plan: InstallPlan,
    outcome: Outcome,
    lines: Seq<LineView>,
)
    ensures
        ({
            let printed = install_progress(step, plan, outcome, lines).1;
            match outcome {
                Outcome::Done(detail) => printed == lines.push(
                    LineView::Out(
                        match step {
                            InstallStep::StopWatcher => "stopped the running watcher"@,
                            InstallStep::CopyProgram => "copied "@ + "ezrama.exe"@ + " to "@
                                + plan.directory@ + " ("@ + detail@ + " bytes)"@,
                            InstallStep::WriteWatcher => "wrote "@ + detail@,
                            InstallStep::WriteIcon => "wrote "@ + detail@,
                            InstallStep::StartMenu => "Start Menu entry "@ + detail@,
                            InstallStep::LogonEntry => "logon entry "@ + "ezrama"@ + ": "@
                                + detail@,
                            InstallStep::AppsEntry => "Settings entry "@ + detail@,
                            InstallStep::SearchPath => "added "@ + plan.directory@
                                + " to the search path"@,
                            InstallStep::StartWatcher => "started the installed watcher (process "@
                                + detail@ + ")"@,
                        },
                    ),
                ),
                Outcome::Unneeded => match step {
                    InstallStep::CopyProgram => printed == lines.push(
                        LineView::Out("already running from "@ + plan.directory@),
                    ),
                    InstallStep::StartMenu => printed == lines.push(
                        LineView::Out("APPDATA is not set; no Start Menu entry"@),
                    ),
                    InstallStep::SearchPath => printed == lines.push(
                        LineView::Out("the search path already lists "@ + plan.directory@),
                    ),
                    _ => printed == lines,
                },
                Outcome::Failed(reason) => match step {
                    InstallStep::StopWatcher => printed == lines.push(
                        LineView::Problem(reason@),
                    ).push(LineView::Out("stopped the running watcher"@)),
                    _ => printed == lines.push(
                        LineView::Problem(
                            match step {
                                InstallStep::CopyProgram => "cannot copy "@ + plan.source@ + " to "@
                                    + plan.destination@ + ": "@,
                                InstallStep::WriteWatcher => "cannot write the windowless program: "@,
                                InstallStep::WriteIcon => "cannot write the icon file: "@,
                                InstallStep::StartMenu => "cannot write the Start Menu entry: "@,
                                InstallStep::LogonEntry => "cannot register the logon entry: "@,
                                InstallStep::AppsEntry => "cannot write the Settings entry: "@,
                                InstallStep::SearchPath => "cannot edit the search path: "@,
                                InstallStep::StartWatcher =>
                                "installed, but could not start the watcher now: "@,
                                InstallStep::StopWatcher => Seq::empty(),
                            } + reason@,
                        ),
                    ),
                },
            }
        }),
{
}

/// An uninstallation says of each step what was taken away, or why it was not; a
/// failure goes to the standard error, and what was not there is passed over,
/// but for the logon entry.
pub proof fn uninstallations_say_each_step(
    u: Uninstall,
    step: UninstallStep,
    path: Seq<char>,
    outcome: Outcome,
    lines: Seq<LineView>,
)
    ensures
        ({
            let printed = uninstall_progress(u, step, path, outcome, lines).2;
            match outcome {
                Outcome::Done(_) => printed == lines.push(
                    LineView::Out(
                        match step {
                            UninstallStep::StopWatcher => "stopped the running watcher"@,
                            UninstallStep::LogonEntry => "removed the logon entry"@,
                            UninstallStep::AppsEntry => "removed the Settings entry"@,
                            UninstallStep::SearchPath => "removed "@ + path
                                + " from the search path"@,
                            UninstallStep::StartMenu => "removed the Start Menu entry"@,
                            _ => "deleted "@ + path,
                        },
                    ),
                ),
                Outcome::Unneeded => printed == if step is LogonEntry {
                    lines.push(LineView::Out("no logon entry was registered"@))
                } else {
                    lines
                },
                Outcome::Failed(reason) => {
                    &&& printed[lines.len() as int] == LineView::Problem(
                        match step {
                            UninstallStep::StopWatcher => ""@,
                            UninstallStep::LogonEntry => "cannot remove the logon entry: "@,
                            UninstallStep::AppsEntry => "cannot remove the Settings entry: "@,
                            UninstallStep::SearchPath => "cannot edit the search path: "@,
                            UninstallStep::StartMenu => "cannot remove "@ + path + ": "@,
                            _ => "cannot delete "@ + path + ": "@,
                        } + reason@,
                    )
                    &&& printed.len() == lines.len() + if step is StopWatcher {
                        2int
                    } else {
                        1
                    }
                    &&& step is StopWatcher ==> printed.last() == LineView::Out(
                        "stopped the running watcher"@,
                    )
                },
            }
        }),
{
}

// ---------------------------------------------------------------------------
// Sessions.
// ---------------------------------------------------------------------------

/// `info` exits with 0 exactly if the device answered both the bootstrap and the
/// configuration query and the session is still open; and then everything that
/// was learned is printed, the device before its configuration.
pub proof fn info_exits_by_what_it_learned(s: State, o: Record, lines: Seq<LineView>)
    ensures
        ({
            let (code, end, printed) = info_run(s, o, lines);
            let started = s.next_now(o);
            let (bootstrap, s2) = bootstrap_run(s.timed(started), o);
            let now = s2.next_now(o);
            let (config, s4) = query_run(s2.timed(now), o);
            let span = crate::time::span_since(now as int, started as int) as u128;
            &&& code == 0 || code == 1
            &&& code == 0 <==> bootstrap is Ok && config is Ok && s4.closed is None
            &&& bootstrap matches Err(error) ==> printed == lines.push(
                LineView::Problem("session start failed: "@ + error.text()),
            )
            &&& bootstrap is Ok ==> {
                let device = device_lines(lines, bootstrap->Ok_0, span);
                match config {
                    Err(error) => printed == device.push(
                        LineView::Problem("configuration query failed: "@ + error.text()),
                    ),
                    Ok(config) => {
                        let all = configuration_lines(device, config);
                        match s4.closed {
                            None => printed == all,
                            Some(error) => printed == all.push(
                                LineView::Problem("session closed: "@ + error.text()),
                            ),
                        }
                    },
                }
            }
        }),
{
}

/// `activate` exits with 0 exactly if the session was started and the
/// configuration read, and then says what the panel is configured to show.
pub proof fn activate_exits_by_what_it_did(s: State, o: Record, lines: Seq<LineView>)
    ensures
        ({
            let (code, end, printed) = activate_command_run(s, o, lines);
            let (started, s1, told) = start_run(s, o, lines);
            let config = query_run(s1, o).0;
            &&& code == 0 || code == 1
            &&& code == 0 <==> started is Ok && config is Ok
            &&& started is Err ==> printed == told
            &&& started is Ok ==> printed == told.push(
                match config {
                    Err(error) => LineView::Problem("configuration query failed: "@ + error.text()),
                    Ok(config) => LineView::Out(
                        match config.work {
                            Some(work) => "panel is configured to show "@ + shown(
                                work.single_mode_media_file,
                            ),
                            None => "panel reported no work configuration"@,
                        },
                    ),
                },
            )
        }),
{
}

/// `run` counts every Ping, says each one where detail is wanted, with how it
/// was answered, and says every retry and the stop.
pub proof fn runs_say_what_happens(report: RunReport, event: EventView, lines: Seq<LineView>)
    requires
        report.pings < u64::MAX,
    ensures
        ({
            let (after, printed) = run_noted(report, event, lines);
            &&& after.verbose == report.verbose
            &&& after.pings == report.pings + if event is Pinged {
                1int
            } else {
                0
            }
            &&& match event {
                EventView::Pinged { reply, drained, gap } => printed == if report.verbose {
                    lines.push(
                        LineView::Out(
                            "ping "@ + decimal((report.pings + 1) as nat) + ": "@ + match reply {
                                OptionalReply::Nothing => "no reply"@,
                                OptionalReply::Acknowledged => "acknowledged"@,
                                OptionalReply::Drained => "reply consumed"@,
                            } + "; "@ + decimal(gap as nat / 1_000_000) + " ms since the last; "@
                                + decimal(drained as nat) + " unasked frames drained so far"@,
                        ),
                    )
                } else {
                    lines
                },
                EventView::Retrying { attempt, error } => printed == lines.push(
                    LineView::Out(
                        "ping retry "@ + decimal(attempt as nat) + " of "@ + decimal(3) + ": "@
                            + error.text(),
                    ),
                ),
                EventView::Stopped => printed == lines.push(
                    LineView::Out(
                        "stop requested after "@ + decimal(report.pings as nat) + " pings"@,
                    ),
                ),
            }
        }),
{
}

/// A watcher gives way to one that runs already, with exit code 5, and says as
/// which process; otherwise it starts, and says with which interval.
pub proof fn watchers_give_way(
    running: Option<u32>,
    version: Seq<char>,
    interval: Duration,
    log: LogView,
)
    requires
        !log.silent,
    ensures
        ({
            let (result, told) = watch_begun(running, version, interval, log);
            match running {
                Some(id) => {
                    &&& result == Err::<(), u8>(5)
                    &&& told.lines == log.lines.push(
                        "a watcher is already running as process "@ + decimal(id as nat)
                            + "; nothing to do"@,
                    )
                },
                None => {
                    &&& result is Ok
                    &&& told.lines == log.lines.push(
                        "watch starting: ezrama "@ + version + ", ping interval "@ + decimal(
                            interval as nat / 1_000_000,
                        ) + " ms"@,
                    )
                },
            }
        }),
{
}

// ---------------------------------------------------------------------------
// Probing, and notes on startup entries.
// ---------------------------------------------------------------------------

/// Whether `printed` is `lines` with one more for each path, indented, in order.
pub open spec fn lists_each(lines: Seq<LineView>, printed: Seq<LineView>, paths: Seq<String>) -> bool {
    &&& printed.len() == lines.len() + paths.len()
    &&& lines.is_prefix_of(printed)
    &&& forall|i: int|
        #![trigger paths[i]]
        0 <= i < paths.len() ==> printed[lines.len() + i] == LineView::Out("  "@ + paths[i]@)
}

/// Each path is listed on a line of its own, in order; where the list is a
/// complaint, on the standard error.
pub proof fn paths_are_listed_in_order(lines: Seq<LineView>, paths: Seq<String>)
    ensures
        lists_each(lines, listed(lines, paths), paths),
        ({
            let printed = listed_problems(lines, paths);
            &&& printed.len() == lines.len() + paths.len()
            &&& lines.is_prefix_of(printed)
            &&& forall|i: int|
                #![trigger paths[i]]
                0 <= i < paths.len() ==> printed[lines.len() + i] == LineView::Problem(
                    "  "@ + paths[i]@,
                )
        }),
    decreases paths.len(),
{
    if paths.len() > 0 {
        paths_are_listed_in_order(lines, paths.drop_last());
        assert forall|i: int| #![trigger paths[i]] 0 <= i < paths.len() - 1 implies paths[i]
            == paths.drop_last()[i] by {}
    }
}

/// What the transfer check says of its read: how much came, or that nothing did
/// in how many milliseconds, or why it failed; it goes on unless it failed.
pub proof fn checks_say_what_was_read(
    result: Result<Vec<u8>, ReadError>,
    elapsed: Duration,
    lines: Seq<LineView>,
)
    ensures
        ({
            let (go_on, printed) = armed_read(result, elapsed, lines);
            &&& go_on <==> result is Ok
            &&& printed == lines.push(
                match result {
                    Err(error) => LineView::Problem("read failed: "@ + error.text()),
                    Ok(bytes) => LineView::Out(
                        if bytes@.len() > 0 {
                            "armed a read; "@ + decimal(bytes@.len())
                                + " unsolicited bytes arrived"@
                        } else {
                            "armed a "@ + decimal(64) + " KiB read; nothing arrived within "@
                                + decimal(elapsed as nat / 1_000_000) + " ms"@
                        },
                    ),
                },
            )
        }),
{
}

/// What the transfer check says of taking its read down; it goes on unless the
/// read had to be abandoned.
pub proof fn checks_say_how_the_read_ended(disarm: Disarm, lines: Seq<LineView>)
    ensures
        ({
            let (go_on, printed) = disarmed(disarm, lines);
            &&& go_on <==> disarm !is Abandoned
            &&& printed == lines.push(
                match disarm {
                    Disarm::Cancelled(taken) => LineView::Out(
                        "cancelled and reaped in "@ + decimal(taken as nat / 1_000_000) + " ms"@,
                    ),
                    Disarm::Completed(count) => LineView::Out(
                        "read had completed with "@ + decimal(count as nat)
                            + " bytes before cancel"@,
                    ),
                    Disarm::NotArmed => LineView::Out("no read was armed"@),
                    Disarm::Abandoned => LineView::Problem(
                        "cancellation did not complete; buffer abandoned"@,
                    ),
                },
            )
        }),
{
}

/// An installation notes each KANALI startup entry that is still enabled, and
/// then how to turn it off; without any it says nothing.
pub proof fn startup_entries_are_noted(
    lines: Seq<LineView>,
    found: Result<Vec<RunEntry>, String>,
)
    ensures
        ({
            let printed = kanali_notes(lines, found);
            match found {
                Err(reason) => printed == lines.push(
                    LineView::Out("could not check for KANALI startup entries: "@ + reason@),
                ),
                Ok(entries) => {
                    &&& entries@.len() == 0 ==> printed == lines
                    &&& entries@.len() > 0 ==> {
                        &&& printed.len() == lines.len() + entries@.len() + 1
                        &&& printed.last() == LineView::Out(
                            "      turn off start with Windows in KANALI's settings, or the two will race for the panel at logon"@,
                        )
                        &&& forall|i: int|
                            #![trigger entries@[i]]
                            0 <= i < entries@.len() ==> printed[lines.len() + i] == LineView::Out(
                                "note: a KANALI startup entry named "@ + entries@[i].name@
                                    + " is still enabled: "@ + entries@[i].command@,
                            )
                    }
                },
            }
        }),
{
    if let Ok(entries) = found {
        lemma_entry_notes(lines, entries@);
    }
}

proof fn lemma_entry_notes(lines: Seq<LineView>, entries: Seq<RunEntry>)
    ensures
        ({
            let printed = entry_notes(lines, entries);
            &&& printed.len() == lines.len() + entries.len()
            &&& forall|i: int|
                #![trigger entries[i]]
                0 <= i < entries.len() ==> printed[lines.len() + i] == LineView::Out(
                    "note: a KANALI startup entry named "@ + entries[i].name@
                        + " is still enabled: "@ + entries[i].command@,
                )
        }),
    decreases entries.len(),
{
    if entries.len() > 0 {
        lemma_entry_notes(lines, entries.drop_last());
        assert forall|i: int| #![trigger entries[i]] 0 <= i < entries.len() - 1 implies entries[i]
            == entries.drop_last()[i] by {}
    }
}

/// A session start prints every line of its log on the standard output, in
/// order, and only then, if it failed, why on the standard error; it fails with
/// exit code 1.
pub proof fn starts_print_their_log(s: State, o: Record, lines: Seq<LineView>)
    ensures
        ({
            let (result, end, log) = crate::backend::establish_run(
                s,
                o,
                LogView { silent: false, lines: Seq::empty() },
            );
            let (code, after, printed) = start_run(s, o, lines);
            let n = lines.len() as int;
            let m = log.lines.len() as int;
            &&& after == end
            &&& lines.is_prefix_of(printed)
            &&& forall|i: int|
                #![trigger log.lines[i]]
                0 <= i < m ==> printed[n + i] == LineView::Out(log.lines[i])
            &&& result is Ok ==> code is Ok && printed.len() == n + m
            &&& result matches Err(error) ==> {
                &&& code == Err::<(), u8>(1)
                &&& printed.len() == n + m + 1
                &&& printed.last() == LineView::Problem(
                    match error {
                        crate::backend::StartView::Interrupted => "session start interrupted"@,
                        crate::backend::StartView::Failed(reason) => reason,
                    },
                )
            }
        }),
{
    let log = crate::backend::establish_run(
        s,
        o,
        LogView { silent: false, lines: Seq::empty() },
    ).2;
    lemma_printed_log(lines, log.lines);
}

proof fn lemma_printed_log(lines: Seq<LineView>, log: Seq<Seq<char>>)
    ensures
        ({
            let printed = crate::cli::report::with_log(lines, log);
            &&& printed.len() == lines.len() + log.len()
            &&& lines.is_prefix_of(printed)
            &&& forall|i: int|
                #![trigger log[i]]
                0 <= i < log.len() ==> printed[lines.len() + i] == LineView::Out(log[i])
        }),
    decreases log.len(),
{
    if log.len() > 0 {
        lemma_printed_log(lines, log.drop_last());
        assert forall|i: int| #![trigger log[i]] 0 <= i < log.len() - 1 implies log[i]
            == log.drop_last()[i] by {}
    }
}

} // verus!
