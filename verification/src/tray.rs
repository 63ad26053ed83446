//! The notification-area icon: which rendering of a program's icon to take,
//! what the tooltip holds, in which order the shell is notified, and what the
//! pop-up menu reports.

use vstd::prelude::*;

use crate::icon;
use crate::icon::Image;
use crate::launcher;
use crate::text;
use crate::utf16;
use crate::win::{MF_GRAYED, MF_STRING, NIM_ADD, NIM_DELETE, NIM_MODIFY, NIM_SETVERSION};

verus! {

/// How many units a tooltip has room for, its terminator among them.
pub const TIP_UNITS: usize = 128;

/// The side of a small icon where the system does not say.
pub const FALLBACK_ICON_SIZE: usize = 16;

/// The side of a small icon, as the notification area draws it, when the
/// system reports `metric`.
pub fn small_icon_size(metric: i32) -> (size: usize)
    ensures
        size == if metric <= 0 {
            FALLBACK_ICON_SIZE as int
        } else {
            metric as int
        },
{
    if metric <= 0 {
        FALLBACK_ICON_SIZE
    } else {
        metric as usize
    }
}

// ---------------------------------------------------------------------------
// Another program's icon.
// ---------------------------------------------------------------------------

/// The height of a bitmap, whichever way up it is stored.
pub open spec fn upright(height: i32) -> int {
    if height < 0 {
        -height
    } else {
        height as int
    }
}

/// The side of a bitmap that was probed for its dimensions, if it is square
/// and not empty. A negative height is that of a bitmap stored top down.
pub fn bitmap_side(probed: i32, width: i32, height: i32) -> (side: Option<usize>)
    ensures
        side == if probed == 0 || width <= 0 || width != upright(height) {
            None::<usize>
        } else {
            Some(width as usize)
        },
{
    if probed == 0 || width <= 0 || (width as i64 != height as i64 && width as i64 != -(
    height as i64)) {
        return None;
    }
    Some(width as usize)
}

/// The pixels of an icon: those of its colour bitmap if they have an alpha
/// channel, or else with one from the mask bitmap, where there is one of the
/// same size. An icon without a usable mask is opaque.
pub fn icon_image(color: Image, mask: Option<Image>) -> (image: Image)
    requires
        color.square(),
        mask matches Some(mask) ==> mask.square(),
        color.size * color.size <= usize::MAX,
    ensures
        ({
            let alpha = exists|i: int|
                0 <= i < color.pixels@.len() && icon::alpha_of(#[trigger] color.pixels@[i]) != 0;
            let masked = mask matches Some(mask) && mask.size == color.size;
            &&& alpha ==> image == color
            &&& !alpha ==> {
                &&& image.size == color.size
                &&& image.square()
                &&& forall|i: int|
                    0 <= i < image.pixels@.len() ==> #[trigger] image.pixels@[i]
                        == icon::masked_pixel(
                        color.pixels@[i],
                        if masked {
                            mask->Some_0.pixels@[i]
                        } else {
                            0
                        },
                    )
            }
        }),
{
    if color.has_alpha() {
        return color;
    }
    match mask {
        Some(mask) => {
            if mask.size == color.size {
                return color.with_mask(&mask);
            }
        },
        None => {},
    }
    color.with_mask(&Image::blank(color.size))
}

/// Whether the rendering at `best` is the one to take among `sizes`: the
/// smallest that is still at least `size`, or else the largest; the first of
/// several equal ones if they are large enough, or else the last.
pub open spec fn best_rendering(sizes: Seq<usize>, size: usize, best: int) -> bool {
    &&& 0 <= best < sizes.len()
    &&& if sizes[best] >= size {
        forall|i: int|
            0 <= i < sizes.len() && #[trigger] sizes[i] >= size ==> sizes[best] < sizes[i] || (
            sizes[best] == sizes[i] && best <= i)
    } else {
        forall|i: int|
            0 <= i < sizes.len() ==> #[trigger] sizes[i] < sizes[best] || (sizes[i] == sizes[best]
                && i <= best)
    }
}

/// Which of a program's renderings to show: whichever is the smallest one
/// still at least `size` pixels, or the largest available. `None` when there
/// are none.
pub fn program_icon(sizes: &[usize], size: usize) -> (chosen: Option<usize>)
    ensures
        match chosen {
            Some(best) => best_rendering(sizes@, size, best as int),
            None => sizes@.len() == 0,
        },
{
    if sizes.len() == 0 {
        return None;
    }
    let mut best: usize = 0;
    let mut i: usize = 1;
    while i < sizes.len()
        invariant
            best < i <= sizes@.len(),
            best_rendering(sizes@.take(i as int), size, best as int),
        decreases sizes@.len() - i,
    {
        let ghost seen = sizes@.take(i as int);
        let ghost more = sizes@.take(i + 1);
        let held: usize = sizes[best];
        let next: usize = sizes[i];
        let ghost before = best;
        if held >= size {
            if next >= size && next < held {
                best = i;
            }
        } else if next >= held {
            best = i;
        }
        proof {
            assert(seen[before as int] == held);
            assert(more[i as int] == next);
            assert forall|j: int| 0 <= j < i implies more[j] == seen[j] by {}
            assert(best_rendering(more, size, best as int));
        }
        i = i + 1;
    }
    assert(sizes@.take(i as int) == sizes@);
    Some(best)
}

// ---------------------------------------------------------------------------
// The notification-area entry.
// ---------------------------------------------------------------------------

/// The units of a tooltip: as many as there is room for before the terminator,
/// then zeros.
pub open spec fn tip_of(tip: Seq<char>) -> Seq<u16> {
    Seq::new(
        TIP_UNITS as nat,
        |i: int|
            if i < TIP_UNITS - 1 && i < utf16::utf16_of(tip).len() {
                utf16::utf16_of(tip)[i]
            } else {
                0
            },
    )
}

/// The units of a tooltip.
pub fn tip_units(tip: &str) -> (units: Vec<u16>)
    ensures
        units@ == tip_of(tip@),
{
    let all = utf16::encode(tip);
    let mut units: Vec<u16> = Vec::new();
    while units.len() < TIP_UNITS
        invariant
            all@ == utf16::utf16_of(tip@),
            units@.len() <= TIP_UNITS,
            units@ == tip_of(tip@).take(units@.len() as int),
        decreases TIP_UNITS - units@.len(),
    {
        let i: usize = units.len();
        let unit: u16 = if i < TIP_UNITS - 1 && i < all.len() {
            all[i]
        } else {
            0
        };
        units.push(unit);
        assert(units@ == tip_of(tip@).take(i + 1));
    }
    assert(tip_of(tip@).take(TIP_UNITS as int) == tip_of(tip@));
    units
}

/// A notice for the shell.
#[derive(Debug, Clone, Copy, PartialEq, Eq)]
pub enum Notice {
    Add,
    Modify,
    Delete,
    SetVersion,
}

impl Notice {
    /// The number the shell knows it by.
    pub fn code(&self) -> (code: u32)
        ensures
            code == match *self {
                Notice::Add => NIM_ADD,
                Notice::Modify => NIM_MODIFY,
                Notice::Delete => NIM_DELETE,
                Notice::SetVersion => NIM_SETVERSION,
            },
    {
        match self {
            Notice::Add => NIM_ADD,
            Notice::Modify => NIM_MODIFY,
            Notice::Delete => NIM_DELETE,
            Notice::SetVersion => NIM_SETVERSION,
        }
    }
}

/// What showing an entry comes to next.
#[derive(Debug, Clone, Copy, PartialEq, Eq)]
pub enum ShowStep {
    /// Give the shell this notice and report whether it took it.
    Notify(Notice),
    /// Showing is over; whether the entry is there.
    Finished(bool),
}

/// What follows when an entry is to be shown, and whether it counts as shown
/// then.
pub open spec fn show_start(shown: bool) -> (ShowStep, bool) {
    if shown {
        (ShowStep::Notify(Notice::Delete), false)
    } else {
        (ShowStep::Notify(Notice::Add), false)
    }
}

/// What follows a notice that the shell took or not, and whether the entry
/// counts as shown then.
pub open spec fn show_next(shown: bool, notice: Notice, taken: bool) -> (ShowStep, bool) {
    match notice {
        Notice::Delete => (ShowStep::Notify(Notice::Add), shown),
        Notice::Add => if taken {
            (ShowStep::Notify(Notice::SetVersion), true)
        } else {
            (ShowStep::Notify(Notice::Modify), shown)
        },
        Notice::Modify => if taken {
            (ShowStep::Notify(Notice::SetVersion), true)
        } else {
            (ShowStep::Finished(false), shown)
        },
        Notice::SetVersion => (ShowStep::Finished(taken), shown),
    }
}

/// The notification-area entry for a window: whether the shell shows it.
#[derive(Debug, Clone, Copy, PartialEq, Eq)]
pub struct TrayIcon {
    pub shown: bool,
}

impl TrayIcon {
    /// An entry that is not shown.
    pub fn new() -> (entry: Self)
        ensures
            !entry.shown,
    {
        TrayIcon { shown: false }
    }

    /// Starts to show the entry, or to show it again after the taskbar was
    /// recreated.
    pub fn show(&mut self) -> (step: ShowStep)
        ensures
            (step, final(self).shown) == show_start(old(self).shown),
    {
        if self.shown {
            self.shown = false;
            return ShowStep::Notify(Notice::Delete);
        }
        ShowStep::Notify(Notice::Add)
    }

    /// Goes on showing the entry after a notice. An add the shell reports as
    /// failed may still have taken effect, so a failed add is followed by a
    /// modify that claims the entry if so.
    pub fn notified(&mut self, notice: Notice, taken: bool) -> (step: ShowStep)
        ensures
            (step, final(self).shown) == show_next(old(self).shown, notice, taken),
    {
        match notice {
            Notice::Delete => ShowStep::Notify(Notice::Add),
            Notice::Add => {
                if taken {
                    self.shown = true;
                    ShowStep::Notify(Notice::SetVersion)
                } else {
                    ShowStep::Notify(Notice::Modify)
                }
            },
            Notice::Modify => {
                if taken {
                    self.shown = true;
                    ShowStep::Notify(Notice::SetVersion)
                } else {
                    ShowStep::Finished(false)
                }
            },
            Notice::SetVersion => ShowStep::Finished(taken),
        }
    }

    /// The notice that a changed tooltip asks for: none where the entry is not
    /// shown.
    pub fn set_tip(&self) -> (notice: Option<Notice>)
        ensures
            notice == if self.shown {
                Some(Notice::Modify)
            } else {
                None::<Notice>
            },
    {
        if self.shown {
            Some(Notice::Modify)
        } else {
            None
        }
    }
}

// ---------------------------------------------------------------------------
// The menu.
// ---------------------------------------------------------------------------

/// The flags of a menu item.
pub fn item_flags(enabled: bool) -> (flags: u32)
    ensures
        flags == if enabled {
            MF_STRING
        } else {
            MF_GRAYED
        },
{
    if enabled {
        MF_STRING
    } else {
        MF_GRAYED
    }
}

/// The item that was chosen, if any was.
pub fn chosen_item(chosen: i32) -> (item: Option<usize>)
    ensures
        item == if chosen > 0 {
            Some(chosen as usize)
        } else {
            None::<usize>
        },
{
    if chosen > 0 {
        Some(chosen as usize)
    } else {
        None
    }
}

/// A `DisplayIcon` value is a path, possibly quoted, possibly followed by
/// a comma and an icon index.
pub fn icon_source_path<'a>(value: &'a str) -> (path: &'a str)
    ensures
        path@ == text::trimmed(launcher::icon_path_part(text::trimmed(value@))),
{
    launcher::icon_source_path(value)
}

// ---------------------------------------------------------------------------
// Laws.
// ---------------------------------------------------------------------------

/// Whatever the shell answers to a delete, an add, a modify, and a version,
/// showing an entry ends with it shown exactly if the shell took the add or
/// the modify.
pub proof fn entry_is_shown_once_the_shell_took_it(
    shown: bool,
    deleted: bool,
    added: bool,
    modified: bool,
    versioned: bool,
)
    ensures
        ({
            let (first, s0) = show_start(shown);
            let (second, s1) = if shown {
                show_next(s0, Notice::Delete, deleted)
            } else {
                (first, s0)
            };
            let (third, s2) = show_next(s1, Notice::Add, added);
            let (fourth, s3) = if added {
                (third, s2)
            } else {
                show_next(s2, Notice::Modify, modified)
            };
            &&& second == ShowStep::Notify(Notice::Add)
            &&& added ==> third == ShowStep::Notify(Notice::SetVersion)
            &&& !added ==> third == ShowStep::Notify(Notice::Modify)
            &&& if added || modified {
                &&& fourth == ShowStep::Notify(Notice::SetVersion)
                &&& show_next(s3, Notice::SetVersion, versioned) == (
                    ShowStep::Finished(versioned),
                    true,
                )
            } else {
                &&& fourth == ShowStep::Finished(false)
                &&& !s3
            }
        }),
{
}

/// A tooltip always ends with a terminator.
pub proof fn tooltips_are_terminated(tip: Seq<char>)
    ensures
        tip_of(tip).len() == TIP_UNITS,
        tip_of(tip).last() == 0,
{
}

} // verus!
