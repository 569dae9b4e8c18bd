//! What the clock face decides from frame to frame: where the colons of the
//! rendered time stand, and how the flash of the reactive animation starts
//! and fades.

use vstd::prelude::*;

use crate::font::Font;
use crate::style::AnimationSpeed;
use crate::text::chars_of;

verus! {

/// The column at which character `k` of `text` begins: the widths of the
/// characters before it, added up.
pub open spec fn column_of(font: &Font, text: Seq<char>, k: int) -> int
    decreases k,
{
    if k <= 0 {
        0
    } else {
        column_of(font, text, k - 1) + font.spec_char_width(text[k - 1])
    }
}

/// Whether column `p` of the rendered `text` belongs to a colon.
pub open spec fn is_colon_column(font: &Font, text: Seq<char>, p: int) -> bool {
    exists|k: int|
        0 <= k < text.len() && text[k] == ':' && column_of(font, text, k) <= p < #[trigger] column_of(
            font,
            text,
            k + 1,
        )
}

/// The columns of a character begin where those of the one before end, so
/// they move to the right along the text.
pub proof fn lemma_column_of_monotonic(font: &Font, text: Seq<char>, i: int, j: int)
    requires
        0 <= i <= j,
    ensures
        0 <= column_of(font, text, i) <= column_of(font, text, j),
    decreases j,
{
    if i < j {
        lemma_column_of_monotonic(font, text, i, j - 1);
    } else if i > 0 {
        lemma_column_of_monotonic(font, text, i - 1, i - 1);
        lemma_column_of_monotonic(font, text, 0, i - 1);
    }
}

/// For each of the first `width` columns of the rendered `text`, whether
/// it belongs to a colon.
pub fn colon_mask(font: &Font, text: &str, width: usize) -> (mask: Vec<bool>)
    ensures
        mask.len() == width,
        forall|p: int| 0 <= p < width ==> #[trigger] mask[p] == is_colon_column(font, text@, p),
{
    let chars = chars_of(text);
    let mut mask: Vec<bool> = Vec::new();
    let mut p: usize = 0;
    while p < width
        invariant
            p <= width,
            mask.len() == p,
            forall|q: int| 0 <= q < p ==> !(#[trigger] mask[q]),
        decreases width - p,
    {
        mask.push(false);
        p += 1;
    }
    // `start` is the column of character `k`, or `width` where that column
    // lies beyond the mask
    let mut start: usize = 0;
    let mut k: usize = 0;
    while k < chars.len()
        invariant
            k <= chars.len(),
            chars@ == text@,
            mask.len() == width,
            start <= width,
            start == if column_of(font, text@, k as int) < width {
                column_of(font, text@, k as int)
            } else {
                width as int
            },
            forall|q: int|
                0 <= q < width ==> #[trigger] mask[q] == exists|j: int|
                    0 <= j < k && text@[j] == ':' && column_of(font, text@, j) <= q
                        < #[trigger] column_of(font, text@, j + 1),
        decreases chars.len() - k,
    {
        let ch = chars[k];
        let w = font.char_width(ch);
        let end: usize = if w < width - start {
            start + w
        } else {
            width
        };
        proof {
            lemma_column_of_monotonic(font, text@, 0, k as int);
            assert(column_of(font, text@, k + 1) == column_of(font, text@, k as int)
                + font.spec_char_width(text@[k as int]));
        }
        let ghost before = mask@;
        if ch == ':' {
            let mut q: usize = start;
            while q < end
                invariant
                    start <= q <= end <= width,
                    mask.len() == width,
                    forall|i: int| 0 <= i < start ==> #[trigger] mask[i] == before[i],
                    forall|i: int| start <= i < q ==> #[trigger] mask[i],
                    forall|i: int| q <= i < width ==> #[trigger] mask[i] == before[i],
                decreases end - q,
            {
                mask.set(q, true);
                q += 1;
            }
        }
        proof {
            assert forall|q: int| 0 <= q < width implies #[trigger] mask[q] == exists|j: int|
                0 <= j < k + 1 && text@[j] == ':' && column_of(font, text@, j) <= q
                    < #[trigger] column_of(font, text@, j + 1) by {
                let here = text@[k as int] == ':' && column_of(font, text@, k as int) <= q
                    < column_of(font, text@, k + 1);
                let earlier = exists|j: int|
                    0 <= j < k && text@[j] == ':' && column_of(font, text@, j) <= q
                        < #[trigger] column_of(font, text@, j + 1);
                assert(before[q] == earlier);
                assert(mask[q] == (before[q] || here));
                if earlier {
                    let j = choose|j: int|
                        0 <= j < k && text@[j] == ':' && column_of(font, text@, j) <= q
                            < #[trigger] column_of(font, text@, j + 1);
                    assert(0 <= j < k + 1 && text@[j] == ':' && column_of(font, text@, j) <= q
                        < column_of(font, text@, j + 1));
                }
                if here {
                    assert(0 <= k < k + 1 && text@[k as int] == ':' && column_of(
                        font,
                        text@,
                        k as int,
                    ) <= q < column_of(font, text@, k + 1));
                }
            }
        }
        start = end;
        k += 1;
    }
    mask
}

/// The flash of the reactive animation: how bright it is, and the time of
/// day at which the clock last looked.
#[derive(Debug, Clone, Copy, PartialEq, Eq, Structural)]
pub struct FlashState {
    /// Flash intensity, from 0 to 1, in millionths.
    pub intensity: u32,
    /// Whether a flash is fading.
    pub active: bool,
    /// Last recorded hour.
    pub last_hour: u32,
    /// Last recorded minute.
    pub last_minute: u32,
    /// Last recorded second.
    pub last_second: u32,
}

/// The intensity below which a flash is over, in millionths.
pub const FLASH_FLOOR: u32 = 10_000;

/// The intensity with which a flash starts, if the time of day has changed:
/// full for a new hour, 7/10 for a new minute, 3/10 for a new second.
pub open spec fn flash_trigger(state: FlashState, hour: u32, minute: u32, second: u32) -> Option<
    u32,
> {
    if hour != state.last_hour {
        Some(1_000_000u32)
    } else if minute != state.last_minute {
        Some(700_000u32)
    } else if second != state.last_second {
        Some(300_000u32)
    } else {
        None
    }
}

/// An intensity after `elapsed_ms` of a decay that takes `decay_ms`: the
/// part of the decay time that is left, times the intensity.
pub open spec fn decayed(intensity: u32, elapsed_ms: u64, decay_ms: u64) -> int {
    let spent = if elapsed_ms < decay_ms {
        elapsed_ms
    } else {
        decay_ms
    };
    (intensity * (decay_ms - spent)) / (decay_ms as int)
}

/// The state of the flash after a frame at the given time of day,
/// `since_start_ms` after the start of the flash that is fading.
///
/// A change of the hour, else of the minute, else of the second starts a
/// flash, and the clock takes note of the new time, down from the unit that
/// changed. A flash that has just started has not faded yet; one that was
/// fading is dimmed by the part of the decay time that has passed, and is
/// over once it is dimmer than `FLASH_FLOOR`.
pub open spec fn spec_update_flash(
    state: FlashState,
    hour: u32,
    minute: u32,
    second: u32,
    since_start_ms: u64,
    speed: AnimationSpeed,
) -> FlashState {
    let trigger = flash_trigger(state, hour, minute, second);
    let started = trigger is Some;
    let intensity = if started {
        trigger->0
    } else {
        state.intensity
    };
    let elapsed = if started {
        0
    } else {
        since_start_ms
    };
    let dimmed = decayed(intensity, elapsed, speed.spec_flash_decay_ms());
    let fading = started || state.active;
    FlashState {
        intensity: if !fading {
            intensity
        } else if dimmed < FLASH_FLOOR {
            0
        } else {
            dimmed as u32
        },
        active: fading && dimmed >= FLASH_FLOOR,
        last_hour: hour,
        last_minute: if hour != state.last_hour || minute != state.last_minute {
            minute
        } else {
            state.last_minute
        },
        last_second: if started {
            second
        } else {
            state.last_second
        },
    }
}

impl FlashState {
    /// The state without a flash, at the given time of day.
    pub fn new(hour: u32, minute: u32, second: u32) -> (state: Self)
        ensures
            state == (FlashState {
                intensity: 0,
                active: false,
                last_hour: hour,
                last_minute: minute,
                last_second: second,
            }),
    {
        FlashState {
            intensity: 0,
            active: false,
            last_hour: hour,
            last_minute: minute,
            last_second: second,
        }
    }

    /// Update flash intensity for reactive animation. `since_start_ms` is
    /// the time since the start of the flash that is fading. The result says
    /// whether a new flash has started, from which that time is to be
    /// counted anew.
    pub fn update(
        &mut self,
        hour: u32,
        minute: u32,
        second: u32,
        since_start_ms: u64,
        speed: AnimationSpeed,
    ) -> (started: bool)
        ensures
            started == (flash_trigger(*old(self), hour, minute, second) is Some),
            *final(self) == spec_update_flash(
                *old(self),
                hour,
                minute,
                second,
                since_start_ms,
                speed,
            ),
            final(self).intensity <= if started {
                1_000_000
            } else {
                old(self).intensity
            },
    {
        let mut started = false;
        if hour != self.last_hour {
            self.intensity = 1_000_000;
            self.last_hour = hour;
            self.last_minute = minute;
            self.last_second = second;
            started = true;
        } else if minute != self.last_minute {
            self.intensity = 700_000;
            self.last_minute = minute;
            self.last_second = second;
            started = true;
        } else if second != self.last_second {
            self.intensity = 300_000;
            self.last_second = second;
            started = true;
        }
        if started {
            self.active = true;
        }
        if self.active {
            let decay_ms = speed.flash_decay_ms();
            let elapsed: u64 = if started {
                0
            } else {
                since_start_ms
            };
            let spent: u64 = if elapsed < decay_ms {
                elapsed
            } else {
                decay_ms
            };
            let left: u64 = decay_ms - spent;
            assert(self.intensity * left <= self.intensity * decay_ms) by (nonlinear_arith)
                requires
                    left <= decay_ms,
            ;
            assert(self.intensity * decay_ms <= 0xFFFF_FFFF * 800) by (nonlinear_arith)
                requires
                    self.intensity <= 0xFFFF_FFFF,
                    decay_ms <= 800,
            ;
            let dimmed: u64 = (self.intensity as u64 * left) / decay_ms;
            assert(dimmed <= self.intensity) by (nonlinear_arith)
                requires
                    dimmed == (self.intensity * left) / (decay_ms as int),
                    self.intensity * left <= self.intensity * decay_ms,
                    decay_ms > 0,
            ;
            if dimmed < FLASH_FLOOR as u64 {
                self.intensity = 0;
                self.active = false;
            } else {
                self.intensity = dimmed as u32;
            }
        }
        started
    }
}

} // verus!
