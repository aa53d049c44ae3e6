//! The decisions of one watch cycle.
//!
//! The loop itself lives with the caller, which alone can capture windows,
//! sleep, and sound a tone. Each cycle: ask `cycle_target` which window to
//! re-capture (none: the cycle is a no-op); on a failed capture call
//! `State::on_window_lost`; on success record the capture with
//! `apply_capture`, and only when it reports that watching is on, run
//! `search_capture` — outside the state lock — and store the verdict with
//! `apply_verdict`, which says whether to sound the alert.

use vstd::prelude::*;
use crate::img::{crop, crop_rgba, luma_seq, to_gray, RgbaImage};
use crate::locate::{locate, subimage_positions, verdict_matches, MatchVerdict};
use crate::state::{Capture, Config, State};

verus! {

/// Whether the window-selection screen must enumerate and capture again: it
/// holds no captures yet, or the ones on record are older than a second
/// (ticks are milliseconds).
pub fn needs_enumeration(state: &State, now_tick: u64) -> (r: bool)
    ensures
        r == (state.captures is None || state.last_capture_tick + 1000 < now_tick),
{
    state.captures.is_none() || (now_tick > 1000 && state.last_capture_tick < now_tick - 1000)
}

/// The window the watcher must re-capture this cycle, if any.
pub fn cycle_target(state: &State) -> (r: Option<u32>)
    ensures
        match state.window_capture {
            Some(c) => r == Some(c.window_id),
            None => r is None,
        },
{
    match &state.window_capture {
        Some(c) => Some(c.window_id),
        None => None,
    }
}

/// Records the fresh capture and reports whether the search should run.
///
/// The capture record is refreshed whether or not watching is on — the
/// interface keeps a live preview while paused — and the match flag and
/// everything else are left untouched.
pub fn apply_capture(state: &mut State, capture: Capture) -> (watching: bool)
    ensures
        final(state).window_capture == Some(capture),
        final(state).interface == old(state).interface,
        final(state).captures == old(state).captures,
        final(state).last_capture_tick == old(state).last_capture_tick,
        final(state).config == old(state).config,
        final(state).is_watching == old(state).is_watching,
        final(state).is_queued == old(state).is_queued,
        watching == old(state).is_watching,
{
    state.window_capture = Some(capture);
    state.is_watching
}

/// Records the verdict of one search and says whether to sound the alert:
/// exactly when the reference was not found.
pub fn apply_verdict(state: &mut State, found: bool) -> (alert: bool)
    ensures
        final(state).is_queued == found,
        final(state).interface == old(state).interface,
        final(state).captures == old(state).captures,
        final(state).window_capture == old(state).window_capture,
        final(state).last_capture_tick == old(state).last_capture_tick,
        final(state).config == old(state).config,
        final(state).is_watching == old(state).is_watching,
        alert == !found,
{
    state.is_queued = found;
    !found
}

/// The search band of a capture with the given dimensions: the lower half of
/// the image, its left quarter width, down to the match floor `y_max`. No
/// band exists when the floor lies above the half-way line or below the
/// image.
pub open spec fn band_region(width: int, height: int, y_max: int) -> Option<(int, int, int, int)> {
    if height / 2 <= y_max <= height {
        Some((0, height / 2, width / 4, y_max - height / 2))
    } else {
        None
    }
}

/// The search band as `band_region` gives it, as executable arithmetic.
pub fn haystack_rect(width: usize, height: usize, y_max: usize) -> (r: Option<
    (usize, usize, usize, usize),
>)
    ensures
        match r {
            Some(b) => band_region(width as int, height as int, y_max as int) == Some(
                (b.0 as int, b.1 as int, b.2 as int, b.3 as int),
            ),
            None => band_region(width as int, height as int, y_max as int) is None,
        },
{
    let top = height / 2;
    if top <= y_max && y_max <= height {
        Some((0, top, width / 4, y_max - top))
    } else {
        None
    }
}

/// The grayscale bytes of the search band of a capture.
pub open spec fn band_gray(data: Seq<u8>, width: int, height: int, y_max: int) -> Seq<u8> {
    luma_seq(crop_rgba(data, width, 0, height / 2, width / 4, y_max - height / 2))
}

/// One search step of the watcher: crops the search band out of the capture,
/// converts it to grayscale, and looks for the reference template in it.
///
/// `NotFound` when no reference is configured, when no band can be derived
/// from the match floor, or when the template does not fit inside the band;
/// otherwise the verdict is the oracle's minimum-distance candidate over the
/// band, exactly as `locate` reports it.
pub fn search_capture(capture_img: &RgbaImage, config: &Config) -> (r: MatchVerdict)
    requires
        capture_img.wf(),
        config.wf(),
        capture_img.width <= 0xFFFF_FFFF,
        capture_img.height <= 0xFFFF_FFFF,
    ensures
        ({
            let region = band_region(
                capture_img.width as int,
                capture_img.height as int,
                config.y_max as int,
            );
            match config.data {
                None => r is NotFound,
                Some(needle) => match region {
                    None => r is NotFound,
                    Some(b) => verdict_matches(
                        r,
                        needle.width <= b.2 && needle.height <= b.3,
                        subimage_positions(
                            band_gray(
                                capture_img.data@,
                                capture_img.width as int,
                                capture_img.height as int,
                                config.y_max as int,
                            ),
                            b.2,
                            b.3,
                            needle.data@,
                            needle.width as int,
                            needle.height as int,
                        ),
                    ),
                },
            }
        }),
{
    let needle = match &config.data {
        Some(g) => g,
        None => {
            return MatchVerdict::NotFound;
        },
    };
    match haystack_rect(capture_img.width, capture_img.height, config.y_max) {
        None => MatchVerdict::NotFound,
        Some((x, y, w, h)) => {
            let band = crop(capture_img, x, y, w, h);
            let hay = to_gray(&band);
            locate(&hay, needle)
        },
    }
}

} // verus!
