//! The shared session state and its interface state machine.
//!
//! One `State` exists per process, shared by the interactive thread and the
//! watcher under one lock (the lock lives with the caller; everything here is
//! a pure transition on the record). The interface moves forward
//! `WindowSelect -> RegionSelect -> Main`, back to `WindowSelect` on an
//! operator reset, and back to `WindowSelect` from anywhere when the target
//! window disappears; any other transition is ignored.

use vstd::prelude::*;
use vstd::string::StringExecFns;
use crate::img::{GrayImage, RgbaImage};

verus! {

/// Which screen of the interface is active.
#[derive(Clone, Copy, PartialEq, Eq, Structural, Debug)]
pub enum Interface {
    WindowSelect,
    RegionSelect,
    Main,
}

/// The window title the watcher looks for when none was configured.
pub open spec fn default_window_title() -> Seq<char> {
    "Age of Empires IV "@
}

/// Operator configuration: the target window title, the chosen reference
/// image (absent until selection), and the match floor `y_max` — the vertical
/// pixel bound below which the watch search band ends.
#[derive(Debug)]
pub struct Config {
    pub window_title: String,
    pub data: Option<GrayImage>,
    pub y_max: usize,
}

impl Config {
    /// The reference image, when present, is a consistent buffer.
    pub open spec fn wf(&self) -> bool {
        match self.data {
            Some(g) => g.wf(),
            None => true,
        }
    }
}

impl Default for Config {
    /// The configuration before anything was persisted: the default window
    /// title, no reference image, a zero match floor.
    fn default() -> (c: Config)
        ensures
            c.window_title@ == default_window_title(),
            c.data is None,
            c.y_max == 0,
            c.wf(),
    {
        Config { window_title: String::from_str("Age of Empires IV "), data: None, y_max: 0 }
    }
}

impl Config {
    /// Rebuilds a configuration from its persisted parts: the title, the
    /// reference image as (width, height, bytes), and the match floor. A
    /// payload whose byte count does not match its dimensions is corrupt: the
    /// whole configuration falls back to the default.
    pub fn from_parts(
        window_title: String,
        data: Option<(usize, usize, Vec<u8>)>,
        y_max: usize,
    ) -> (c: Config)
        ensures
            c.wf(),
            match data {
                None => c.window_title == window_title && c.data is None && c.y_max == y_max,
                Some(t) => if t.2@.len() == t.0 * t.1 {
                    c.window_title == window_title && c.y_max == y_max && match c.data {
                        Some(g) => g.width == t.0 && g.height == t.1 && g.data@ == t.2@,
                        None => false,
                    }
                } else {
                    c.window_title@ == default_window_title() && c.data is None && c.y_max == 0
                },
            },
    {
        match data {
            None => Config { window_title, data: None, y_max },
            Some((w, h, bytes)) => {
                if w != 0 && bytes.len() / w == h && bytes.len() % w == 0 {
                    proof {
                        vstd::arithmetic::div_mod::lemma_fundamental_div_mod(
                            bytes@.len() as int,
                            w as int,
                        );
                    }
                    Config { window_title, data: Some(GrayImage::new(w, h, bytes)), y_max }
                } else if w == 0 && bytes.len() == 0 {
                    proof {
                        assert(0 * (h as int) == 0) by (nonlinear_arith);
                    }
                    Config { window_title, data: Some(GrayImage::new(w, h, bytes)), y_max }
                } else {
                    proof {
                        if bytes@.len() == w * h {
                            if w != 0 {
                                vstd::arithmetic::div_mod::lemma_fundamental_div_mod_converse(
                                    bytes@.len() as int,
                                    w as int,
                                    h as int,
                                    0,
                                );
                            } else {
                                assert(0 * (h as int) == 0) by (nonlinear_arith);
                            }
                        }
                    }
                    Config::default()
                }
            },
        }
    }
}

/// One captured window: its stable identifier, its title, and its pixels.
#[derive(Debug)]
pub struct Capture {
    pub window_id: u32,
    pub title: String,
    pub data: RgbaImage,
}

/// The first capture whose window title is the one configured, if any: the
/// window-selection screen advances on its own when this finds the target.
pub fn find_by_title(captures: &Vec<Capture>, title: &String) -> (r: Option<usize>)
    ensures
        match r {
            Some(i) => i < captures@.len() && captures@[i as int].title@ == title@ && forall|j: int|
                0 <= j < i ==> (#[trigger] captures@[j]).title@ != title@,
            None => forall|j: int|
                0 <= j < captures@.len() ==> (#[trigger] captures@[j]).title@ != title@,
        },
{
    let mut i: usize = 0;
    while i < captures.len()
        invariant
            i <= captures.len(),
            forall|j: int| 0 <= j < i ==> (#[trigger] captures@[j]).title@ != title@,
        decreases captures.len() - i,
    {
        if captures[i].title == *title {
            return Some(i);
        }
        i = i + 1;
    }
    None
}

/// The record shared between the interactive thread and the watcher: the
/// active interface screen, the most recent captures, the configuration with
/// the reference template, the watch flag, and the verdict of the last search.
#[derive(Debug)]
pub struct State {
    pub interface: Interface,
    pub captures: Option<Vec<Capture>>,
    pub window_capture: Option<Capture>,
    pub last_capture_tick: u64,
    pub config: Config,
    pub is_watching: bool,
    pub is_queued: bool,
}

impl State {
    /// The session as the process starts: selecting a window, nothing
    /// captured, not watching.
    pub fn new(config: Config) -> (s: State)
        ensures
            s.interface is WindowSelect,
            s.captures is None,
            s.window_capture is None,
            s.last_capture_tick == 0,
            s.config == config,
            !s.is_watching,
            !s.is_queued,
    {
        State {
            interface: Interface::WindowSelect,
            captures: None,
            window_capture: None,
            last_capture_tick: 0,
            config,
            is_watching: false,
            is_queued: false,
        }
    }

    /// The target window was found while selecting one: record its capture
    /// and move to region selection. In any other screen nothing changes.
    pub fn on_window_found(&mut self, capture: Capture)
        ensures
            old(self).interface is WindowSelect ==> final(self).interface is RegionSelect
                && final(self).window_capture == Some(capture),
            !(old(self).interface is WindowSelect) ==> final(self).interface == old(self).interface
                && final(self).window_capture == old(self).window_capture,
            final(self).captures == old(self).captures,
            final(self).last_capture_tick == old(self).last_capture_tick,
            final(self).config == old(self).config,
            final(self).is_watching == old(self).is_watching,
            final(self).is_queued == old(self).is_queued,
    {
        match self.interface {
            Interface::WindowSelect => {
                self.window_capture = Some(capture);
                self.interface = Interface::RegionSelect;
            },
            _ => {},
        }
    }

    /// The operator chose the reference image while selecting a region:
    /// store it with its match floor and move to the main screen. In any
    /// other screen nothing changes.
    pub fn on_reference_chosen(&mut self, data: GrayImage, y_max: usize)
        ensures
            old(self).interface is RegionSelect ==> final(self).interface is Main
                && final(self).config.data == Some(data) && final(self).config.y_max == y_max
                && final(self).config.window_title == old(self).config.window_title,
            !(old(self).interface is RegionSelect) ==> final(self).interface == old(self).interface
                && final(self).config == old(self).config,
            final(self).captures == old(self).captures,
            final(self).window_capture == old(self).window_capture,
            final(self).last_capture_tick == old(self).last_capture_tick,
            final(self).is_watching == old(self).is_watching,
            final(self).is_queued == old(self).is_queued,
    {
        match self.interface {
            Interface::RegionSelect => {
                self.config.data = Some(data);
                self.config.y_max = y_max;
                self.interface = Interface::Main;
            },
            _ => {},
        }
    }

    /// The operator reset the session from the main screen: the reference is
    /// cleared and window selection starts over. In any other screen nothing
    /// changes.
    pub fn on_reset(&mut self)
        ensures
            old(self).interface is Main ==> final(self).interface is WindowSelect
                && final(self).config.data is None && final(self).config.y_max == 0
                && final(self).config.window_title == old(self).config.window_title,
            !(old(self).interface is Main) ==> final(self).interface == old(self).interface
                && final(self).config == old(self).config,
            final(self).captures == old(self).captures,
            final(self).window_capture == old(self).window_capture,
            final(self).last_capture_tick == old(self).last_capture_tick,
            final(self).is_watching == old(self).is_watching,
            final(self).is_queued == old(self).is_queued,
    {
        match self.interface {
            Interface::Main => {
                self.config.data = None;
                self.config.y_max = 0;
                self.interface = Interface::WindowSelect;
            },
            _ => {},
        }
    }

    /// The operator started or stopped the watch from the main screen: only
    /// the watch flag flips. In any other screen nothing changes.
    pub fn toggle_watching(&mut self)
        ensures
            old(self).interface is Main ==> final(self).is_watching == !old(self).is_watching,
            !(old(self).interface is Main) ==> final(self).is_watching == old(self).is_watching,
            final(self).interface == old(self).interface,
            final(self).captures == old(self).captures,
            final(self).window_capture == old(self).window_capture,
            final(self).last_capture_tick == old(self).last_capture_tick,
            final(self).config == old(self).config,
            final(self).is_queued == old(self).is_queued,
    {
        match self.interface {
            Interface::Main => {
                self.is_watching = !self.is_watching;
            },
            _ => {},
        }
    }

    /// The target window disappeared: the recorded capture is dropped and the
    /// interface forced back to window selection, from any screen.
    pub fn on_window_lost(&mut self)
        ensures
            final(self).interface is WindowSelect,
            final(self).window_capture is None,
            final(self).captures == old(self).captures,
            final(self).last_capture_tick == old(self).last_capture_tick,
            final(self).config == old(self).config,
            final(self).is_watching == old(self).is_watching,
            final(self).is_queued == old(self).is_queued,
    {
        self.window_capture = None;
        self.interface = Interface::WindowSelect;
    }
}

} // verus!
