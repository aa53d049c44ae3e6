use vill_enforcer::img::{GrayImage, RgbaImage};
use vill_enforcer::locate::MatchVerdict;
use vill_enforcer::state::{Capture, Config, Interface, State};
use vill_enforcer::text::normalized;
use vill_enforcer::watcher::{apply_capture, apply_verdict, cycle_target, haystack_rect,
    needs_enumeration, search_capture};

fn blank_capture(id: u32, w: usize, h: usize) -> Capture {
    Capture {
        window_id: id,
        title: String::from("window"),
        data: RgbaImage::new(w, h, vec![0u8; 4 * w * h]),
    }
}

#[test]
fn default_config_has_no_reference() {
    let c = Config::default();
    assert_eq!(c.window_title, "Age of Empires IV ");
    assert!(c.data.is_none());
    assert_eq!(c.y_max, 0);
}

#[test]
fn config_from_good_parts_keeps_the_image() {
    let c = Config::from_parts(String::from("title"), Some((2, 3, vec![9u8; 6])), 44);
    assert_eq!(c.window_title, "title");
    assert_eq!(c.y_max, 44);
    let g = c.data.expect("image kept");
    assert_eq!((g.width, g.height), (2, 3));
    assert_eq!(g.data, vec![9u8; 6]);
}

#[test]
fn config_from_corrupt_parts_falls_back_to_default() {
    let c = Config::from_parts(String::from("title"), Some((2, 3, vec![9u8; 5])), 44);
    assert_eq!(c.window_title, "Age of Empires IV ");
    assert!(c.data.is_none());
    assert_eq!(c.y_max, 0);
}

#[test]
fn interface_walks_forward_through_the_screens() {
    let mut s = State::new(Config::default());
    assert!(matches!(s.interface, Interface::WindowSelect));
    s.on_window_found(blank_capture(7, 4, 4));
    assert!(matches!(s.interface, Interface::RegionSelect));
    assert_eq!(s.window_capture.as_ref().unwrap().window_id, 7);
    s.on_reference_chosen(GrayImage::new(2, 2, vec![0u8; 4]), 120);
    assert!(matches!(s.interface, Interface::Main));
    assert_eq!(s.config.y_max, 120);
    assert!(s.config.data.is_some());
    s.on_reset();
    assert!(matches!(s.interface, Interface::WindowSelect));
    assert!(s.config.data.is_none());
    assert_eq!(s.config.y_max, 0);
}

#[test]
fn transitions_outside_the_diagram_are_ignored() {
    let mut s = State::new(Config::default());
    // A reference cannot be chosen while still selecting a window.
    s.on_reference_chosen(GrayImage::new(2, 2, vec![0u8; 4]), 120);
    assert!(matches!(s.interface, Interface::WindowSelect));
    assert!(s.config.data.is_none());
    // A reset does nothing outside the main screen.
    s.on_reset();
    assert!(matches!(s.interface, Interface::WindowSelect));
}

#[test]
fn watch_toggle_flips_only_on_the_main_screen() {
    let mut s = State::new(Config::default());
    s.toggle_watching();
    assert!(!s.is_watching);
    s.on_window_found(blank_capture(7, 4, 4));
    s.on_reference_chosen(GrayImage::new(2, 2, vec![0u8; 4]), 120);
    s.toggle_watching();
    assert!(s.is_watching);
    s.toggle_watching();
    assert!(!s.is_watching);
}

#[test]
fn lost_window_forces_window_select_and_clears_capture() {
    let mut s = State::new(Config::default());
    s.on_window_found(blank_capture(7, 4, 4));
    s.is_watching = true;
    s.on_window_lost();
    assert!(matches!(s.interface, Interface::WindowSelect));
    assert!(s.window_capture.is_none());
    assert!(s.is_watching);
}

#[test]
fn cycle_target_names_the_recorded_window() {
    let mut s = State::new(Config::default());
    assert_eq!(cycle_target(&s), None);
    s.on_window_found(blank_capture(42, 4, 4));
    assert_eq!(cycle_target(&s), Some(42));
}

#[test]
fn paused_watcher_still_refreshes_the_capture() {
    let mut s = State::new(Config::default());
    s.on_window_found(blank_capture(7, 4, 4));
    s.is_queued = true;
    s.is_watching = false;
    let watching = apply_capture(&mut s, blank_capture(7, 8, 8));
    assert!(!watching);
    // The capture record is fresh, the verdict flag untouched.
    assert_eq!(s.window_capture.as_ref().unwrap().data.width, 8);
    assert!(s.is_queued);
}

#[test]
fn verdict_write_back_alerts_exactly_on_absence() {
    let mut s = State::new(Config::default());
    assert!(apply_verdict(&mut s, false));
    assert!(!s.is_queued);
    assert!(!apply_verdict(&mut s, true));
    assert!(s.is_queued);
}

#[test]
fn haystack_rect_is_the_lower_left_band() {
    assert_eq!(haystack_rect(400, 300, 250), Some((0, 150, 100, 100)));
    // A floor above the half-way line leaves no band.
    assert_eq!(haystack_rect(400, 300, 100), None);
    // A floor below the image leaves no band.
    assert_eq!(haystack_rect(400, 300, 301), None);
}

#[test]
fn enumeration_runs_when_captures_are_missing_or_stale() {
    let mut s = State::new(Config::default());
    // Nothing captured yet: enumerate whatever the clock says.
    assert!(needs_enumeration(&s, 0));
    s.captures = Some(Vec::new());
    s.last_capture_tick = 5000;
    // Exactly one second old: not yet stale.
    assert!(!needs_enumeration(&s, 6000));
    assert!(needs_enumeration(&s, 6001));
}

#[test]
fn search_without_reference_finds_nothing() {
    let capture = RgbaImage::new(40, 40, vec![0u8; 4 * 40 * 40]);
    let config = Config::default();
    assert_eq!(search_capture(&capture, &config), MatchVerdict::NotFound);
}

#[test]
fn search_finds_reference_in_the_band() {
    // A black capture and a black reference: the band search succeeds with
    // distance zero.
    let capture = RgbaImage::new(400, 400, vec![0u8; 4 * 400 * 400]);
    let mut config = Config::default();
    config.data = Some(GrayImage::new(10, 10, vec![0u8; 100]));
    config.y_max = 250;
    match search_capture(&capture, &config) {
        MatchVerdict::Found { distance_bits, .. } => {
            assert_eq!(f32::from_bits(distance_bits), 0.0);
        }
        MatchVerdict::NotFound => panic!("expected a match"),
    }
}

#[test]
fn search_with_bad_floor_finds_nothing() {
    let capture = RgbaImage::new(400, 400, vec![0u8; 4 * 400 * 400]);
    let mut config = Config::default();
    config.data = Some(GrayImage::new(10, 10, vec![0u8; 100]));
    config.y_max = 10;
    assert_eq!(search_capture(&capture, &config), MatchVerdict::NotFound);
}

#[test]
fn normalized_strips_separators() {
    assert_eq!(normalized("a|b:c/d\\e"), "abcde");
    assert_eq!(normalized("plain name"), "plain name");
    assert_eq!(normalized("|:/\\"), "");
    assert_eq!(normalized(""), "");
}
