use std::time::{Duration, Instant};

use deadlocked::entities::{Inferno, Molotov, Smoke};
use deadlocked::settings::KeyMode;
use deadlocked::targeting::{sticky_within_grace, Aimbot};

#[test]
fn sticky_grace_window_respected() {
    let now = Instant::now();
    let recent = now.checked_sub(Duration::from_millis(80));
    let stale = now.checked_sub(Duration::from_millis(500));

    assert!(sticky_within_grace(recent, now, Duration::from_millis(120)));
    assert!(!sticky_within_grace(stale, now, Duration::from_millis(120)));
}

#[test]
fn no_sighting_means_no_grace() {
    let now = Instant::now();
    assert!(!sticky_within_grace(None, now, Duration::from_secs(10)));
}

#[test]
fn grace_window_boundary_and_future_sightings() {
    let now = Instant::now();
    let exact = now.checked_sub(Duration::from_millis(120));
    assert!(sticky_within_grace(exact, now, Duration::from_millis(120)));
    // a reading later than `now` counts as no time passed
    let later = Some(now + Duration::from_millis(50));
    assert!(sticky_within_grace(later, now, Duration::ZERO));
    // a longer window keeps a target that a shorter one keeps
    let seen = now.checked_sub(Duration::from_millis(30));
    assert!(sticky_within_grace(seen, now, Duration::from_millis(30)));
    assert!(sticky_within_grace(seen, now, Duration::from_millis(2000)));
}

#[test]
fn hold_mode_follows_the_key() {
    let mut aim = Aimbot::new();
    assert!(!aim.active);
    assert!(aim.hotkey_allows(KeyMode::Hold, true, true));
    assert!(!aim.active);
    assert!(!aim.hotkey_allows(KeyMode::Hold, false, false));
    assert!(!aim.active);
}

#[test]
fn toggle_mode_flips_on_fresh_presses() {
    let mut aim = Aimbot::new();
    assert!(!aim.hotkey_allows(KeyMode::Toggle, false, false));
    assert!(aim.hotkey_allows(KeyMode::Toggle, true, true));
    assert!(aim.active);
    // held without a fresh press: stays on
    assert!(aim.hotkey_allows(KeyMode::Toggle, true, false));
    // a second fresh press switches it off again
    assert!(!aim.hotkey_allows(KeyMode::Toggle, true, true));
    assert!(!aim.active);
}

#[test]
fn effect_handles_keep_their_controller() {
    assert_eq!(Inferno::new(0x1234).controller, 0x1234);
    assert_eq!(Molotov::new(7).controller, 7);
    assert_eq!(Smoke::new(u64::MAX).controller, u64::MAX);
}
