use std::time::{Duration, Instant};

use deadlocked::settings::SoundType;
use deadlocked::sounds::{PlayerSound, SoundLog};

fn player(steam_id: u64, sound: Option<SoundType>) -> PlayerSound {
    PlayerSound { steam_id, sound }
}

#[test]
fn a_new_log_has_heard_nobody() {
    let log = SoundLog::new();
    assert!(log.heard(7).is_none());
}

#[test]
fn sounds_of_the_frame_are_recorded_at_its_reading() {
    let now = Instant::now();
    let mut log = SoundLog::new();
    let players = [
        player(1, Some(SoundType::Footstep)),
        player(2, None),
        player(3, Some(SoundType::Gunshot)),
    ];
    log.update_player_sounds_at(&players, now, Duration::from_secs(2));
    assert_eq!(log.heard(1), Some((now, SoundType::Footstep)));
    assert_eq!(log.heard(2), None);
    assert_eq!(log.heard(3), Some((now, SoundType::Gunshot)));
}

#[test]
fn the_latest_sound_of_a_player_wins() {
    let now = Instant::now();
    let mut log = SoundLog::new();
    let players = [
        player(4, Some(SoundType::Footstep)),
        player(4, Some(SoundType::Weapon)),
        player(4, None),
    ];
    log.update_player_sounds_at(&players, now, Duration::from_secs(2));
    assert_eq!(log.heard(4), Some((now, SoundType::Weapon)));
}

#[test]
fn old_sounds_are_forgotten_and_recent_ones_kept() {
    let now = Instant::now() + Duration::from_secs(10);
    let long_ago = now - Duration::from_secs(5);
    let lately = now - Duration::from_secs(1);
    let keep_for = Duration::from_secs(2);
    let mut log = SoundLog::new();
    log.update_player_sounds_at(&[player(2, Some(SoundType::Gunshot))], lately, keep_for);
    // a reading before a recorded sound counts as no time passed
    log.update_player_sounds_at(&[player(1, Some(SoundType::Footstep))], long_ago, keep_for);
    assert_eq!(log.heard(2), Some((lately, SoundType::Gunshot)));
    assert_eq!(log.heard(1), Some((long_ago, SoundType::Footstep)));
    log.update_player_sounds_at(&[], now, keep_for);
    assert_eq!(log.heard(1), None);
    assert_eq!(log.heard(2), Some((lately, SoundType::Gunshot)));
}

#[test]
fn a_sound_exactly_at_the_limit_is_forgotten() {
    let now = Instant::now() + Duration::from_secs(10);
    let keep_for = Duration::from_secs(2);
    let mut log = SoundLog::new();
    log.update_player_sounds_at(&[player(9, Some(SoundType::Weapon))], now - keep_for, keep_for);
    log.update_player_sounds_at(&[], now, keep_for);
    assert_eq!(log.heard(9), None);
}

#[test]
fn a_zero_window_keeps_nothing() {
    let now = Instant::now();
    let mut log = SoundLog::new();
    log.update_player_sounds_at(&[player(5, Some(SoundType::Footstep))], now, Duration::ZERO);
    assert_eq!(log.heard(5), None);
}

#[test]
fn updating_with_the_clock_records_fresh_sounds() {
    let before = Instant::now();
    let mut log = SoundLog::new();
    log.update_player_sounds(&[player(6, Some(SoundType::Gunshot))], Duration::from_secs(60));
    let (heard_at, sound) = log.heard(6).expect("sound recorded");
    assert!(heard_at >= before);
    assert_eq!(sound, SoundType::Gunshot);
}
