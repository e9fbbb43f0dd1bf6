use deadlocked::launch::{display_backend, launch_options, uses_x11, DisplayBackend, LaunchOptions};
use deadlocked::palette::Colors;
use deadlocked::profiles::{is_profile_file, profile_file_name};
use deadlocked::session::{GameStatus, StatusReporter};
use deadlocked::settings::{DrawMode, GrenadeModifiers};

#[test]
fn game_status_is_reported_once_per_change() {
    let mut reporter = StatusReporter::new();
    assert_eq!(reporter.observe(GameStatus::NotStarted), None);
    assert_eq!(reporter.observe(GameStatus::Working), Some(GameStatus::Working));
    assert_eq!(reporter.observe(GameStatus::Working), None);
    assert_eq!(reporter.observe(GameStatus::NotStarted), Some(GameStatus::NotStarted));
    assert_eq!(reporter.reported, GameStatus::NotStarted);
}

#[test]
fn profile_names_get_the_toml_extension() {
    assert_eq!(profile_file_name(""), None);
    assert_eq!(profile_file_name("legit"), Some("legit.toml".to_string()));
    assert_eq!(profile_file_name("rage.toml"), Some("rage.toml".to_string()));
    assert_eq!(profile_file_name("ä.tom"), Some("ä.tom.toml".to_string()));
    assert!(is_profile_file("deadlocked.toml"));
    assert!(!is_profile_file("grenades.json"));
    assert!(!is_profile_file("toml"));
    assert!(is_profile_file(".toml"));
}

#[test]
fn settings_values() {
    assert_eq!(GrenadeModifiers::default(), GrenadeModifiers { jump: false, duck: false, run: false });
    assert_ne!(DrawMode::Hidden, DrawMode::Color);
}

#[test]
fn palette_holds_the_interface_colours() {
    assert_eq!(Colors::BACKDROP, [10, 10, 10]);
    assert_eq!(Colors::ACCENT, Colors::BLUE);
    assert_eq!(Colors::ACCENT_COLORS.len(), 7);
    assert_eq!(Colors::ACCENT_COLORS[0], ("Electric Blue", [0, 169, 224]));
    assert_eq!(Colors::ACCENT_COLORS[4], ("Sage", [132, 169, 140]));
}

#[test]
fn switches_are_read_from_the_arguments() {
    let args: Vec<String> = ["deadlocked", "--x11", "--local-s2v", "--force-reparse-later"]
        .iter()
        .map(|s| s.to_string())
        .collect();
    let options = launch_options(&args);
    assert!(options.force_x11);
    assert!(options.use_system_binary);
    assert!(!options.force_reparse);
    assert!(!options.force_wayland);
    let none = launch_options(&vec!["deadlocked".to_string()]);
    assert_eq!(
        none,
        LaunchOptions { force_reparse: false, use_system_binary: false, force_x11: false, force_wayland: false }
    );
}

#[test]
fn display_backend_prefers_x11_when_both_servers_run() {
    assert_eq!(display_backend(false, false, true, true), DisplayBackend::X11Preferred);
    assert_eq!(display_backend(false, true, true, true), DisplayBackend::AsFound);
    assert_eq!(display_backend(true, true, true, false), DisplayBackend::X11Forced);
    assert_eq!(display_backend(false, false, true, false), DisplayBackend::NativeWayland);
    assert_eq!(display_backend(false, false, false, true), DisplayBackend::AsFound);
    assert!(uses_x11(DisplayBackend::X11Preferred));
    assert!(uses_x11(DisplayBackend::X11Forced));
    assert!(!uses_x11(DisplayBackend::NativeWayland));
    assert!(!uses_x11(DisplayBackend::AsFound));
}
