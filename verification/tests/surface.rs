use synth_core::surface::{AppState, Keyboard};

#[test]
fn keyboard_tracks_pressed_keys() {
    let mut k = Keyboard::new();
    assert!(!k.is_pressed(60));
    k.add_key(60);
    k.add_key(64);
    assert!(k.is_pressed(60));
    assert!(k.is_pressed(64));
    assert!(!k.is_pressed(67));
}

#[test]
fn keyboard_repress_is_idempotent() {
    let mut k = Keyboard::new();
    k.add_key(60);
    k.add_key(60);
    k.remove_key(60);
    assert!(!k.is_pressed(60));
}

#[test]
fn keyboard_release_of_unpressed_key_is_noop() {
    let mut k = Keyboard::new();
    k.add_key(72);
    k.remove_key(60);
    assert!(k.is_pressed(72));
}

#[test]
fn app_state_is_a_plain_selector() {
    let mut s = AppState::StartScreen;
    assert_eq!(s, AppState::StartScreen);
    s = AppState::MainApp;
    assert_ne!(s, AppState::Diagnostics);
    assert_eq!(s, AppState::MainApp);
    let t = s;
    assert_eq!(t, AppState::MainApp);
    assert_ne!(AppState::DoomMode, AppState::Diagnostics);
}
