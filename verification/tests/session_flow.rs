use rdct::app::{ActionAfterExit, App, AppState};
use rdct::session::{Key, KeyOutcome};
use rdct::OsDistribution;

fn type_chars(app: &mut App, text: &str) {
    for c in text.chars() {
        let out = app.handle_key(Key::Char(c));
        assert!(matches!(out, KeyOutcome::Continue));
    }
}

#[test]
fn quit_ends_the_session_from_any_state() {
    let mut app = App::new(OsDistribution::Unknown);
    assert!(matches!(
        app.handle_key(Key::Char('q')),
        KeyOutcome::Done(ActionAfterExit::Quit)
    ));

    let mut app = App::new(OsDistribution::Unknown);
    app.handle_key(Key::Char('i'));
    assert_eq!(app.state, AppState::Finished);
    assert!(matches!(
        app.handle_key(Key::Char('q')),
        KeyOutcome::Done(ActionAfterExit::Quit)
    ));
}

#[test]
fn install_captures_the_reboot_flag() {
    let mut app = App::new(OsDistribution::Unknown);
    app.handle_key(Key::Char('i'));
    assert_eq!(app.state, AppState::Finished);
    assert!(!app.reboot_requested);

    let mut app = App::new(OsDistribution::Unknown);
    app.handle_key(Key::Char('r'));
    assert_eq!(app.state, AppState::Finished);
    assert!(app.reboot_requested);
}

#[test]
fn run_returns_the_script_for_the_captured_flag() {
    let mut app = App::new(OsDistribution::Unknown);
    app.handle_key(Key::Char('r')); // reviewing, reboot = true
    let preview = app.generate_commands(true);
    match app.handle_key(Key::Char('r')) {
        KeyOutcome::Done(ActionAfterExit::RunScript(script)) => {
            assert_eq!(script, preview);
            assert!(script.ends_with("sudo reboot\n"));
        },
        _ => panic!("expected a run outcome"),
    }
}

#[test]
fn reviewing_back_returns_to_browsing() {
    let mut app = App::new(OsDistribution::Unknown);
    app.handle_key(Key::Char('i'));
    assert_eq!(app.state, AppState::Finished);
    app.handle_key(Key::Esc);
    assert_eq!(app.state, AppState::Running);

    app.handle_key(Key::Char('i'));
    app.handle_key(Key::Backspace);
    assert_eq!(app.state, AppState::Running);
}

#[test]
fn browsing_keys_drive_the_navigator() {
    let mut app = App::new(OsDistribution::Unknown);
    app.handle_key(Key::Down);
    assert_eq!(app.selected_index, 1);
    app.handle_key(Key::Up);
    assert_eq!(app.selected_index, 0);
    app.handle_key(Key::Enter);
    assert_eq!(app.nav_path.len(), 2);
    app.handle_key(Key::Left);
    assert_eq!(app.nav_path.len(), 1);
}

/// Entering Saving, typing "out.sh" and confirming hands out exactly the
/// content that the Reviewing preview showed at that moment.
#[test]
fn saved_content_byte_matches_the_preview() {
    let mut app = App::new(OsDistribution::Unknown);
    // Select the KVM item so that the script has a body.
    for _ in 0..6 {
        app.handle_key(Key::Down);
    }
    app.handle_key(Key::Enter);
    app.handle_key(Key::Char('i'));
    assert_eq!(app.state, AppState::Finished);
    let preview = app.generate_commands(app.reboot_requested);

    app.handle_key(Key::Char('s'));
    assert_eq!(app.state, AppState::Saving);
    type_chars(&mut app, "out.sh");
    assert_eq!(app.filename_input, "out.sh");

    match app.handle_key(Key::Enter) {
        KeyOutcome::SaveRequest { filename, content } => {
            assert_eq!(filename, "out.sh");
            assert_eq!(content, preview);
        },
        _ => panic!("expected a save request"),
    }
    assert_eq!(app.state, AppState::Finished);
    assert_eq!(app.filename_input, "");

    app.note_save_result("out.sh", true, "");
    assert_eq!(app.save_status_message, Some("Saved to out.sh".to_string()));
}

#[test]
fn failed_save_surfaces_an_error_status() {
    let mut app = App::new(OsDistribution::Unknown);
    app.note_save_result("/nowhere/x.sh", false, "permission denied");
    assert_eq!(app.save_status_message, Some("Error: permission denied".to_string()));
}

#[test]
fn filename_editing_appends_and_removes_characters() {
    let mut app = App::new(OsDistribution::Unknown);
    app.handle_key(Key::Char('i'));
    app.handle_key(Key::Char('s'));
    assert_eq!(app.state, AppState::Saving);

    type_chars(&mut app, "ab");
    assert_eq!(app.filename_input, "ab");
    app.handle_key(Key::Backspace);
    assert_eq!(app.filename_input, "a");
    app.handle_key(Key::Backspace);
    app.handle_key(Key::Backspace);
    assert_eq!(app.filename_input, "");

    // In Saving, 'q' is a literal character, not quit.
    app.handle_key(Key::Char('q'));
    assert_eq!(app.filename_input, "q");
    assert_eq!(app.state, AppState::Saving);
}

#[test]
fn cancel_clears_the_buffer_and_returns_to_reviewing() {
    let mut app = App::new(OsDistribution::Unknown);
    app.handle_key(Key::Char('i'));
    app.note_save_result("x", true, "");
    app.handle_key(Key::Char('s'));
    // Entering Saving starts from a clean slate.
    assert_eq!(app.save_status_message, None);
    assert_eq!(app.filename_input, "");
    type_chars(&mut app, "draft.sh");

    app.handle_key(Key::Esc);
    assert_eq!(app.state, AppState::Finished);
    assert_eq!(app.filename_input, "");
    assert_eq!(app.save_status_message, None);
}

#[test]
fn unknown_keys_are_a_no_op_in_every_state() {
    let mut app = App::new(OsDistribution::Unknown);
    assert!(matches!(app.handle_key(Key::Other), KeyOutcome::Continue));
    assert_eq!(app.state, AppState::Running);
    app.handle_key(Key::Char('i'));
    assert!(matches!(app.handle_key(Key::Other), KeyOutcome::Continue));
    assert_eq!(app.state, AppState::Finished);
    app.handle_key(Key::Char('s'));
    assert!(matches!(app.handle_key(Key::Other), KeyOutcome::Continue));
    assert_eq!(app.state, AppState::Saving);
}
