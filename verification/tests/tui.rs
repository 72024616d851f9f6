use yaru::tui::{handle_key_event, App, KeyInput, KeyPress};

fn press(c: char, control: bool) -> KeyPress {
    KeyPress { code: KeyInput::Char(c), control }
}

#[test]
fn test_app_initial_state() {
    let app = App::new();
    assert!(!app.should_quit());
}

#[test]
fn test_app_quit() {
    let mut app = App::new();
    app.quit();
    assert!(app.should_quit());
}

#[test]
fn test_handle_q_key_quits() {
    let mut app = App::new();
    handle_key_event(&mut app, press('q', false));
    assert!(app.should_quit());
}

#[test]
fn test_handle_uppercase_q_quits() {
    let mut app = App::new();
    handle_key_event(&mut app, press('Q', false));
    assert!(app.should_quit());
}

#[test]
fn test_handle_ctrl_c_quits() {
    let mut app = App::new();
    handle_key_event(&mut app, press('c', true));
    assert!(app.should_quit());
}

#[test]
fn test_handle_other_key_does_not_quit() {
    let mut app = App::new();
    handle_key_event(&mut app, press('a', false));
    assert!(!app.should_quit());
}

#[test]
fn plain_c_and_other_keys_do_not_quit() {
    let mut app = App::default();
    handle_key_event(&mut app, press('c', false));
    handle_key_event(&mut app, KeyPress { code: KeyInput::Other, control: true });
    assert!(!app.should_quit());
    handle_key_event(&mut app, press('C', true));
    assert!(app.should_quit());
    handle_key_event(&mut app, press('x', false));
    assert!(app.should_quit());
}
