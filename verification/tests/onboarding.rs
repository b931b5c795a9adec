use nidex::onboarding::{
    render_api_key_configured, render_api_key_entry, ApiKeyInputState, AuthModeWidget, CodexFeedback,
    KeyAction, KeyInput, KeyPress, SignInState, StepState, TextStyle,
};

fn press(code: KeyInput) -> KeyPress {
    KeyPress { code, is_press: true, super_held: false, control_held: false, alt_held: false }
}

fn entered(w: &AuthModeWidget) -> ApiKeyInputState {
    match &w.sign_in_state {
        SignInState::ApiKeyEntry(s) => s.clone(),
        SignInState::ApiKeyConfigured => panic!("not entering a key"),
    }
}

#[test]
fn typing_and_saving_a_key() {
    let mut w = AuthModeWidget::new(None);
    assert_eq!(w.get_step_state(), StepState::InProgress);
    for c in " sk-1 ".chars() {
        assert_eq!(w.handle_api_key_entry_key_event(press(KeyInput::Char(c))), KeyAction::Redraw);
    }
    assert_eq!(entered(&w).value, " sk-1 ");
    assert_eq!(w.handle_api_key_entry_key_event(press(KeyInput::Enter)), KeyAction::Save("sk-1".to_string()));
    w.after_save("sk-1".to_string(), Ok(()));
    assert_eq!(w.get_step_state(), StepState::Complete);
    assert_eq!(w.error, None);
    assert_eq!(w.handle_api_key_entry_key_event(press(KeyInput::Enter)), KeyAction::NotHandled);
}

#[test]
fn empty_key_is_refused() {
    let mut w = AuthModeWidget::new(None);
    assert_eq!(w.handle_api_key_entry_key_event(press(KeyInput::Enter)), KeyAction::Redraw);
    assert_eq!(w.error.as_deref(), Some("API key cannot be empty"));
    assert_eq!(w.handle_api_key_entry_key_event(press(KeyInput::Esc)), KeyAction::Redraw);
    assert_eq!(w.error, None);
}

#[test]
fn a_key_from_the_environment_is_replaced_by_typing() {
    let mut w = AuthModeWidget::new(Some("sk-env".to_string()));
    assert!(entered(&w).prepopulated_from_env);
    w.handle_api_key_entry_key_event(press(KeyInput::Char('x')));
    assert_eq!(entered(&w), ApiKeyInputState { value: "x".to_string(), prepopulated_from_env: false });
    w.handle_api_key_entry_key_event(press(KeyInput::Backspace));
    assert_eq!(entered(&w).value, "");
    let mut w = AuthModeWidget::new(Some("sk-env".to_string()));
    w.handle_api_key_entry_key_event(press(KeyInput::Backspace));
    assert_eq!(entered(&w).value, "");
}

#[test]
fn modified_keys_are_ignored() {
    let mut w = AuthModeWidget::new(None);
    let k = KeyPress { code: KeyInput::Char('v'), is_press: true, super_held: false, control_held: true, alt_held: false };
    assert_eq!(w.handle_api_key_entry_key_event(k), KeyAction::Nothing);
    assert_eq!(entered(&w).value, "");
    assert_eq!(w.handle_api_key_entry_key_event(press(KeyInput::Other)), KeyAction::Nothing);
}

#[test]
fn pasting_appends_trimmed_text() {
    let mut w = AuthModeWidget::new(None);
    assert!(!w.handle_api_key_entry_paste("   ".to_string()));
    assert!(w.handle_api_key_entry_paste(" sk-".to_string()));
    assert!(w.handle_api_key_entry_paste("abc\n".to_string()));
    assert_eq!(entered(&w).value, "sk-abc");
    let mut w = AuthModeWidget::new(Some("old".to_string()));
    assert!(w.handle_api_key_entry_paste("new".to_string()));
    assert_eq!(entered(&w), ApiKeyInputState { value: "new".to_string(), prepopulated_from_env: false });
}

#[test]
fn failed_save_keeps_the_key_and_shows_the_error() {
    let mut w = AuthModeWidget::new(None);
    w.after_save("sk-9".to_string(), Err("disk full".to_string()));
    assert_eq!(w.error.as_deref(), Some("Failed to save API key: disk full"));
    assert_eq!(entered(&w).value, "sk-9");
    assert_eq!(w.get_step_state(), StepState::InProgress);
}

#[test]
fn screens_show_what_the_step_needs() {
    let done = render_api_key_configured();
    assert_eq!(done.len(), 3);
    assert_eq!(done[0][0].text, "\u{2713} API key configured");
    assert_eq!(done[0][0].style, TextStyle::Green);
    let state = ApiKeyInputState { value: String::new(), prepopulated_from_env: true };
    let screen = render_api_key_entry(&state, &Some("oops".to_string()));
    assert_eq!(screen.intro.len(), 7);
    assert_eq!(screen.input[0].text, "Paste or type your API key");
    assert_eq!(screen.input[0].style, TextStyle::Dim);
    assert_eq!(screen.input_title, "API key");
    assert_eq!(screen.footer.len(), 4);
    assert_eq!(screen.footer[3][0].text, "oops");
    assert_eq!(screen.footer[3][0].style, TextStyle::Red);
    let typed = ApiKeyInputState { value: "sk".to_string(), prepopulated_from_env: false };
    let screen = render_api_key_entry(&typed, &None);
    assert_eq!(screen.intro.len(), 4);
    assert_eq!(screen.input[0].text, "sk");
    assert_eq!(screen.footer.len(), 2);
}

#[test]
fn feedback_starts_empty() {
    let _a = CodexFeedback::new();
    let _b = CodexFeedback::default();
}
