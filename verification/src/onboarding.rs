//! The API-key step of onboarding: typing or pasting a key, saving it, and
//! the lines the step shows.
use vstd::prelude::*;
use crate::connectors::opt_view;
use crate::text::{chars_of, push_char, push_str, string_from_chars, trim, trim_chars};

verus! {

/// The key typed so far, and whether it was filled in from the
/// environment.
#[derive(Debug, Clone, PartialEq, Eq, Default)]
pub struct ApiKeyInputState {
    pub value: String,
    pub prepopulated_from_env: bool,
}

/// Where the sign-in step stands.
#[derive(Debug, Clone, PartialEq, Eq)]
pub enum SignInState {
    ApiKeyEntry(ApiKeyInputState),
    ApiKeyConfigured,
}

/// Whether a step is done.
#[derive(Debug, Clone, Copy, PartialEq, Eq)]
pub enum StepState {
    Hidden,
    InProgress,
    Complete,
}

/// The keys the step reacts to.
#[derive(Debug, Clone, Copy, PartialEq, Eq)]
pub enum KeyInput {
    Esc,
    Enter,
    Backspace,
    Char(char),
    Other,
}

/// A key event: the key, whether it is a press, and the modifiers held.
#[derive(Debug, Clone, Copy, PartialEq, Eq)]
pub struct KeyPress {
    pub code: KeyInput,
    pub is_press: bool,
    pub super_held: bool,
    pub control_held: bool,
    pub alt_held: bool,
}

/// What the caller does after a key event.
#[derive(Debug, Clone, PartialEq, Eq)]
pub enum KeyAction {
    /// The step does not take keys now.
    NotHandled,
    /// Save this (trimmed) key.
    Save(String),
    /// Redraw.
    Redraw,
    /// Nothing to do.
    Nothing,
}

/// The sign-in step: its state and the error shown.
#[derive(Debug, Clone, PartialEq, Eq)]
pub struct AuthModeWidget {
    pub error: Option<String>,
    pub sign_in_state: SignInState,
}

pub struct WidgetView {
    pub error: Option<Seq<char>>,
    pub entry: Option<(Seq<char>, bool)>,
}

impl View for AuthModeWidget {
    type V = WidgetView;

    open spec fn view(&self) -> WidgetView {
        WidgetView {
            error: opt_view(self.error),
            entry: match self.sign_in_state {
                SignInState::ApiKeyEntry(s) => Some((s.value@, s.prepopulated_from_env)),
                SignInState::ApiKeyConfigured => None,
            },
        }
    }
}

pub open spec fn empty_key_message() -> Seq<char> {
    "API key cannot be empty"@
}

/// Typing replaces a key filled in from the environment, else appends.
pub open spec fn typed(value: Seq<char>, prepopulated: bool, c: char) -> Seq<char> {
    if prepopulated {
        seq![c]
    } else {
        value.push(c)
    }
}

/// Backspace clears a key filled in from the environment, else removes
/// the last character.
pub open spec fn backspaced(value: Seq<char>, prepopulated: bool) -> Seq<char> {
    if prepopulated || value.len() == 0 {
        Seq::empty()
    } else {
        value.drop_last()
    }
}

/// A plain character typed: a press without super, control or alt.
pub open spec fn is_plain_char(k: KeyPress) -> bool {
    k.code is Char && k.is_press && !k.super_held && !k.control_held && !k.alt_held
}

/// The widget and action after a key event.
pub open spec fn key_step(w: WidgetView, k: KeyPress) -> (WidgetView, KeyAction) {
    match w.entry {
        None => (w, KeyAction::NotHandled),
        Some((value, pre)) => match k.code {
            KeyInput::Esc => (WidgetView { error: None, ..w }, KeyAction::Redraw),
            KeyInput::Enter => if trim(value).len() == 0 {
                (WidgetView { error: Some(empty_key_message()), ..w }, KeyAction::Redraw)
            } else {
                (w, KeyAction::Save(arbitrary()))
            },
            KeyInput::Backspace => (
                WidgetView { error: None, entry: Some((backspaced(value, pre), false)) },
                KeyAction::Redraw,
            ),
            KeyInput::Char(c) => if is_plain_char(k) {
                (WidgetView { error: None, entry: Some((typed(value, pre, c), false)) }, KeyAction::Redraw)
            } else {
                (w, KeyAction::Nothing)
            },
            KeyInput::Other => (w, KeyAction::Nothing),
        },
    }
}

/// The widget after a paste of non-blank text (trimmed): it replaces a key
/// filled in from the environment, else is appended.
pub open spec fn paste_step(w: WidgetView, pasted: Seq<char>) -> Option<WidgetView> {
    let t = trim(pasted);
    if t.len() == 0 {
        None
    } else {
        match w.entry {
            None => None,
            Some((value, pre)) => Some(
                WidgetView { error: None, entry: Some((if pre { t } else { value + t }, false)) },
            ),
        }
    }
}

pub open spec fn save_failed_message(err: Seq<char>) -> Seq<char> {
    "Failed to save API key: "@ + err
}

impl AuthModeWidget {
    /// The step, waiting for a key.
    pub fn new(prefill: Option<String>) -> (r: Self)
        ensures
            r@.error is None,
            r@.entry == Some(
                (
                    match prefill {
                        Some(p) => p@,
                        None => Seq::<char>::empty(),
                    },
                    prefill is Some,
                ),
            ),
    {
        let state = match prefill {
            Some(p) => ApiKeyInputState { value: p, prepopulated_from_env: true },
            None => ApiKeyInputState { value: String::new(), prepopulated_from_env: false },
        };
        AuthModeWidget { error: None, sign_in_state: SignInState::ApiKeyEntry(state) }
    }

    /// Handles a key (`key_step`): Esc clears the error; Enter saves the
    /// trimmed key or complains that it is empty; Backspace and plain
    /// characters edit the key and clear the error.
    pub fn handle_api_key_entry_key_event(&mut self, key: KeyPress) -> (r: KeyAction)
        ensures
            final(self)@ == key_step(old(self)@, key).0,
            match key_step(old(self)@, key).1 {
                KeyAction::Save(_) => r matches KeyAction::Save(k) && k@ == trim((old(self)@.entry->0).0),
                other => r == other,
            },
    {
        let error_cleared: Option<String> = None;
        match &mut self.sign_in_state {
            SignInState::ApiKeyConfigured => KeyAction::NotHandled,
            SignInState::ApiKeyEntry(state) => match key.code {
                KeyInput::Esc => {
                    self.error = error_cleared;
                    KeyAction::Redraw
                },
                KeyInput::Enter => {
                    let c = chars_of(state.value.as_str());
                    let t = trim_chars(&c);
                    if t.len() == 0 {
                        self.error = Some("API key cannot be empty".to_string());
                        KeyAction::Redraw
                    } else {
                        KeyAction::Save(string_from_chars(&t))
                    }
                },
                KeyInput::Backspace => {
                    let ghost v0 = state.value@;
                    let ghost p0 = state.prepopulated_from_env;
                    if state.prepopulated_from_env {
                        state.value = String::new();
                        state.prepopulated_from_env = false;
                    } else {
                        let c = chars_of(state.value.as_str());
                        let n = c.len();
                        if n > 0 {
                            let mut v = c;
                            v.pop();
                            assert(v@ =~= state.value@.drop_last());
                            state.value = string_from_chars(&v);
                        }
                    }
                    assert(state.value@ =~= backspaced(v0, p0));
                    self.error = error_cleared;
                    KeyAction::Redraw
                },
                KeyInput::Char(ch) => {
                    let ghost v0 = state.value@;
                    let ghost p0 = state.prepopulated_from_env;
                    if key.is_press && !key.super_held && !key.control_held && !key.alt_held {
                        if state.prepopulated_from_env {
                            state.value = String::new();
                            state.prepopulated_from_env = false;
                        }
                        push_char(&mut state.value, ch);
                        assert(state.value@ =~= typed(v0, p0, ch));
                        self.error = error_cleared;
                        KeyAction::Redraw
                    } else {
                        KeyAction::Nothing
                    }
                },
                KeyInput::Other => KeyAction::Nothing,
            },
        }
    }

    /// Handles a paste (`paste_step`); tells whether it was taken.
    pub fn handle_api_key_entry_paste(&mut self, pasted: String) -> (r: bool)
        ensures
            r == paste_step(old(self)@, pasted@) is Some,
            r ==> final(self)@ == paste_step(old(self)@, pasted@)->0,
            !r ==> final(self)@ == old(self)@,
    {
        let c = chars_of(pasted.as_str());
        let t = trim_chars(&c);
        if t.len() == 0 {
            return false;
        }
        let ts = string_from_chars(&t);
        match &mut self.sign_in_state {
            SignInState::ApiKeyConfigured => false,
            SignInState::ApiKeyEntry(state) => {
                if state.prepopulated_from_env {
                    state.value = ts;
                    state.prepopulated_from_env = false;
                } else {
                    push_str(&mut state.value, ts.as_str());
                }
                self.error = None;
                true
            },
        }
    }

    /// After saving a key: on success the step is complete and the error
    /// cleared; on failure the error is shown, the key is kept (put back
    /// when the field is empty), and the step stays on entry.
    pub fn after_save(&mut self, api_key: String, result: Result<(), String>)
        ensures
            result is Ok ==> final(self)@.error is None && final(self)@.entry is None,
            result matches Err(e) ==> final(self)@.error == Some(save_failed_message(e@)) && final(self)@.entry == Some(
                (
                    match old(self)@.entry {
                        Some((v, _)) => if v.len() == 0 {
                            api_key@
                        } else {
                            v
                        },
                        None => api_key@,
                    },
                    false,
                ),
            ),
    {
        match result {
            Ok(()) => {
                self.error = None;
                self.sign_in_state = SignInState::ApiKeyConfigured;
            },
            Err(e) => {
                let mut m = "Failed to save API key: ".to_string();
                push_str(&mut m, e.as_str());
                self.error = Some(m);
                match &mut self.sign_in_state {
                    SignInState::ApiKeyEntry(existing) => {
                        if existing.value.as_str().is_empty() {
                            push_str(&mut existing.value, api_key.as_str());
                        }
                        existing.prepopulated_from_env = false;
                    },
                    SignInState::ApiKeyConfigured => {
                        self.sign_in_state = SignInState::ApiKeyEntry(
                            ApiKeyInputState { value: api_key, prepopulated_from_env: false },
                        );
                    },
                }
            },
        }
    }

    /// In progress while a key is entered, complete once configured.
    pub fn get_step_state(&self) -> (r: StepState)
        ensures
            r == (if self@.entry is Some { StepState::InProgress } else { StepState::Complete }),
    {
        match &self.sign_in_state {
            SignInState::ApiKeyEntry(_) => StepState::InProgress,
            SignInState::ApiKeyConfigured => StepState::Complete,
        }
    }
}

// ---------------------------------------------------------------------------
// What the step shows
// ---------------------------------------------------------------------------

/// How a span of text is styled.
#[derive(Debug, Clone, Copy, PartialEq, Eq)]
pub enum TextStyle {
    Plain,
    Bold,
    Dim,
    Red,
    Green,
}

/// A styled piece of a line.
#[derive(Debug, Clone, PartialEq, Eq)]
pub struct StyledSpan {
    pub text: String,
    pub style: TextStyle,
}

pub open spec fn line_view(l: Seq<StyledSpan>) -> Seq<(Seq<char>, TextStyle)> {
    l.map_values(|s: StyledSpan| (s.text@, s.style))
}

pub open spec fn lines_view(ls: Seq<Vec<StyledSpan>>) -> Seq<Seq<(Seq<char>, TextStyle)>> {
    ls.map_values(|l: Vec<StyledSpan>| line_view(l@))
}

fn span(text: &str, style: TextStyle) -> (r: StyledSpan)
    ensures
        r.text@ == text@,
        r.style == style,
{
    StyledSpan { text: text.to_string(), style }
}

fn line1(text: &str, style: TextStyle) -> (r: Vec<StyledSpan>)
    ensures
        line_view(r@) == seq![(text@, style)],
{
    let r = vec![span(text, style)];
    assert(line_view(r@) =~= seq![(text@, style)]);
    r
}

/// The lines shown once a key is configured.
pub open spec fn configured_lines() -> Seq<Seq<(Seq<char>, TextStyle)>> {
    seq![
        seq![("\u{2713} API key configured"@, TextStyle::Green)],
        seq![(""@, TextStyle::Plain)],
        seq![("  Codex will use usage-based billing with your API key."@, TextStyle::Plain)],
    ]
}

/// The lines shown once a key is configured.
pub fn render_api_key_configured() -> (r: Vec<Vec<StyledSpan>>)
    ensures
        lines_view(r@) == configured_lines(),
{
    let r = vec![
        line1("\u{2713} API key configured", TextStyle::Green),
        line1("", TextStyle::Plain),
        line1("  Codex will use usage-based billing with your API key.", TextStyle::Plain),
    ];
    assert(lines_view(r@) =~= configured_lines());
    r
}

/// The introduction above the key field, with the note about a key found
/// in the environment when it was filled in from there.
pub open spec fn intro_lines(prepopulated: bool) -> Seq<Seq<(Seq<char>, TextStyle)>> {
    let base = seq![
        seq![("> "@, TextStyle::Plain), ("Use your own OpenAI API key for usage-based billing"@, TextStyle::Bold)],
        seq![(""@, TextStyle::Plain)],
        seq![("  Paste or type your API key below. It will be stored locally in auth.json."@, TextStyle::Plain)],
        seq![(""@, TextStyle::Plain)],
    ];
    if prepopulated {
        base + seq![
            seq![("  Detected OPENAI_API_KEY environment variable."@, TextStyle::Plain)],
            seq![("  Paste a different key if you prefer to use another account."@, TextStyle::Dim)],
            seq![(""@, TextStyle::Plain)],
        ]
    } else {
        base
    }
}

/// The content of the key field: the key, or a dimmed hint when empty.
pub open spec fn input_line(value: Seq<char>) -> Seq<(Seq<char>, TextStyle)> {
    if value.len() == 0 {
        seq![("Paste or type your API key"@, TextStyle::Dim)]
    } else {
        seq![(value, TextStyle::Plain)]
    }
}

/// The key hints, and the error in red when there is one.
pub open spec fn footer_lines(error: Option<Seq<char>>) -> Seq<Seq<(Seq<char>, TextStyle)>> {
    let base = seq![
        seq![("  Press Enter to save"@, TextStyle::Dim)],
        seq![("  Press Esc to go back"@, TextStyle::Dim)],
    ];
    match error {
        Some(e) => base + seq![seq![(""@, TextStyle::Plain)], seq![(e, TextStyle::Red)]],
        None => base,
    }
}

/// The three parts of the key-entry screen.
pub struct EntryScreen {
    pub intro: Vec<Vec<StyledSpan>>,
    pub input: Vec<StyledSpan>,
    pub input_title: String,
    pub footer: Vec<Vec<StyledSpan>>,
}

/// The key-entry screen for the typed key and the current error.
pub fn render_api_key_entry(state: &ApiKeyInputState, error: &Option<String>) -> (r: EntryScreen)
    ensures
        lines_view(r.intro@) == intro_lines(state.prepopulated_from_env),
        line_view(r.input@) == input_line(state.value@),
        r.input_title@ == "API key"@,
        lines_view(r.footer@) == footer_lines(opt_view(*error)),
{
    let first = vec![
        span("> ", TextStyle::Plain),
        span("Use your own OpenAI API key for usage-based billing", TextStyle::Bold),
    ];
    assert(line_view(first@) =~= seq![
        ("> "@, TextStyle::Plain),
        ("Use your own OpenAI API key for usage-based billing"@, TextStyle::Bold),
    ]);
    let mut intro = vec![
        first,
        line1("", TextStyle::Plain),
        line1("  Paste or type your API key below. It will be stored locally in auth.json.", TextStyle::Plain),
        line1("", TextStyle::Plain),
    ];
    let ghost base = lines_view(intro@);
    if state.prepopulated_from_env {
        intro.push(line1("  Detected OPENAI_API_KEY environment variable.", TextStyle::Plain));
        intro.push(line1("  Paste a different key if you prefer to use another account.", TextStyle::Dim));
        intro.push(line1("", TextStyle::Plain));
    }
    assert(lines_view(intro@) =~= intro_lines(state.prepopulated_from_env));
    let input = if state.value.as_str().is_empty() {
        line1("Paste or type your API key", TextStyle::Dim)
    } else {
        line1(state.value.as_str(), TextStyle::Plain)
    };
    let mut footer = vec![line1("  Press Enter to save", TextStyle::Dim), line1("  Press Esc to go back", TextStyle::Dim)];
    match error {
        Some(e) => {
            footer.push(line1("", TextStyle::Plain));
            footer.push(line1(e.as_str(), TextStyle::Red));
        },
        None => {},
    }
    assert(lines_view(footer@) =~= footer_lines(opt_view(*error)));
    EntryScreen { intro, input, input_title: "API key".to_string(), footer }
}


/// Feedback collection for the interface; it carries nothing yet.
pub struct CodexFeedback {
    _private: (),
}

impl CodexFeedback {
    /// The one value this type has.
    pub closed spec fn empty() -> CodexFeedback {
        CodexFeedback { _private: () }
    }

    /// An empty feedback collector.
    pub fn new() -> (r: Self)
        ensures
            r == CodexFeedback::empty(),
    {
        Self { _private: () }
    }
}

impl Default for CodexFeedback {
    fn default() -> (r: Self)
        ensures
            r == CodexFeedback::empty(),
    {
        Self::new()
    }
}

} // verus!
