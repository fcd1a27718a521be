//! The editing state machine: which buffer owns the keyboard, and how each
//! key press changes the buffers and the mode.
use vstd::prelude::*;
use vstd::string::*;
use crate::engine::{transform, transform_spec, MatchView};
use crate::text::{pop_char, push_char};

verus! {

/// Which buffer, if any, receives typing_keys characters.
#[derive(Clone, Copy, Debug, PartialEq, Eq, Structural)]
pub enum InputMode {
    /// No buffer is edited; keys select a buffer or a command.
    Normal,
    EditingSource,
    EditingRegex,
    EditingReplace,
}

/// A key press, as far as the editor distinguishes keys.
#[derive(Clone, Copy, Debug, PartialEq, Eq, Structural)]
pub enum Key {
    Char(char),
    Backspace,
    Enter,
    Esc,
    Tab,
    /// Any other key: ignored in every mode.
    Other,
}

/// What the event loop does after a key press.
#[derive(Clone, Copy, Debug, PartialEq, Eq, Structural)]
pub enum Action {
    /// Redraw and wait for the next key.
    Continue,
    /// End the session.
    Quit,
    /// Ask the suggestion provider for a pattern, then hand its reply to
    /// [`App::finish_suggestion`].
    Suggest,
}

/// The editing session: three buffers, the mode, the derived output and a
/// status line.
pub struct App {
    pub source_text: String,
    pub regex_input: String,
    pub replace_input: String,
    pub output_text: String,
    pub input_mode: InputMode,
    pub status_message: String,
    /// How matches are shown when the replacement is empty.
    pub view: MatchView,
}

/// The mode and the three buffers: what key presses change.
pub type EditView = (InputMode, Seq<char>, Seq<char>, Seq<char>);

/// Removes the last character, if any.
pub open spec fn backspace(s: Seq<char>) -> Seq<char> {
    if s.len() > 0 {
        s.drop_last()
    } else {
        s
    }
}

/// The mode and buffers after key `k` is pressed in state `v`.
pub open spec fn next_view(v: EditView, k: Key) -> EditView {
    let (mode, src, pat, rep) = v;
    match mode {
        InputMode::Normal => match k {
            Key::Char(c) => if c == 's' {
                (InputMode::EditingSource, Seq::empty(), pat, rep)
            } else if c == 'r' {
                (InputMode::EditingRegex, src, Seq::empty(), rep)
            } else if c == 't' {
                (InputMode::EditingReplace, src, pat, Seq::empty())
            } else {
                v
            },
            _ => v,
        },
        InputMode::EditingSource => match k {
            Key::Esc => (InputMode::Normal, src, pat, rep),
            Key::Char(c) => (mode, src.push(c), pat, rep),
            Key::Backspace => (mode, backspace(src), pat, rep),
            Key::Enter => (mode, src.push('\n'), pat, rep),
            _ => v,
        },
        InputMode::EditingRegex => match k {
            Key::Esc | Key::Enter => (InputMode::Normal, src, pat, rep),
            Key::Char(c) => (mode, src, pat.push(c), rep),
            Key::Backspace => (mode, src, backspace(pat), rep),
            _ => v,
        },
        InputMode::EditingReplace => match k {
            Key::Esc | Key::Enter => (InputMode::Normal, src, pat, rep),
            Key::Char(c) => (mode, src, pat, rep.push(c)),
            Key::Backspace => (mode, src, pat, backspace(rep)),
            _ => v,
        },
    }
}

/// What the event loop does after key `k` in mode `mode`.
pub open spec fn action_of(mode: InputMode, k: Key) -> Action {
    match (mode, k) {
        (InputMode::Normal, Key::Char('q')) => Action::Quit,
        (InputMode::Normal, Key::Tab) => Action::Suggest,
        _ => Action::Continue,
    }
}

/// The mode and buffers after a sequence of key presses.
pub open spec fn run_keys(v: EditView, keys: Seq<Key>) -> EditView
    decreases keys.len(),
{
    if keys.len() == 0 {
        v
    } else {
        next_view(run_keys(v, keys.drop_last()), keys.last())
    }
}

/// Status shown while the suggestion provider is asked.
pub const STATUS_ASKING: &'static str = "Consultando a Gemini IA...";

/// The source text a new session starts with.
pub const DEFAULT_SOURCE: &'static str = "Praliné saber no ocupa el lugar de argentino.";

/// The status line of a new session.
pub const STATUS_READY: &'static str = "Listo. 's': Fuente, 'r': Regex, 't': Reemplazar, 'TAB': IA";

impl Default for App {
    /// A new session: the sample source, empty pattern and replacement, the
    /// normal mode, extraction view, and the source shown as output.
    fn default() -> (r: App)
        ensures
            r.source_text@ == DEFAULT_SOURCE@,
            r.regex_input@ == Seq::<char>::empty(),
            r.replace_input@ == Seq::<char>::empty(),
            r.output_text@ == DEFAULT_SOURCE@,
            r.input_mode == InputMode::Normal,
            r.status_message@ == STATUS_READY@,
            r.view == MatchView::Extract,
            r.wf(),
    {
        App {
            source_text: DEFAULT_SOURCE.to_owned(),
            regex_input: String::new(),
            replace_input: String::new(),
            output_text: DEFAULT_SOURCE.to_owned(),
            input_mode: InputMode::Normal,
            status_message: STATUS_READY.to_owned(),
            view: MatchView::Extract,
        }
    }
}

impl App {
    /// The mode and the three buffers.
    pub open spec fn edit_view(&self) -> EditView {
        (self.input_mode, self.source_text@, self.regex_input@, self.replace_input@)
    }

    /// The output is the transform of the current buffers.
    pub open spec fn wf(&self) -> bool {
        transform_spec(
            self.source_text@,
            self.regex_input@,
            self.replace_input@,
            self.view,
            self.output_text@,
        )
    }

    /// Recomputes the output from the three buffers.
    pub fn apply_transform(&mut self)
        ensures
            final(self).wf(),
            final(self).edit_view() == old(self).edit_view(),
            final(self).status_message@ == old(self).status_message@,
            final(self).view == old(self).view,
    {
        self.output_text = transform(
            self.source_text.as_str(),
            self.regex_input.as_str(),
            self.replace_input.as_str(),
            self.view,
        );
    }

    /// Handles one key press: changes the mode and buffers as
    /// [`next_view`] says, recomputes the output unless the key quits, and
    /// tells the event loop what to do next.
    pub fn handle_key(&mut self, key: Key) -> (action: Action)
        ensures
            action == action_of(old(self).input_mode, key),
            final(self).edit_view() == next_view(old(self).edit_view(), key),
            final(self).view == old(self).view,
            action == Action::Quit ==> *final(self) == *old(self),
            action != Action::Quit ==> final(self).wf(),
            action == Action::Suggest ==> final(self).status_message@ == STATUS_ASKING@,
            action != Action::Suggest ==> final(self).status_message@ == old(self).status_message@,
    {
        let mut action = Action::Continue;
        match self.input_mode {
            InputMode::Normal => match key {
                Key::Char(c) => {
                    if c == 'q' {
                        return Action::Quit;
                    } else if c == 's' {
                        self.input_mode = InputMode::EditingSource;
                        self.source_text = String::new();
                    } else if c == 'r' {
                        self.input_mode = InputMode::EditingRegex;
                        self.regex_input = String::new();
                    } else if c == 't' {
                        self.input_mode = InputMode::EditingReplace;
                        self.replace_input = String::new();
                    }
                },
                Key::Tab => {
                    self.status_message = STATUS_ASKING.to_owned();
                    action = Action::Suggest;
                },
                _ => {},
            },
            InputMode::EditingSource => match key {
                Key::Esc => self.input_mode = InputMode::Normal,
                Key::Char(c) => push_char(&mut self.source_text, c),
                Key::Backspace => {
                    pop_char(&mut self.source_text);
                },
                Key::Enter => push_char(&mut self.source_text, '\n'),
                _ => {},
            },
            InputMode::EditingRegex => match key {
                Key::Esc | Key::Enter => self.input_mode = InputMode::Normal,
                Key::Char(c) => push_char(&mut self.regex_input, c),
                Key::Backspace => {
                    pop_char(&mut self.regex_input);
                },
                _ => {},
            },
            InputMode::EditingReplace => match key {
                Key::Esc | Key::Enter => self.input_mode = InputMode::Normal,
                Key::Char(c) => push_char(&mut self.replace_input, c),
                Key::Backspace => {
                    pop_char(&mut self.replace_input);
                },
                _ => {},
            },
        }
        self.apply_transform();
        action
    }
}

/// True when every key of `keys` types a character.
pub open spec fn all_typing(keys: Seq<Key>) -> bool {
    forall|i: int| 0 <= i < keys.len() ==> (#[trigger] keys[i]) is Char
}

/// The characters that the typing keys of `keys` type, in order.
pub open spec fn typed_text(keys: Seq<Key>) -> Seq<char>
    decreases keys.len(),
{
    if keys.len() == 0 {
        Seq::empty()
    } else {
        match keys.last() {
            Key::Char(c) => typed_text(keys.drop_last()).push(c),
            _ => typed_text(keys.drop_last()),
        }
    }
}

/// Running two key sequences one after the other is running their
/// concatenation.
pub proof fn lemma_run_keys_append(v: EditView, a: Seq<Key>, b: Seq<Key>)
    ensures
        run_keys(v, a + b) == run_keys(run_keys(v, a), b),
    decreases b.len(),
{
    if b.len() == 0 {
        assert(a + b =~= a);
    } else {
        lemma_run_keys_append(v, a, b.drop_last());
        assert((a + b).drop_last() =~= a + b.drop_last());
    }
}

/// Typing characters while editing the source appends them to it.
proof fn lemma_typing_source(src: Seq<char>, pat: Seq<char>, rep: Seq<char>, keys: Seq<Key>)
    requires
        all_typing(keys),
    ensures
        run_keys((InputMode::EditingSource, src, pat, rep), keys) == (
            InputMode::EditingSource,
            src + typed_text(keys),
            pat,
            rep,
        ),
    decreases keys.len(),
{
    if keys.len() == 0 {
        assert(src + typed_text(keys) =~= src);
    } else {
        let init = keys.drop_last();
        assert forall|i: int| 0 <= i < init.len() implies (#[trigger] init[i]) is Char by {
            assert(init[i] == keys[i]);
        }
        lemma_typing_source(src, pat, rep, init);
        assert(keys[keys.len() - 1] is Char);
        assert((src + typed_text(init)).push(keys.last()->Char_0) =~= src + typed_text(keys));
    }
}

/// From the normal mode, pressing `s`, typing some text and pressing escape
/// leaves exactly that text as the source, whatever it held before, back in
/// the normal mode with the pattern and replacement untouched.
pub proof fn lemma_source_entry(src: Seq<char>, pat: Seq<char>, rep: Seq<char>, keys: Seq<Key>)
    requires
        all_typing(keys),
    ensures
        run_keys(
            (InputMode::Normal, src, pat, rep),
            seq![Key::Char('s')] + keys + seq![Key::Esc],
        ) == (InputMode::Normal, typed_text(keys), pat, rep),
{
    let v = (InputMode::Normal, src, pat, rep);
    let first = seq![Key::Char('s')];
    let last = seq![Key::Esc];
    lemma_run_keys_append(v, first, keys);
    lemma_run_keys_append(v, first + keys, last);
    assert(first.drop_last() =~= Seq::<Key>::empty());
    assert(run_keys(v, first.drop_last()) == v);
    assert(run_keys(v, first) == next_view(v, Key::Char('s')));
    lemma_typing_source(Seq::empty(), pat, rep, keys);
    assert(Seq::<char>::empty() + typed_text(keys) =~= typed_text(keys));
    let mid = run_keys(v, first + keys);
    assert(last.drop_last() =~= Seq::<Key>::empty());
    assert(run_keys(mid, last.drop_last()) == mid);
}

/// Backspace when the edited buffer is empty, or in the normal mode,
/// changes nothing.
pub proof fn lemma_backspace_on_empty(v: EditView)
    requires
        v.0 == InputMode::EditingSource ==> v.1.len() == 0,
        v.0 == InputMode::EditingRegex ==> v.2.len() == 0,
        v.0 == InputMode::EditingReplace ==> v.3.len() == 0,
    ensures
        next_view(v, Key::Backspace) == v,
        action_of(v.0, Key::Backspace) == Action::Continue,
{
}

} // verus!
