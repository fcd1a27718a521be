use regex_wysiwyg::{
    clean_suggestion, remove_text, trim_text, Action, App, InputMode, Key, MatchView, SuggestionReply,
    DEFAULT_SOURCE, PROMPT_HEAD, STATUS_ASKING, STATUS_READY,
};

fn press_all(app: &mut App, keys: &[Key]) -> Vec<Action> {
    keys.iter().map(|k| app.handle_key(*k)).collect()
}

fn typing(s: &str) -> Vec<Key> {
    s.chars().map(Key::Char).collect()
}

#[test]
fn default_session() {
    let app = App::default();
    assert_eq!(app.source_text, DEFAULT_SOURCE);
    assert_eq!(app.output_text, DEFAULT_SOURCE);
    assert_eq!(app.regex_input, "");
    assert_eq!(app.replace_input, "");
    assert_eq!(app.input_mode, InputMode::Normal);
    assert_eq!(app.status_message, STATUS_READY);
    assert_eq!(app.view, MatchView::Extract);
}

#[test]
fn source_entry_replaces_old_source() {
    let mut app = App::default();
    let mut keys = vec![Key::Char('s')];
    keys.extend(typing("abc"));
    keys.push(Key::Esc);
    let actions = press_all(&mut app, &keys);
    assert!(actions.iter().all(|a| *a == Action::Continue));
    assert_eq!(app.source_text, "abc");
    assert_eq!(app.input_mode, InputMode::Normal);
    assert_eq!(app.output_text, "abc");
}

#[test]
fn backspace_on_empty_buffer_is_noop() {
    let mut app = App::default();
    app.handle_key(Key::Char('r'));
    assert_eq!(app.regex_input, "");
    assert_eq!(app.handle_key(Key::Backspace), Action::Continue);
    assert_eq!(app.regex_input, "");
    assert_eq!(app.input_mode, InputMode::EditingRegex);
    app.handle_key(Key::Esc);
    app.handle_key(Key::Char('s'));
    app.handle_key(Key::Backspace);
    assert_eq!(app.source_text, "");
    assert_eq!(app.output_text, "");
}

#[test]
fn backspace_removes_last_character() {
    let mut app = App::default();
    press_all(&mut app, &[Key::Char('s'), Key::Char('x'), Key::Char('é')]);
    app.handle_key(Key::Backspace);
    assert_eq!(app.source_text, "x");
}

#[test]
fn enter_in_source_adds_newline() {
    let mut app = App::default();
    let mut keys = vec![Key::Char('s')];
    keys.extend(typing("a"));
    keys.push(Key::Enter);
    keys.extend(typing("b"));
    press_all(&mut app, &keys);
    assert_eq!(app.source_text, "a\nb");
    assert_eq!(app.input_mode, InputMode::EditingSource);
}

#[test]
fn enter_confirms_pattern_and_replacement() {
    let mut app = App::default();
    let mut keys = vec![Key::Char('s')];
    keys.extend(typing("cat bat hat"));
    keys.push(Key::Esc);
    keys.push(Key::Char('r'));
    keys.extend(typing("at"));
    keys.push(Key::Enter);
    keys.push(Key::Char('t'));
    keys.extend(typing("XX"));
    keys.push(Key::Enter);
    press_all(&mut app, &keys);
    assert_eq!(app.input_mode, InputMode::Normal);
    assert_eq!(app.regex_input, "at");
    assert_eq!(app.replace_input, "XX");
    assert_eq!(app.output_text, "cXX bXX hXX");
}

#[test]
fn output_follows_each_keystroke() {
    let mut app = App::default();
    let mut keys = vec![Key::Char('s')];
    keys.extend(typing("cat bat hat"));
    keys.push(Key::Esc);
    keys.push(Key::Char('r'));
    keys.extend(typing("[cb]at"));
    press_all(&mut app, &keys);
    assert_eq!(app.output_text, "cat | bat");
    app.handle_key(Key::Char('('));
    assert!(app.output_text.starts_with("Regex Error: "));
    app.handle_key(Key::Backspace);
    assert_eq!(app.output_text, "cat | bat");
}

#[test]
fn quit_and_suggest_in_normal_mode() {
    let mut app = App::default();
    assert_eq!(app.handle_key(Key::Char('x')), Action::Continue);
    assert_eq!(app.handle_key(Key::Char('q')), Action::Quit);
    assert_eq!(app.handle_key(Key::Tab), Action::Suggest);
    assert_eq!(app.status_message, STATUS_ASKING);
    app.handle_key(Key::Char('r'));
    assert_eq!(app.handle_key(Key::Char('q')), Action::Continue);
    assert_eq!(app.regex_input, "q");
    assert_eq!(app.handle_key(Key::Tab), Action::Continue);
    assert_eq!(app.handle_key(Key::Other), Action::Continue);
    assert_eq!(app.regex_input, "q");
}

#[test]
fn prompt_holds_pattern_and_source() {
    let mut app = App::default();
    press_all(&mut app, &[Key::Char('r'), Key::Char('a'), Key::Esc]);
    let p = app.suggestion_prompt();
    assert!(p.starts_with(PROMPT_HEAD));
    assert_eq!(
        p,
        format!(
            "Give me ONLY the regex pattern (no text, no backticks, no markdown) to match or extract this: 'a' in the text: '{}'.",
            DEFAULT_SOURCE
        )
    );
}

#[test]
fn cleaning_strips_fences() {
    assert_eq!(clean_suggestion("```regex\n\\d+\n```"), "\\d+");
    assert_eq!(clean_suggestion("`[a-z]+`"), "[a-z]+");
    assert_eq!(clean_suggestion("plain"), "plain");
    assert_eq!(trim_text("\u{3000} \tx y\n\u{a0}"), "x y");
    assert_eq!(trim_text("   "), "");
}

#[test]
fn suggestion_answer_becomes_pattern() {
    let mut app = App::default();
    app.finish_suggestion(SuggestionReply::Answered("  ```regex\nsaber\n```  \n".to_string()));
    assert_eq!(app.regex_input, "saber");
    assert_eq!(app.status_message, "Sugerencia aplicada!");
    assert_eq!(app.output_text, "saber");
}

#[test]
fn suggestion_failures_only_set_status() {
    let mut app = App::default();
    app.finish_suggestion(SuggestionReply::Answered(" \n ".to_string()));
    assert_eq!(app.status_message, "Gemini devolvió vacío.");
    assert_eq!(app.regex_input, "");
    assert_eq!(app.output_text, DEFAULT_SOURCE);
    app.finish_suggestion(SuggestionReply::Unreachable("not found".to_string()));
    assert_eq!(app.status_message, "Error de ejecución: not found");
    app.finish_suggestion(SuggestionReply::Failed("x".repeat(40)));
    assert_eq!(app.status_message, format!("Gemini Error: {}", "x".repeat(30)));
    app.finish_suggestion(SuggestionReply::Failed("short".to_string()));
    assert_eq!(app.status_message, "Gemini Error: short");
    assert_eq!(app.output_text, DEFAULT_SOURCE);
}

#[test]
fn line_view_in_session() {
    let mut app = App::default();
    app.view = MatchView::Lines;
    let mut keys = vec![Key::Char('s')];
    keys.extend(typing("line1"));
    keys.push(Key::Enter);
    keys.extend(typing("foo"));
    keys.push(Key::Enter);
    keys.extend(typing("line3"));
    keys.push(Key::Esc);
    keys.push(Key::Char('r'));
    keys.extend(typing("foo"));
    press_all(&mut app, &keys);
    assert_eq!(app.output_text, "foo\n");
}

#[test]
fn remove_text_scans_left_to_right() {
    assert_eq!(remove_text("a```b````c", "```"), "ab`c");
    assert_eq!(remove_text("aaaa", "aa"), "");
    assert_eq!(remove_text("aaa", "aa"), "a");
    assert_eq!(remove_text("", "`"), "");
    assert_eq!(remove_text("no marks", "`"), "no marks");
}
