use regex_wysiwyg::{
    error_output, join_matches, join_selected_lines, split_lines, transform, MatchView, ERROR_PREFIX, NO_MATCHES,
};

#[test]
fn empty_pattern_is_identity() {
    let src = "any text\nwith lines ([";
    assert_eq!(transform(src, "", "", MatchView::Extract), src);
    assert_eq!(transform(src, "", "XX", MatchView::Lines), src);
    assert_eq!(transform("", "", "", MatchView::Lines), "");
}

#[test]
fn invalid_pattern_reports_error() {
    for p in ["(", "[a-", "a{2", "*"] {
        let out = transform("abc", p, "", MatchView::Extract);
        assert!(out.starts_with("Regex Error: "), "{}", out);
        assert!(out.len() > ERROR_PREFIX.len());
        let out = transform("abc", p, "x", MatchView::Lines);
        assert!(out.starts_with("Regex Error: "));
    }
}

#[test]
fn substitution_without_match_keeps_source() {
    let src = "cat bat hat";
    assert_eq!(transform(src, "dog", "XX", MatchView::Extract), src);
    assert_eq!(transform(src, "z+", "$0$0", MatchView::Lines), src);
}

#[test]
fn extraction_joins_matches() {
    assert_eq!(transform("cat bat hat", "[cb]at", "", MatchView::Extract), "cat | bat");
}

#[test]
fn extraction_single_match() {
    assert_eq!(transform("one two", "tw.", "", MatchView::Extract), "two");
}

#[test]
fn substitution_replaces_every_match() {
    assert_eq!(transform("cat bat hat", "at", "XX", MatchView::Extract), "cXX bXX hXX");
}

#[test]
fn substitution_expands_groups() {
    assert_eq!(transform("john smith", r"(\w+) (\w+)", "$2 $1", MatchView::Extract), "smith john");
}

#[test]
fn line_filter_keeps_matching_lines() {
    assert_eq!(transform("line1\nfoo\nline3", "foo", "", MatchView::Lines), "foo\n");
    assert_eq!(transform("a1\nb\na2\n", "a", "", MatchView::Lines), "a1\na2\n");
}

#[test]
fn line_filter_final_empty_piece_is_not_a_line() {
    assert_eq!(transform("x\n", "^$", "", MatchView::Lines), "");
    assert_eq!(transform("x\n\ny", "^$", "", MatchView::Lines), "\n");
}

#[test]
fn no_match_gives_fixed_outputs() {
    assert_eq!(transform("cat bat hat", "dog", "", MatchView::Lines), "");
    assert_eq!(transform("cat bat hat", "dog", "", MatchView::Extract), NO_MATCHES);
    assert_eq!(transform("cat bat hat", "dog", "", MatchView::Extract), "(No hay coincidencias)");
    assert_eq!(transform("", "dog", "", MatchView::Lines), "");
}

#[test]
fn line_filter_is_idempotent() {
    let src = "alpha\nbeta\ngamma\nalphabet\n\nomega";
    for p in ["a$", "^a", "x*", "e"] {
        let once = transform(src, p, "", MatchView::Lines);
        let twice = transform(&once, p, "", MatchView::Lines);
        assert_eq!(once, twice, "{}", p);
    }
}

#[test]
fn matching_is_unicode_aware() {
    assert_eq!(transform("Praliné saber", r"\w+é", "", MatchView::Extract), "Praliné");
}

#[test]
fn split_lines_drops_final_empty_piece() {
    assert_eq!(split_lines("a\nb\n"), vec!["a".to_string(), "b".to_string()]);
    assert_eq!(split_lines("a\n\nb"), vec!["a".to_string(), "".to_string(), "b".to_string()]);
    assert_eq!(split_lines(""), Vec::<String>::new());
    assert_eq!(split_lines("\n"), vec!["".to_string()]);
}

#[test]
fn join_selected_lines_keeps_flagged() {
    let ls = vec!["line1".to_string(), "foo".to_string(), "line3".to_string()];
    assert_eq!(join_selected_lines(&ls, &vec![false, true, false]), "foo\n");
    assert_eq!(join_selected_lines(&ls, &vec![true, false, true]), "line1\nline3\n");
    assert_eq!(join_selected_lines(&ls, &vec![false, false, false]), "");
}

#[test]
fn join_matches_uses_separator_or_placeholder() {
    assert_eq!(join_matches(&vec!["cat".to_string(), "bat".to_string()]), "cat | bat");
    assert_eq!(join_matches(&vec!["x".to_string()]), "x");
    assert_eq!(join_matches(&Vec::new()), "(No hay coincidencias)");
}

#[test]
fn error_output_prefixes_message() {
    assert_eq!(error_output("unclosed group"), "Regex Error: unclosed group");
    assert_eq!(error_output(""), ERROR_PREFIX);
}
