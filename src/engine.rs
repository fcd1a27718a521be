//! The transform engine: derives the preview output from the source text,
//! the pattern and the replacement.
use vstd::prelude::*;
use vstd::string::*;
use crate::regex_api::{
    compile, error_message, regex_accepts, regex_finds, regex_match_texts, regex_replaced,
    Pattern,
};
use crate::text::{
    append_str, join_lines, join_with, lemma_lines_of_join, lemma_lines_single, lines, single_line,
    split_acc,
};

verus! {

/// How matches are shown when there is no replacement.
#[derive(Clone, Copy, Debug, PartialEq, Eq, Structural)]
pub enum MatchView {
    /// Every line of the source that holds a match, each followed by a
    /// newline; nothing at all when no line matches.
    Lines,
    /// The matched substrings of the whole source joined by `" | "`; the
    /// placeholder [`NO_MATCHES`] when there is none.
    Extract,
}

/// Shown in extraction view when the pattern matches nowhere.
pub const NO_MATCHES: &'static str = "(No hay coincidencias)";

/// Put before the engine's diagnostic when the pattern does not compile.
pub const ERROR_PREFIX: &'static str = "Regex Error: ";

/// Separator between extracted matches.
pub const MATCH_SEPARATOR: &'static str = " | ";

/// The lines among `ls` on which `p` matches, in order.
pub open spec fn kept_lines(p: Seq<char>, ls: Seq<Seq<char>>) -> Seq<Seq<char>>
    decreases ls.len(),
{
    if ls.len() == 0 {
        Seq::empty()
    } else {
        let rest = kept_lines(p, ls.drop_last());
        if regex_finds(p, ls.last()) {
            rest.push(ls.last())
        } else {
            rest
        }
    }
}

/// Line-filter output: the matching lines of `s`, each with a newline.
pub open spec fn filter_spec(p: Seq<char>, s: Seq<char>) -> Seq<char> {
    join_lines(kept_lines(p, lines(s)))
}

/// Extraction output: the matches joined by the separator, or the
/// placeholder when there are none.
pub open spec fn extract_spec(p: Seq<char>, s: Seq<char>) -> Seq<char> {
    if regex_finds(p, s) {
        join_with(regex_match_texts(p, s), MATCH_SEPARATOR@)
    } else {
        NO_MATCHES@
    }
}

/// Substitution output: the source with every match replaced, which is the
/// source itself when nothing matches.
pub open spec fn substitute_spec(p: Seq<char>, s: Seq<char>, r: Seq<char>) -> Seq<char> {
    if regex_finds(p, s) {
        regex_replaced(p, s, r)
    } else {
        s
    }
}

/// The output for a pattern that compiles.
pub open spec fn compiled_output(
    s: Seq<char>,
    p: Seq<char>,
    r: Seq<char>,
    view: MatchView,
) -> Seq<char> {
    if r.len() > 0 {
        substitute_spec(p, s, r)
    } else {
        match view {
            MatchView::Lines => filter_spec(p, s),
            MatchView::Extract => extract_spec(p, s),
        }
    }
}

/// True when `out` begins with the error prefix.
pub open spec fn is_error_text(out: Seq<char>) -> bool {
    out.len() >= ERROR_PREFIX@.len() && out.subrange(0, ERROR_PREFIX@.len() as int) == ERROR_PREFIX@
}

/// What `transform` may return: the source for an empty pattern, an error
/// text for a pattern the engine refuses, and the compiled output otherwise.
pub open spec fn transform_spec(
    s: Seq<char>,
    p: Seq<char>,
    r: Seq<char>,
    view: MatchView,
    out: Seq<char>,
) -> bool {
    if p.len() == 0 {
        out == s
    } else if !regex_accepts(p) {
        is_error_text(out)
    } else {
        out == compiled_output(s, p, r, view)
    }
}

/// The lines of `ls` whose flag in `keep` is set, in order.
pub open spec fn select_lines(ls: Seq<Seq<char>>, keep: Seq<bool>) -> Seq<Seq<char>>
    decreases ls.len(),
{
    if ls.len() == 0 || keep.len() == 0 {
        Seq::empty()
    } else {
        let rest = select_lines(ls.drop_last(), keep.drop_last());
        if keep.last() {
            rest.push(ls.last())
        } else {
            rest
        }
    }
}

/// The views of a list of strings.
pub open spec fn views(v: Seq<String>) -> Seq<Seq<char>> {
    v.map_values(|s: String| s@)
}

/// Splits `s` into its lines (see [`lines`]).
pub fn split_lines(s: &str) -> (r: Vec<String>)
    ensures
        views(r@) == lines(s@),
{
    let n = s.unicode_len();
    let mut r: Vec<String> = Vec::new();
    let mut start: usize = 0;
    let mut i: usize = 0;
    while i < n
        invariant
            n == s@.len(),
            start <= i <= n,
            split_acc(s@.subrange(0, i as int)) == (views(r@), s@.subrange(start as int, i as int)),
        decreases n - i,
    {
        let c = s.get_char(i);
        assert(s@.subrange(0, i + 1).drop_last() =~= s@.subrange(0, i as int));
        if c == '\n' {
            let line = s.substring_char(start, i).to_owned();
            let ghost before = r@;
            r.push(line);
            assert(views(r@) =~= views(before).push(s@.subrange(start as int, i as int)));
            start = i + 1;
        } else {
            assert(s@.subrange(start as int, i + 1) =~= s@.subrange(start as int, i as int).push(c));
        }
        i = i + 1;
    }
    assert(s@.subrange(0, n as int) =~= s@);
    if start < n {
        let line = s.substring_char(start, n).to_owned();
        let ghost before = r@;
        r.push(line);
        assert(views(r@) =~= views(before).push(s@.subrange(start as int, n as int)));
    }
    r
}

/// The lines of `ls` whose flag in `keep` is set, each followed by a
/// newline.
pub fn join_selected_lines(ls: &Vec<String>, keep: &Vec<bool>) -> (out: String)
    requires
        ls@.len() == keep@.len(),
    ensures
        out@ == join_lines(select_lines(views(ls@), keep@)),
{
    let mut out = String::new();
    let mut i: usize = 0;
    while i < ls.len()
        invariant
            i <= ls@.len() == keep@.len(),
            out@ == join_lines(select_lines(views(ls@.subrange(0, i as int)), keep@.subrange(0, i as int))),
        decreases ls@.len() - i,
    {
        let ghost sub = views(ls@.subrange(0, i + 1));
        let ghost ks = keep@.subrange(0, i + 1);
        assert(sub.drop_last() =~= views(ls@.subrange(0, i as int)));
        assert(ks.drop_last() =~= keep@.subrange(0, i as int));
        if keep[i] {
            let ghost k = select_lines(sub.drop_last(), ks.drop_last());
            append_str(&mut out, ls[i].as_str());
            append_str(&mut out, "\n");
            proof {
                reveal_strlit("\n");
                assert(k.push(ls@[i as int]@).drop_last() =~= k);
                assert(out@ =~= join_lines(k) + ls@[i as int]@.push('\n'));
            }
        }
        i = i + 1;
    }
    assert(ls@.subrange(0, i as int) =~= ls@);
    assert(keep@.subrange(0, i as int) =~= keep@);
    out
}

/// Selecting by the pattern's verdict on each line keeps the lines on
/// which it matches.
proof fn lemma_select_by_verdict(p: Seq<char>, ls: Seq<Seq<char>>, keep: Seq<bool>)
    requires
        ls.len() == keep.len(),
        forall|i: int| 0 <= i < ls.len() ==> keep[i] == regex_finds(p, #[trigger] ls[i]),
    ensures
        select_lines(ls, keep) == kept_lines(p, ls),
    decreases ls.len(),
{
    if ls.len() > 0 {
        let l0 = ls.drop_last();
        let k0 = keep.drop_last();
        assert forall|i: int| 0 <= i < l0.len() implies k0[i] == regex_finds(p, #[trigger] l0[i]) by {
            assert(l0[i] == ls[i]);
        }
        lemma_select_by_verdict(p, l0, k0);
        assert(keep[ls.len() - 1] == regex_finds(p, ls[ls.len() - 1]));
    }
}

/// The lines of `source` on which `re` matches, each with a newline.
fn filter_lines(re: &Pattern, source: &str) -> (out: String)
    ensures
        out@ == filter_spec(re@, source@),
{
    let ls = split_lines(source);
    let mut keep: Vec<bool> = Vec::new();
    let mut i: usize = 0;
    while i < ls.len()
        invariant
            i <= ls@.len(),
            keep@.len() == i,
            forall|j: int| 0 <= j < i ==> keep@[j] == regex_finds(re@, #[trigger] ls@[j]@),
        decreases ls@.len() - i,
    {
        keep.push(re.is_match(ls[i].as_str()));
        i = i + 1;
    }
    proof {
        let vs = views(ls@);
        assert forall|j: int| 0 <= j < vs.len() implies keep@[j] == regex_finds(re@, #[trigger] vs[j]) by {
            assert(vs[j] == ls@[j]@);
        }
        lemma_select_by_verdict(re@, vs, keep@);
    }
    join_selected_lines(&ls, &keep)
}

/// The matched texts joined by the separator, or the placeholder when
/// there are none.
pub fn join_matches(found: &Vec<String>) -> (out: String)
    ensures
        out@ == if found@.len() == 0 {
            NO_MATCHES@
        } else {
            join_with(views(found@), MATCH_SEPARATOR@)
        },
{
    let ghost texts = views(found@);
    if found.len() == 0 {
        return NO_MATCHES.to_owned();
    }
    let mut out = found[0].clone();
    let mut i: usize = 1;
    while i < found.len()
        invariant
            1 <= i <= found@.len(),
            texts == views(found@),
            out@ == join_with(texts.subrange(0, i as int), MATCH_SEPARATOR@),
        decreases found@.len() - i,
    {
        append_str(&mut out, MATCH_SEPARATOR);
        append_str(&mut out, found[i].as_str());
        assert(texts.subrange(0, i + 1).drop_last() =~= texts.subrange(0, i as int));
        i = i + 1;
    }
    assert(texts.subrange(0, i as int) =~= texts);
    out
}

/// The matched texts joined by the separator, or the placeholder.
fn extract_matches(re: &Pattern, source: &str) -> (out: String)
    ensures
        out@ == extract_spec(re@, source@),
{
    let found = re.find_all(source);
    join_matches(&found)
}

/// The output shown for a pattern that does not compile: the engine's
/// diagnostic `msg` after [`ERROR_PREFIX`].
pub fn error_output(msg: &str) -> (out: String)
    ensures
        out@ == ERROR_PREFIX@ + msg@,
        is_error_text(out@),
{
    let mut out = ERROR_PREFIX.to_owned();
    append_str(&mut out, msg);
    assert(out@.subrange(0, ERROR_PREFIX@.len() as int) =~= ERROR_PREFIX@);
    out
}

/// Derives the preview output from the source, the pattern and the
/// replacement. An empty pattern shows the source as it is; a pattern that
/// does not compile shows the engine's diagnostic after [`ERROR_PREFIX`]; a
/// non-empty replacement substitutes every match; otherwise the matches are
/// shown as `view` says.
pub fn transform(source: &str, pattern: &str, replacement: &str, view: MatchView) -> (out: String)
    ensures
        transform_spec(source@, pattern@, replacement@, view, out@),
{
    if pattern.unicode_len() == 0 {
        return source.to_owned();
    }
    let re = match compile(pattern) {
        Ok(r) => r,
        Err(e) => {
            return error_output(error_message(&e).as_str());
        },
    };
    if replacement.unicode_len() > 0 {
        re.replace_all(source, replacement)
    } else {
        match view {
            MatchView::Lines => filter_lines(&re, source),
            MatchView::Extract => extract_matches(&re, source),
        }
    }
}

/// Every kept line matches, and is newline-free when the input lines are.
proof fn lemma_kept_lines_match(p: Seq<char>, ls: Seq<Seq<char>>)
    requires
        forall|i: int| 0 <= i < ls.len() ==> single_line(#[trigger] ls[i]),
    ensures
        forall|i: int|
            0 <= i < kept_lines(p, ls).len() ==> regex_finds(p, #[trigger] kept_lines(p, ls)[i])
                && single_line(kept_lines(p, ls)[i]),
    decreases ls.len(),
{
    if ls.len() > 0 {
        let init = ls.drop_last();
        assert forall|i: int| 0 <= i < init.len() implies single_line(#[trigger] init[i]) by {
            assert(init[i] == ls[i]);
        }
        lemma_kept_lines_match(p, init);
        assert(single_line(ls[ls.len() - 1]));
        let rest = kept_lines(p, init);
        let k = kept_lines(p, ls);
        assert forall|i: int| 0 <= i < k.len() implies regex_finds(p, #[trigger] k[i])
            && single_line(k[i]) by {
            if i < rest.len() {
                assert(k[i] == rest[i]);
            }
        }
    }
}

/// Keeping the matching lines of lines that all match keeps them all.
proof fn lemma_kept_lines_all(p: Seq<char>, ls: Seq<Seq<char>>)
    requires
        forall|i: int| 0 <= i < ls.len() ==> regex_finds(p, #[trigger] ls[i]),
    ensures
        kept_lines(p, ls) == ls,
    decreases ls.len(),
{
    if ls.len() == 0 {
        assert(ls =~= Seq::<Seq<char>>::empty());
    } else {
        let init = ls.drop_last();
        assert forall|i: int| 0 <= i < init.len() implies regex_finds(p, #[trigger] init[i]) by {
            assert(init[i] == ls[i]);
        }
        lemma_kept_lines_all(p, init);
        assert(regex_finds(p, ls[ls.len() - 1]));
        assert(init.push(ls.last()) =~= ls);
    }
}

/// Line filtering is idempotent: filtering its own output with the same
/// pattern gives that output again.
pub proof fn lemma_filter_idempotent(p: Seq<char>, s: Seq<char>)
    ensures
        filter_spec(p, filter_spec(p, s)) == filter_spec(p, s),
{
    let ls = lines(s);
    lemma_lines_single(s);
    lemma_kept_lines_match(p, ls);
    let k = kept_lines(p, ls);
    lemma_lines_of_join(k);
    lemma_kept_lines_all(p, k);
}

/// An empty pattern leaves the source as it is, whatever the replacement
/// and the view.
pub proof fn lemma_empty_pattern_identity(s: Seq<char>, r: Seq<char>, view: MatchView, out: Seq<char>)
    requires
        transform_spec(s, Seq::empty(), r, view, out),
    ensures
        out == s,
{
}

/// A non-empty pattern that the engine refuses yields an output that starts
/// with the error prefix.
pub proof fn lemma_invalid_pattern_reports(
    s: Seq<char>,
    p: Seq<char>,
    r: Seq<char>,
    view: MatchView,
    out: Seq<char>,
)
    requires
        p.len() > 0,
        !regex_accepts(p),
        transform_spec(s, p, r, view, out),
    ensures
        is_error_text(out),
{
}

/// Substituting with a pattern that matches nowhere in the source gives the
/// source back unchanged.
pub proof fn lemma_substitution_without_match(
    s: Seq<char>,
    p: Seq<char>,
    r: Seq<char>,
    view: MatchView,
    out: Seq<char>,
)
    requires
        regex_accepts(p),
        !regex_finds(p, s),
        r.len() > 0,
        transform_spec(s, p, r, view, out),
    ensures
        out == s,
{
}

/// In line view without replacement, transforming the output again with
/// the same pattern gives the same output.
pub proof fn lemma_line_view_idempotent(
    s: Seq<char>,
    p: Seq<char>,
    r: Seq<char>,
    out: Seq<char>,
    again: Seq<char>,
)
    requires
        regex_accepts(p),
        r.len() == 0,
        transform_spec(s, p, r, MatchView::Lines, out),
        transform_spec(out, p, r, MatchView::Lines, again),
    ensures
        again == out,
{
    if p.len() > 0 {
        lemma_filter_idempotent(p, s);
    }
}

/// With no match, the output is the same fixed value every time: line view
/// shows nothing when no line matches, and extraction view shows the
/// placeholder when the source holds no match.
pub proof fn lemma_no_match_outputs(s: Seq<char>, p: Seq<char>)
    ensures
        (forall|i: int| 0 <= i < lines(s).len() ==> !regex_finds(p, #[trigger] lines(s)[i]))
            ==> filter_spec(p, s) == Seq::<char>::empty(),
        !regex_finds(p, s) ==> extract_spec(p, s) == NO_MATCHES@,
{
    if forall|i: int| 0 <= i < lines(s).len() ==> !regex_finds(p, #[trigger] lines(s)[i]) {
        lemma_kept_none(p, lines(s));
    }
}

/// Keeping the matching lines of lines none of which match keeps none.
proof fn lemma_kept_none(p: Seq<char>, ls: Seq<Seq<char>>)
    requires
        forall|i: int| 0 <= i < ls.len() ==> !regex_finds(p, #[trigger] ls[i]),
    ensures
        kept_lines(p, ls) == Seq::<Seq<char>>::empty(),
    decreases ls.len(),
{
    if ls.len() > 0 {
        let init = ls.drop_last();
        assert forall|i: int| 0 <= i < init.len() implies !regex_finds(p, #[trigger] init[i]) by {
            assert(init[i] == ls[i]);
        }
        lemma_kept_none(p, init);
        assert(!regex_finds(p, ls[ls.len() - 1]));
    }
}

} // verus!
