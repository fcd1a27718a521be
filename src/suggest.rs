//! Talking to the suggestion provider: the prompt handed to it, the
//! cleaning of its reply, and how the reply changes the session.
use vstd::prelude::*;
use vstd::string::*;
use crate::editor::App;
use crate::text::{append_str, push_char};

verus! {

/// The characters of Unicode's `White_Space` property.
pub open spec fn is_white_space(c: char) -> bool {
    ('\t' <= c && c <= '\r') || c == ' ' || c == '\u{85}' || c == '\u{a0}' || c == '\u{1680}'
        || ('\u{2000}' <= c && c <= '\u{200a}') || c == '\u{2028}' || c == '\u{2029}'
        || c == '\u{202f}' || c == '\u{205f}' || c == '\u{3000}'
}

/// Whether `c` is white space.
pub fn white_space(c: char) -> (r: bool)
    ensures
        r == is_white_space(c),
{
    ('\t' <= c && c <= '\r') || c == ' ' || c == '\u{85}' || c == '\u{a0}' || c == '\u{1680}'
        || ('\u{2000}' <= c && c <= '\u{200a}') || c == '\u{2028}' || c == '\u{2029}'
        || c == '\u{202f}' || c == '\u{205f}' || c == '\u{3000}'
}

/// `s` without its leading white space.
pub open spec fn trim_start(s: Seq<char>) -> Seq<char>
    decreases s.len(),
{
    if s.len() > 0 && is_white_space(s[0]) {
        trim_start(s.drop_first())
    } else {
        s
    }
}

/// `s` without its trailing white space.
pub open spec fn trim_end(s: Seq<char>) -> Seq<char>
    decreases s.len(),
{
    if s.len() > 0 && is_white_space(s.last()) {
        trim_end(s.drop_last())
    } else {
        s
    }
}

/// `s` without leading and trailing white space.
pub open spec fn trim(s: Seq<char>) -> Seq<char> {
    trim_end(trim_start(s))
}

/// `s` with every occurrence of `pat` removed, scanning from the left
/// without overlap.
pub open spec fn remove_all(s: Seq<char>, pat: Seq<char>) -> Seq<char>
    decreases s.len(),
{
    if s.len() == 0 {
        s
    } else if 0 < pat.len() <= s.len() && s.subrange(0, pat.len() as int) == pat {
        remove_all(s.subrange(pat.len() as int, s.len() as int), pat)
    } else {
        seq![s[0]] + remove_all(s.drop_first(), pat)
    }
}

/// Copies `s` into a new string.
fn owned(s: &str) -> (r: String)
    ensures
        r@ == s@,
{
    s.to_owned()
}

/// `s` without leading and trailing white space.
pub fn trim_text(s: &str) -> (r: String)
    ensures
        r@ == trim(s@),
{
    let n = s.unicode_len();
    let mut i: usize = 0;
    assert(s@.subrange(0, n as int) =~= s@);
    while i < n && white_space(s.get_char(i))
        invariant
            n == s@.len(),
            i <= n,
            trim_start(s@) == trim_start(s@.subrange(i as int, n as int)),
        decreases n - i,
    {
        assert(s@.subrange(i as int, n as int).drop_first() =~= s@.subrange(i + 1, n as int));
        i = i + 1;
    }
    let ghost t = s@.subrange(i as int, n as int);
    assert(trim_start(s@) == t);
    let mut j: usize = n;
    while j > i && white_space(s.get_char(j - 1))
        invariant
            n == s@.len(),
            i <= j <= n,
            t == s@.subrange(i as int, n as int),
            trim_end(t) == trim_end(s@.subrange(i as int, j as int)),
        decreases j,
    {
        assert(s@.subrange(i as int, j as int).drop_last() =~= s@.subrange(i as int, j - 1));
        j = j - 1;
    }
    owned(s.substring_char(i, j))
}

/// Whether `pat` occurs in `s` at position `i`.
fn occurs_at(s: &str, i: usize, pat: &str) -> (r: bool)
    requires
        i <= s@.len(),
    ensures
        r == (i + pat@.len() <= s@.len() && s@.subrange(i as int, i + pat@.len()) == pat@),
{
    let n = s.unicode_len();
    let m = pat.unicode_len();
    if m > n - i {
        return false;
    }
    let mut k: usize = 0;
    while k < m
        invariant
            n == s@.len(),
            m == pat@.len(),
            i + m <= n,
            k <= m,
            s@.subrange(i as int, i + k) == pat@.subrange(0, k as int),
        decreases m - k,
    {
        if s.get_char(i + k) != pat.get_char(k) {
            assert(s@.subrange(i as int, i + m)[k as int] != pat@[k as int]);
            return false;
        }
        assert(s@.subrange(i as int, i + k + 1) =~= pat@.subrange(0, k + 1));
        k = k + 1;
    }
    assert(pat@.subrange(0, m as int) =~= pat@);
    true
}

/// `s` with every occurrence of the non-empty `pat` removed.
pub fn remove_text(s: &str, pat: &str) -> (r: String)
    requires
        pat@.len() > 0,
    ensures
        r@ == remove_all(s@, pat@),
{
    let n = s.unicode_len();
    let m = pat.unicode_len();
    let mut out = String::new();
    let mut i: usize = 0;
    assert(s@.subrange(0, n as int) =~= s@);
    assert(out@ + remove_all(s@, pat@) =~= remove_all(s@, pat@));
    while i < n
        invariant
            n == s@.len(),
            m == pat@.len(),
            m > 0,
            i <= n,
            out@ + remove_all(s@.subrange(i as int, n as int), pat@) == remove_all(s@, pat@),
        decreases n - i,
    {
        let ghost rest = s@.subrange(i as int, n as int);
        if occurs_at(s, i, pat) {
            assert(rest.subrange(0, m as int) =~= s@.subrange(i as int, i + m));
            assert(rest.subrange(m as int, rest.len() as int) =~= s@.subrange(i + m, n as int));
            i = i + m;
        } else {
            let c = s.get_char(i);
            proof {
                if m <= rest.len() {
                    assert(rest.subrange(0, m as int) =~= s@.subrange(i as int, i + m));
                }
                assert(rest.drop_first() =~= s@.subrange(i + 1, n as int));
            }
            let ghost before = out@;
            push_char(&mut out, c);
            assert(before + (seq![c] + remove_all(s@.subrange(i + 1, n as int), pat@)) =~= out@
                + remove_all(s@.subrange(i + 1, n as int), pat@));
            i = i + 1;
        }
    }
    assert(s@.subrange(n as int, n as int) =~= Seq::<char>::empty());
    out
}

/// Code-fence markers and backticks stripped from a reply, in this order.
pub const FENCE_REGEX: &'static str = "```regex";

pub const FENCE: &'static str = "```";

pub const BACKTICK: &'static str = "`";

/// A trimmed reply with the markdown markers removed and trimmed again.
pub open spec fn clean_spec(t: Seq<char>) -> Seq<char> {
    trim(remove_all(remove_all(remove_all(t, FENCE_REGEX@), FENCE@), BACKTICK@))
}

/// Turns a trimmed reply into a candidate pattern: removes the code-fence
/// markers and backticks, then trims.
pub fn clean_suggestion(t: &str) -> (r: String)
    ensures
        r@ == clean_spec(t@),
{
    proof {
        reveal_strlit("```regex");
        reveal_strlit("```");
        reveal_strlit("`");
    }
    let a = remove_text(t, FENCE_REGEX);
    let b = remove_text(a.as_str(), FENCE);
    let c = remove_text(b.as_str(), BACKTICK);
    trim_text(c.as_str())
}

/// The opening, middle and closing parts of the prompt.
pub const PROMPT_HEAD: &'static str = "Give me ONLY the regex pattern (no text, no backticks, no markdown) to match or extract this: '";

pub const PROMPT_MID: &'static str = "' in the text: '";

pub const PROMPT_TAIL: &'static str = "'.";

/// Status after a suggestion became the pattern.
pub const STATUS_APPLIED: &'static str = "Sugerencia aplicada!";

/// Status after an empty reply.
pub const STATUS_EMPTY: &'static str = "Gemini devolvió vacío.";

/// Put before the reason when the provider could not be run.
pub const STATUS_UNREACHABLE: &'static str = "Error de ejecución: ";

/// Put before the provider's error output when it failed.
pub const STATUS_FAILED: &'static str = "Gemini Error: ";

/// How many characters of the provider's error output are shown.
pub const ERROR_EXCERPT: usize = 30;

/// What came back from the suggestion provider.
pub enum SuggestionReply {
    /// It ran and succeeded; its output, as text.
    Answered(String),
    /// It ran and failed; its error output, as text.
    Failed(String),
    /// It could not be run; the reason.
    Unreachable(String),
}

/// The first `k` characters of `s`, or all of them when there are fewer.
pub open spec fn excerpt(s: Seq<char>, k: nat) -> Seq<char> {
    if s.len() <= k {
        s
    } else {
        s.subrange(0, k as int)
    }
}

impl App {
    /// The prompt handed to the suggestion provider: the pattern as the
    /// user's guidance and the source as context.
    pub fn suggestion_prompt(&self) -> (r: String)
        ensures
            r@ == PROMPT_HEAD@ + self.regex_input@ + PROMPT_MID@ + self.source_text@ + PROMPT_TAIL@,
    {
        let mut r = PROMPT_HEAD.to_owned();
        append_str(&mut r, self.regex_input.as_str());
        append_str(&mut r, PROMPT_MID);
        append_str(&mut r, self.source_text.as_str());
        append_str(&mut r, PROMPT_TAIL);
        r
    }

    /// Takes the provider's reply. A non-empty answer, cleaned, becomes the
    /// pattern and the output is recomputed; an empty answer or a failure
    /// only sets the status line.
    pub fn finish_suggestion(&mut self, reply: SuggestionReply)
        ensures
            final(self).source_text@ == old(self).source_text@,
            final(self).replace_input@ == old(self).replace_input@,
            final(self).input_mode == old(self).input_mode,
            final(self).view == old(self).view,
            match reply {
                SuggestionReply::Answered(out) => if trim(out@).len() == 0 {
                    &&& final(self).status_message@ == STATUS_EMPTY@
                    &&& final(self).regex_input@ == old(self).regex_input@
                    &&& final(self).output_text@ == old(self).output_text@
                } else {
                    &&& final(self).status_message@ == STATUS_APPLIED@
                    &&& final(self).regex_input@ == clean_spec(trim(out@))
                    &&& final(self).wf()
                },
                SuggestionReply::Failed(err) => {
                    &&& final(self).status_message@ == STATUS_FAILED@ + excerpt(
                        err@,
                        ERROR_EXCERPT as nat,
                    )
                    &&& final(self).regex_input@ == old(self).regex_input@
                    &&& final(self).output_text@ == old(self).output_text@
                },
                SuggestionReply::Unreachable(why) => {
                    &&& final(self).status_message@ == STATUS_UNREACHABLE@ + why@
                    &&& final(self).regex_input@ == old(self).regex_input@
                    &&& final(self).output_text@ == old(self).output_text@
                },
            },
            old(self).wf() ==> final(self).wf(),
    {
        match reply {
            SuggestionReply::Answered(out) => {
                let t = trim_text(out.as_str());
                if t.unicode_len() == 0 {
                    self.status_message = STATUS_EMPTY.to_owned();
                } else {
                    self.regex_input = clean_suggestion(t.as_str());
                    self.status_message = STATUS_APPLIED.to_owned();
                    self.apply_transform();
                }
            },
            SuggestionReply::Failed(err) => {
                let n = err.unicode_len();
                let k = if n <= ERROR_EXCERPT {
                    n
                } else {
                    ERROR_EXCERPT
                };
                let mut status = STATUS_FAILED.to_owned();
                append_str(&mut status, err.as_str().substring_char(0, k));
                proof {
                    assert(err@.subrange(0, n as int) =~= err@);
                }
                self.status_message = status;
            },
            SuggestionReply::Unreachable(why) => {
                let mut status = STATUS_UNREACHABLE.to_owned();
                append_str(&mut status, why.as_str());
                self.status_message = status;
            },
        }
    }
}

} // verus!
