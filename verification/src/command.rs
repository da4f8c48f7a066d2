//! Cleaning the text of a command and splitting it into words.
use crate::patterns::{regex_replace_all, regex_replace_all_result};
use crate::text::{
    chars_of, copy_chars, is_ws, lemma_remove_all_keeps_absent, lemma_remove_char_absent,
    lemma_words_absent, lemma_words_shape, remove_all, remove_all_chars, split_words,
    string_from_chars, trim, trim_chars, words,
};
use vstd::prelude::*;

verus! {

/// The pattern of an opening `<pre ...>` tag, which purifying removes.
pub const PRE_TAG_PATTERN: &'static str = "<pre[^>]*>";

/// The markup that purifying removes, in the order in which it is removed.
pub open spec fn markup_tokens() -> Seq<Seq<char>> {
    seq![
        "*"@,
        "`"@,
        "~"@,
        "<b>"@,
        "</b>"@,
        "<strong>"@,
        "</strong>"@,
        "<i>"@,
        "</i>"@,
        "<em>"@,
        "</em>"@,
        "<code>"@,
        "</code>"@,
        "<s>"@,
        "</s>"@,
        "<strike>"@,
        "</strike>"@,
        "<del>"@,
        "</del>"@,
        "<u>"@,
        "</u>"@,
        "</pre>"@,
    ]
}

fn markup_token_list() -> (r: Vec<&'static str>)
    ensures
        r@.map_values(|t: &str| t@) == markup_tokens(),
{
    let r = vec![
        "*",
        "`",
        "~",
        "<b>",
        "</b>",
        "<strong>",
        "</strong>",
        "<i>",
        "</i>",
        "<em>",
        "</em>",
        "<code>",
        "</code>",
        "<s>",
        "</s>",
        "<strike>",
        "</strike>",
        "<del>",
        "</del>",
        "<u>",
        "</u>",
        "</pre>",
    ];
    assert(r@.map_values(|t: &str| t@) =~= markup_tokens());
    r
}

/// `s` with every occurrence of each token removed, one token after the other.
pub open spec fn remove_each(s: Seq<char>, tokens: Seq<Seq<char>>) -> Seq<char>
    decreases tokens.len(),
{
    if tokens.len() == 0 {
        s
    } else {
        remove_each(remove_all(s, tokens[0]), tokens.drop_first())
    }
}

/// The trimmed text with all markup tokens removed: purifying before the `<pre ...>` tags go.
pub open spec fn strip_markup(s: Seq<char>) -> Seq<char> {
    remove_each(trim(s), markup_tokens())
}

/// What `purify` gives: the text stripped of markup and then of every `<pre ...>` tag.
pub open spec fn purified(s: Seq<char>) -> Seq<char> {
    match regex_replace_all_result(PRE_TAG_PATTERN@, strip_markup(s), ""@) {
        Some(t) => t,
        None => strip_markup(s),
    }
}

/// No `*`, backtick or `~` is left in `s`.
pub open spec fn free_of_markup_chars(s: Seq<char>) -> bool {
    !s.contains('*') && !s.contains('`') && !s.contains('~')
}

/// Removing each token in turn leaves `c` absent when it was absent to begin with, or when
/// one of the tokens is `c` alone.
proof fn lemma_remove_each_absent(s: Seq<char>, tokens: Seq<Seq<char>>, c: char)
    requires
        !s.contains(c) || tokens.contains(seq![c]),
    ensures
        !remove_each(s, tokens).contains(c),
    decreases tokens.len(),
{
    if tokens.len() > 0 {
        let s1 = remove_all(s, tokens[0]);
        let rest = tokens.drop_first();
        if tokens[0] == seq![c] {
            lemma_remove_char_absent(s, c);
        } else if !s.contains(c) {
            lemma_remove_all_keeps_absent(s, tokens[0], c);
        }
        if !s1.contains(c) {
            lemma_remove_each_absent(s1, rest, c);
        } else {
            let k = choose|k: int| 0 <= k < tokens.len() && tokens[k] == seq![c];
            assert(k > 0);
            assert(rest[k - 1] == tokens[k]);
            lemma_remove_each_absent(s1, rest, c);
        }
    }
}

/// Stripping the markup leaves no `*`, backtick or `~`.
pub proof fn lemma_strip_markup_free(s: Seq<char>)
    ensures
        free_of_markup_chars(strip_markup(s)),
{
    reveal_strlit("*");
    reveal_strlit("`");
    reveal_strlit("~");
    let m = markup_tokens();
    assert(m[0] == seq!['*']);
    assert(m[1] == seq!['`']);
    assert(m[2] == seq!['~']);
    lemma_remove_each_absent(trim(s), m, '*');
    lemma_remove_each_absent(trim(s), m, '`');
    lemma_remove_each_absent(trim(s), m, '~');
}

/// Trims `text` and removes the formatting markup that Telegram adds to a message.
/// (When the `<pre ...>` pattern does not compile, which it always does, that last
/// step is skipped.)
pub fn purify_text(text: &str) -> (r: String)
    ensures
        r@ == purified(text@),
        free_of_markup_chars(r@),
{
    let src = chars_of(text);
    let mut cur = trim_chars(&src);
    let tokens = markup_token_list();
    let mut i: usize = 0;
    assert(markup_tokens().skip(0) =~= markup_tokens());
    while i < tokens.len()
        invariant
            i <= tokens.len(),
            tokens@.map_values(|t: &str| t@) == markup_tokens(),
            strip_markup(text@) == remove_each(cur@, markup_tokens().skip(i as int)),
        decreases tokens.len() - i,
    {
        let pat = chars_of(tokens[i]);
        assert(markup_tokens().skip(i as int)[0] == pat@);
        assert(markup_tokens().skip(i as int).drop_first() =~= markup_tokens().skip(i + 1));
        cur = remove_all_chars(&cur, &pat);
        i = i + 1;
    }
    assert(markup_tokens().skip(i as int) =~= Seq::<Seq<char>>::empty());
    let base = string_from_chars(cur);
    proof {
        lemma_strip_markup_free(text@);
        reveal_strlit("");
    }
    match regex_replace_all(PRE_TAG_PATTERN, base.as_str(), "") {
        Some(t) => {
            assert(free_of_markup_chars(t@)) by {
                if t@.contains('*') {
                    let i = choose|i: int| 0 <= i < t@.len() && t@[i] == '*';
                    assert(base@.contains(t@[i]));
                }
                if t@.contains('`') {
                    let i = choose|i: int| 0 <= i < t@.len() && t@[i] == '`';
                    assert(base@.contains(t@[i]));
                }
                if t@.contains('~') {
                    let i = choose|i: int| 0 <= i < t@.len() && t@[i] == '~';
                    assert(base@.contains(t@[i]));
                }
            }
            t
        },
        None => base,
    }
}

/// Text that can be purified of markup.
pub trait TextExt {
    /// The characters of the text.
    spec fn text_view(&self) -> Seq<char>;

    /// The text trimmed and without formatting markup.
    fn purify(&self) -> (r: String)
        ensures
            r@ == purified(self.text_view()),
            free_of_markup_chars(r@),
    ;
}

impl TextExt for str {
    open spec fn text_view(&self) -> Seq<char> {
        self@
    }

    fn purify(&self) -> (r: String) {
        purify_text(self)
    }
}

impl TextExt for String {
    open spec fn text_view(&self) -> Seq<char> {
        self@
    }

    fn purify(&self) -> (r: String) {
        purify_text(self.as_str())
    }
}

/// The whitespace-separated words of `text`, as `str::split_whitespace` gives them.
pub fn words_of(text: &str) -> (r: Vec<String>)
    ensures
        r@.map_values(|s: String| s@) == words(text@),
{
    let v = chars_of(text);
    let parts = split_words(&v);
    let ghost all = parts@.map_values(|p: Vec<char>| p@);
    let mut out: Vec<String> = Vec::new();
    let n = parts.len();
    let mut i: usize = 0;
    while i < n
        invariant
            i <= n,
            parts.len() == n,
            all.len() == n,
            all == words(text@),
            forall|k: int| i <= k < n ==> #[trigger] parts@[k]@ == all[k],
            out@.map_values(|s: String| s@) == all.take(i as int),
        decreases n - i,
    {
        let p = copy_chars(&parts[i]);
        assert(p@ == all[i as int]);
        let ghost prev = out@;
        let word = string_from_chars(p);
        out.push(word);
        assert(out@.map_values(|s: String| s@) =~= prev.map_values(|s: String| s@).push(word@));
        assert(all.take(i + 1) =~= all.take(i as int).push(all[i as int]));
        i = i + 1;
    }
    assert(all.take(n as int) =~= all);
    out
}

/// Splits a command into its words, after purifying it of markup.
pub fn cmd_parser(cmd: &str) -> (r: Vec<String>)
    ensures
        r@.map_values(|s: String| s@) == words(purified(cmd@)),
        forall|i: int|
            0 <= i < r@.len() ==> #[trigger] r@[i]@.len() > 0 && free_of_markup_chars(r@[i]@)
                && forall|k: int| 0 <= k < r@[i]@.len() ==> !is_ws(#[trigger] r@[i]@[k]),
{
    let clean = purify_text(cmd);
    let r = words_of(clean.as_str());
    proof {
        let w = words(clean@);
        lemma_words_shape(clean@);
        lemma_words_absent(clean@, '*');
        lemma_words_absent(clean@, '`');
        lemma_words_absent(clean@, '~');
        assert forall|i: int| 0 <= i < r@.len() implies #[trigger] r@[i]@.len() > 0
            && free_of_markup_chars(r@[i]@) && forall|k: int| 0 <= k < r@[i]@.len() ==> !is_ws(
            #[trigger] r@[i]@[k],
        ) by {
            assert(r@.map_values(|s: String| s@)[i] == r@[i]@);
            assert(w[i] == r@[i]@);
        }
    }
    r
}

} // verus!
