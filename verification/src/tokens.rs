use vstd::prelude::*;
use vstd::string::StrSliceExecFns;

verus! {

/// A character counts as whitespace for token splitting: the characters
/// with the Unicode `White_Space` property, which is what delimits the
/// fields of an attribute string.
pub open spec fn is_space_char(c: char) -> bool {
    c == ' ' || c == '\t' || c == '\n' || c == '\r' || c == '\u{b}' || c == '\u{c}' || c == '\u{85}'
        || c == '\u{a0}' || c == '\u{1680}' || ('\u{2000}' <= c && c <= '\u{200a}') || c
        == '\u{2028}' || c == '\u{2029}' || c == '\u{202f}' || c == '\u{205f}' || c == '\u{3000}'
}

/// Executable whitespace test, equal to `is_space_char` by construction.
pub fn is_space(c: char) -> (r: bool)
    ensures
        r == is_space_char(c),
{
    c == ' ' || c == '\t' || c == '\n' || c == '\r' || c == '\u{b}' || c == '\u{c}' || c == '\u{85}'
        || c == '\u{a0}' || c == '\u{1680}' || ('\u{2000}' <= c && c <= '\u{200a}') || c
        == '\u{2028}' || c == '\u{2029}' || c == '\u{202f}' || c == '\u{205f}' || c == '\u{3000}'
}

/// Length of the maximal non-whitespace prefix of `s`.
pub open spec fn token_len(s: Seq<char>) -> nat
    decreases s.len(),
{
    if s.len() == 0 || is_space_char(s[0]) {
        0
    } else {
        (1 + token_len(s.skip(1))) as nat
    }
}

pub proof fn lemma_token_len_bound(s: Seq<char>)
    ensures
        token_len(s) <= s.len(),
    decreases s.len(),
{
    if s.len() > 0 && !is_space_char(s[0]) {
        lemma_token_len_bound(s.skip(1));
    }
}

/// The whitespace-separated tokens of `s`, in order, each non-empty.
pub open spec fn split_ws(s: Seq<char>) -> Seq<Seq<char>>
    decreases s.len(),
    via split_ws_decreases
{
    if s.len() == 0 {
        Seq::empty()
    } else if is_space_char(s[0]) {
        split_ws(s.skip(1))
    } else {
        seq![s.take(token_len(s) as int)] + split_ws(s.skip(token_len(s) as int))
    }
}

#[via_fn]
proof fn split_ws_decreases(s: Seq<char>) {
    if s.len() > 0 && !is_space_char(s[0]) {
        lemma_token_len_bound(s);
    }
}

/// The views of a vector of owned strings.
pub open spec fn views_of(v: Seq<String>) -> Seq<Seq<char>> {
    v.map_values(|t: String| t@)
}

fn token_len_exec(s: &str) -> (n: usize)
    ensures
        n == token_len(s@),
    decreases s@.len(),
{
    let len = s.unicode_len();
    if len == 0 {
        0
    } else if is_space(s.get_char(0)) {
        0
    } else {
        let rest = s.substring_char(1, len);
        proof {
            assert(rest@ =~= s@.skip(1));
            lemma_token_len_bound(rest@);
        }
        let r = token_len_exec(rest);
        r + 1
    }
}

/// Splits `s` at whitespace into its non-empty tokens, in order.
pub fn split_whitespace_tokens(s: &str) -> (toks: Vec<String>)
    ensures
        views_of(toks@) == split_ws(s@),
    decreases s@.len(),
{
    let len = s.unicode_len();
    if len == 0 {
        let v: Vec<String> = Vec::new();
        proof {
            assert(views_of(v@) =~= split_ws(s@));
        }
        v
    } else if is_space(s.get_char(0)) {
        let rest = s.substring_char(1, len);
        proof {
            assert(rest@ =~= s@.skip(1));
        }
        split_whitespace_tokens(rest)
    } else {
        let k = token_len_exec(s);
        proof {
            lemma_token_len_bound(s@);
        }
        let tok: String = s.substring_char(0, k).to_owned();
        let rest = s.substring_char(k, len);
        proof {
            assert(rest@ =~= s@.skip(k as int));
        }
        let mut v = split_whitespace_tokens(rest);
        v.insert(0, tok);
        proof {
            assert(tok@ =~= s@.take(k as int));
            assert(views_of(v@) =~= split_ws(s@));
        }
        v
    }
}

} // verus!
