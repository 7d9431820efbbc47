//! Line-level lexing of a sway configuration: comments, tokens, quoted names.
use vstd::prelude::*;
use vstd::string::*;

use crate::text::{chars_of, index_of, index_of_char, is_ws, lemma_scan, scan, scan_chars};

verus! {

/// The part of a line before its first `#`.
pub open spec fn strip_comment_spec(line: Seq<char>) -> Seq<char> {
    line.take(index_of(line, '#', 0))
}

/// The first whitespace-delimited token of `s` and what follows it, with the
/// leading whitespace of both removed.
pub open spec fn first_token_and_rest_spec(s: Seq<char>) -> (Seq<char>, Seq<char>) {
    let a = scan(s, 0, true);
    let b = scan(s, a, false);
    let c = scan(s, b, true);
    (s.subrange(a, b), s.subrange(c, s.len() as int))
}

/// What stands between the first two `"` of `s`, if it has two.
pub open spec fn quoted_token_spec(s: Seq<char>) -> Option<Seq<char>> {
    let i = index_of(s, '"', 0);
    if i >= s.len() {
        None
    } else {
        let j = index_of(s, '"', i + 1);
        if j >= s.len() {
            None
        } else {
            Some(s.subrange(i + 1, j))
        }
    }
}

/// Removes a `#` comment from a line.
pub fn strip_comment(line: &str) -> (r: &str)
    ensures
        r@ == strip_comment_spec(line@),
{
    let v = chars_of(line);
    let i = index_of_char(&v, '#', 0);
    line.substring_char(0, i)
}

/// Splits off the first whitespace-delimited token.
pub fn first_token_and_rest(s: &str) -> (r: (&str, &str))
    ensures
        (r.0@, r.1@) == first_token_and_rest_spec(s@),
{
    let v = chars_of(s);
    let a = scan_chars(&v, 0, true);
    let b = scan_chars(&v, a, false);
    let c = scan_chars(&v, b, true);
    (s.substring_char(a, b), s.substring_char(c, v.len()))
}

/// The text between the first pair of double quotes.
pub fn quoted_token(s: &str) -> (r: Option<&str>)
    ensures
        match r {
            Some(t) => quoted_token_spec(s@) == Some(t@),
            None => quoted_token_spec(s@) is None,
        },
{
    let v = chars_of(s);
    let i = index_of_char(&v, '"', 0);
    if i >= v.len() {
        return None;
    }
    let j = index_of_char(&v, '"', i + 1);
    if j >= v.len() {
        return None;
    }
    Some(s.substring_char(i + 1, j))
}

/// The token has no whitespace, the rest starts with none, and nothing of `s`
/// but whitespace is lost.
pub proof fn lemma_first_token_and_rest(s: Seq<char>)
    ensures
        ({
            let (t, r) = first_token_and_rest_spec(s);
            &&& forall|k: int| 0 <= k < t.len() ==> !is_ws(#[trigger] t[k])
            &&& r.len() > 0 ==> !is_ws(r[0])
            &&& t.len() + r.len() <= s.len()
            &&& t.len() == 0 ==> r.len() == 0
            &&& t.len() > 0 ==> r.len() < s.len()
        }),
{
    let a = scan(s, 0, true);
    lemma_scan(s, 0, true);
    let b = scan(s, a, false);
    lemma_scan(s, a, false);
    let c = scan(s, b, true);
    lemma_scan(s, b, true);
    let (t, r) = first_token_and_rest_spec(s);
    assert forall|k: int| 0 <= k < t.len() implies !is_ws(#[trigger] t[k]) by {
        assert(t[k] == s[a + k]);
    }
    if r.len() > 0 {
        assert(r[0] == s[c]);
    }
}

} // verus!
