//! The plain template language that token templates are written in: text with
//! `{{ .. }}` substitutions and `{% if %}` / `{% elif %}` / `{% else %}` / `{% endif %}`
//! statements, each tag short and made of words, with a bounded number of statements.
//! Templates outside it are refused before they reach the template engine.
use crate::text::{
    chars_of, eq_str, is_ascii_alnum, starts_with, starts_with_str, sub_chars, trim, trim_chars,
};
use vstd::prelude::*;

verus! {

/// The most statement tags (`{% .. %}`) that a plain template holds.
pub const MAX_STATEMENT_TAGS: usize = 64;

/// The longest body of a tag of a plain template, in characters.
pub const MAX_TAG_BODY: usize = 64;

/// A character that may stand inside a tag: an ASCII letter or digit, `_`, a space,
/// `.` or `|`.
pub open spec fn is_tag_char(c: char) -> bool {
    is_ascii_alnum(c) || c == '_' || c == ' ' || c == '.' || c == '|'
}

/// Decides [`is_tag_char`].
fn is_tag_char_exec(c: char) -> (r: bool)
    ensures
        r == is_tag_char(c),
{
    ('a' <= c && c <= 'z') || ('A' <= c && c <= 'Z') || ('0' <= c && c <= '9') || c == '_' || c
        == ' ' || c == '.' || c == '|'
}

/// Where the run of tag characters that starts at `p` ends.
pub open spec fn tag_run_end(t: Seq<char>, p: int) -> int
    decreases t.len() - p,
{
    if 0 <= p < t.len() && is_tag_char(t[p]) {
        tag_run_end(t, p + 1)
    } else {
        p
    }
}

/// A tag opens at `i`: `{` followed by `c`.
pub open spec fn opens(t: Seq<char>, i: int, c: char) -> bool {
    0 <= i && i + 1 < t.len() && t[i] == '{' && t[i + 1] == c
}

/// The tag that opens at `i` has a body of at most [`MAX_TAG_BODY`] tag characters,
/// closed by `c` and `}`.
pub open spec fn tag_closed(t: Seq<char>, i: int, c: char) -> bool {
    let e = tag_run_end(t, i + 2);
    &&& e + 1 < t.len()
    &&& t[e] == c
    &&& t[e + 1] == '}'
    &&& e - (i + 2) <= MAX_TAG_BODY
}

/// The body of a statement tag is an `if` or `elif` with its condition, an `else` or an
/// `endif`.
pub open spec fn control_body(b: Seq<char>) -> bool {
    let w = trim(b);
    starts_with(w, "if "@) || starts_with(w, "elif "@) || w == "else"@ || w == "endif"@
}

/// What position `i` of a plain template obeys: no comment opens there, a substitution
/// that opens there is closed, and a statement that opens there is closed and is a
/// conditional.
pub open spec fn tag_ok_at(t: Seq<char>, i: int) -> bool {
    &&& !opens(t, i, '#')
    &&& opens(t, i, '{') ==> tag_closed(t, i, '}')
    &&& opens(t, i, '%') ==> tag_closed(t, i, '%') && control_body(
        t.subrange(i + 2, tag_run_end(t, i + 2)),
    )
}

/// The number of statement tags that open before position `n`.
pub open spec fn statement_count(t: Seq<char>, n: int) -> nat
    decreases n,
{
    if n <= 0 {
        0
    } else {
        statement_count(t, n - 1) + if opens(t, n - 1, '%') {
            1nat
        } else {
            0nat
        }
    }
}

/// A template in the plain language: every position obeys [`tag_ok_at`], and it holds
/// at most [`MAX_STATEMENT_TAGS`] statements.
pub open spec fn plain_template(t: Seq<char>) -> bool {
    &&& forall|i: int| 0 <= i < t.len() ==> #[trigger] tag_ok_at(t, i)
    &&& statement_count(t, t.len() as int) <= MAX_STATEMENT_TAGS
}

/// The count of statements never shrinks along the text.
proof fn lemma_statement_count_grows(t: Seq<char>, a: int, b: int)
    requires
        a <= b,
    ensures
        statement_count(t, a) <= statement_count(t, b),
    decreases b - a,
{
    if a < b {
        lemma_statement_count_grows(t, a, b - 1);
    }
}

/// The end of the run of tag characters that starts at `p`.
fn run_end(t: &Vec<char>, p: usize) -> (e: usize)
    requires
        p <= t@.len(),
    ensures
        e as int == tag_run_end(t@, p as int),
        p <= e <= t@.len(),
{
    let mut k = p;
    while k < t.len() && is_tag_char_exec(t[k])
        invariant
            p <= k <= t@.len(),
            tag_run_end(t@, k as int) == tag_run_end(t@, p as int),
        decreases t@.len() - k,
    {
        k = k + 1;
    }
    k
}

/// Decides [`plain_template`].
pub fn is_plain_template(template: &str) -> (r: bool)
    ensures
        r == plain_template(template@),
{
    let t = chars_of(template);
    let n = t.len();
    let mut count: usize = 0;
    let mut i: usize = 0;
    while i < n
        invariant
            i <= n == t@.len(),
            t@ == template@,
            count == statement_count(t@, i as int),
            count <= MAX_STATEMENT_TAGS,
            forall|k: int| 0 <= k < i ==> #[trigger] tag_ok_at(t@, k),
        decreases n - i,
    {
        if i + 1 < n && t[i] == '{' {
            let c = t[i + 1];
            if c == '#' {
                assert(!tag_ok_at(t@, i as int));
                return false;
            }
            if c == '{' || c == '%' {
                let e = run_end(&t, i + 2);
                let closer = if c == '{' {
                    '}'
                } else {
                    '%'
                };
                if !(e < n - 1 && t[e] == closer && t[e + 1] == '}' && e - (i + 2) <= MAX_TAG_BODY) {
                    assert(!tag_ok_at(t@, i as int));
                    return false;
                }
                if c == '%' {
                    let body = trim_chars(&sub_chars(&t, i + 2, e));
                    if !(starts_with_str(&body, "if ") || starts_with_str(&body, "elif ")
                        || eq_str(&body, "else") || eq_str(&body, "endif")) {
                        assert(!tag_ok_at(t@, i as int));
                        return false;
                    }
                    if count == MAX_STATEMENT_TAGS {
                        proof {
                            lemma_statement_count_grows(t@, i + 1, n as int);
                        }
                        return false;
                    }
                    count = count + 1;
                }
            }
        }
        i = i + 1;
    }
    true
}

} // verus!
