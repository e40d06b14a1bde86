//! Character-level text primitives shared by the parsers of this crate.
use crate::foreign::{alphanumeric, lowercase, push_char, uppercase};
use vstd::prelude::*;

verus! {

/// Unicode `White_Space` property (PropList.txt), the class that `str::trim`
/// strips and that `\s` stands for in regular expressions.
pub open spec fn is_space(c: char) -> bool {
    ||| ('\u{9}' <= c && c <= '\u{d}')
    ||| c == ' '
    ||| c == '\u{85}'
    ||| c == '\u{a0}'
    ||| c == '\u{1680}'
    ||| ('\u{2000}' <= c && c <= '\u{200a}')
    ||| c == '\u{2028}'
    ||| c == '\u{2029}'
    ||| c == '\u{202f}'
    ||| c == '\u{205f}'
    ||| c == '\u{3000}'
}

/// Decides [`is_space`].
pub fn is_space_char(c: char) -> (r: bool)
    ensures
        r == is_space(c),
{
    ('\u{9}' <= c && c <= '\u{d}') || c == ' ' || c == '\u{85}' || c == '\u{a0}' || c == '\u{1680}'
        || ('\u{2000}' <= c && c <= '\u{200a}') || c == '\u{2028}' || c == '\u{2029}' || c
        == '\u{202f}' || c == '\u{205f}' || c == '\u{3000}'
}

/// The characters of a string slice, in order.
pub fn chars_of(s: &str) -> (v: Vec<char>)
    ensures
        v@ == s@,
{
    let n = s.unicode_len();
    let mut v: Vec<char> = Vec::new();
    let mut i: usize = 0;
    while i < n
        invariant
            n == s@.len(),
            i <= n,
            v@ == s@.take(i as int),
        decreases n - i,
    {
        v.push(s.get_char(i));
        i = i + 1;
        assert(v@ =~= s@.take(i as int));
    }
    assert(v@ =~= s@);
    v
}

/// The string made of the characters `v[lo..hi]`.
pub fn string_of_range(v: &Vec<char>, lo: usize, hi: usize) -> (s: String)
    requires
        lo <= hi <= v@.len(),
    ensures
        s@ == v@.subrange(lo as int, hi as int),
{
    let mut s = String::new();
    let mut i = lo;
    while i < hi
        invariant
            lo <= i <= hi <= v@.len(),
            s@ == v@.subrange(lo as int, i as int),
        decreases hi - i,
    {
        push_char(&mut s, v[i]);
        i = i + 1;
        assert(s@ =~= v@.subrange(lo as int, i as int));
    }
    s
}

/// The string made of the characters of `v`.
pub fn string_of(v: &Vec<char>) -> (s: String)
    ensures
        s@ == v@,
{
    let s = string_of_range(v, 0, v.len());
    assert(v@.subrange(0, v@.len() as int) =~= v@);
    s
}


/// `s` with its leading white space removed.
pub open spec fn trim_start(s: Seq<char>) -> Seq<char>
    decreases s.len(),
{
    if s.len() > 0 && is_space(s[0]) {
        trim_start(s.drop_first())
    } else {
        s
    }
}

/// `s` with its trailing white space removed.
pub open spec fn trim_end(s: Seq<char>) -> Seq<char>
    decreases s.len(),
{
    if s.len() > 0 && is_space(s.last()) {
        trim_end(s.drop_last())
    } else {
        s
    }
}

/// `s` with white space removed at both ends, as `str::trim` does.
pub open spec fn trim(s: Seq<char>) -> Seq<char> {
    trim_end(trim_start(s))
}

/// `s` begins with `p`.
pub open spec fn starts_with(s: Seq<char>, p: Seq<char>) -> bool {
    p.len() <= s.len() && s.take(p.len() as int) == p
}

/// `s` ends with `p`.
pub open spec fn ends_with(s: Seq<char>, p: Seq<char>) -> bool {
    p.len() <= s.len() && s.skip(s.len() - p.len()) == p
}

/// The pieces of `s` between occurrences of `sep`, read left to right (`str::split`).
/// The last piece is the text after the last `sep` (empty when `s` ends with one).
pub open spec fn split_on(s: Seq<char>, sep: char) -> Seq<Seq<char>>
    decreases s.len(),
{
    if s.len() == 0 {
        seq![Seq::<char>::empty()]
    } else {
        let prev = split_on(s.drop_last(), sep);
        if s.last() == sep {
            prev.push(Seq::<char>::empty())
        } else {
            prev.update(prev.len() - 1, prev.last().push(s.last()))
        }
    }
}

/// Splitting always yields at least one piece.
pub proof fn lemma_split_on_nonempty(s: Seq<char>, sep: char)
    ensures
        split_on(s, sep).len() >= 1,
    decreases s.len(),
{
    if s.len() > 0 {
        lemma_split_on_nonempty(s.drop_last(), sep);
    }
}

/// Views a vector of character vectors as a sequence of character sequences.
pub open spec fn seqs_of(v: Seq<Vec<char>>) -> Seq<Seq<char>> {
    v.map_values(|l: Vec<char>| l@)
}

/// The pieces of `v` between occurrences of `sep` (as `str::split`).
pub fn split_chars(v: &Vec<char>, sep: char) -> (r: Vec<Vec<char>>)
    ensures
        seqs_of(r@) == split_on(v@, sep),
{
    let mut done: Vec<Vec<char>> = Vec::new();
    let mut cur: Vec<char> = Vec::new();
    let mut i: usize = 0;
    while i < v.len()
        invariant
            i <= v@.len(),
            seqs_of(done@).push(cur@) == split_on(v@.take(i as int), sep),
        decreases v@.len() - i,
    {
        let c = v[i];
        proof {
            assert(v@.take(i + 1).drop_last() =~= v@.take(i as int));
            lemma_split_on_nonempty(v@.take(i as int), sep);
        }
        if c == sep {
            let ghost old_done = done@;
            done.push(cur);
            cur = Vec::new();
            assert(seqs_of(done@) =~= seqs_of(old_done).push(seqs_of(done@).last()));
            assert(seqs_of(done@).push(cur@) =~= split_on(v@.take(i + 1), sep));
        } else {
            let ghost old_cur = cur@;
            cur.push(c);
            assert(seqs_of(done@).push(cur@) =~= seqs_of(done@).push(old_cur).update(
                done@.len() as int,
                old_cur.push(c),
            ));
        }
        i = i + 1;
    }
    assert(v@.take(v@.len() as int) =~= v@);
    let ghost old_done = done@;
    done.push(cur);
    assert(seqs_of(done@) =~= seqs_of(old_done).push(cur@));
    done
}

/// Bounds `(a, b)` with `v[a..b]` equal to `v[lo..hi]` trimmed.
pub fn trim_range(v: &Vec<char>, lo: usize, hi: usize) -> (r: (usize, usize))
    requires
        lo <= hi <= v@.len(),
    ensures
        lo <= r.0 <= r.1 <= hi,
        v@.subrange(r.0 as int, r.1 as int) == trim(v@.subrange(lo as int, hi as int)),
{
    let mut a = lo;
    while a < hi && is_space_char(v[a])
        invariant
            lo <= a <= hi <= v@.len(),
            trim_start(v@.subrange(lo as int, hi as int)) == trim_start(
                v@.subrange(a as int, hi as int),
            ),
        decreases hi - a,
    {
        assert(v@.subrange(a as int, hi as int).drop_first() =~= v@.subrange(a + 1, hi as int));
        a = a + 1;
    }
    assert(trim_start(v@.subrange(a as int, hi as int)) == v@.subrange(a as int, hi as int));
    let mut b = hi;
    while b > a && is_space_char(v[b - 1])
        invariant
            lo <= a <= b <= hi <= v@.len(),
            trim_end(v@.subrange(a as int, hi as int)) == trim_end(
                v@.subrange(a as int, b as int),
            ),
        decreases b - a,
    {
        assert(v@.subrange(a as int, b as int).drop_last() =~= v@.subrange(a as int, b - 1));
        b = b - 1;
    }
    (a, b)
}

/// The characters `v[lo..hi]` as a new vector.
pub fn sub_chars(v: &Vec<char>, lo: usize, hi: usize) -> (r: Vec<char>)
    requires
        lo <= hi <= v@.len(),
    ensures
        r@ == v@.subrange(lo as int, hi as int),
{
    let mut r: Vec<char> = Vec::new();
    let mut i = lo;
    while i < hi
        invariant
            lo <= i <= hi <= v@.len(),
            r@ == v@.subrange(lo as int, i as int),
        decreases hi - i,
    {
        r.push(v[i]);
        i = i + 1;
        assert(r@ =~= v@.subrange(lo as int, i as int));
    }
    r
}

/// `v` trimmed of white space at both ends (`str::trim`).
pub fn trim_chars(v: &Vec<char>) -> (r: Vec<char>)
    ensures
        r@ == trim(v@),
{
    let (a, b) = trim_range(v, 0, v.len());
    assert(v@.subrange(0, v@.len() as int) =~= v@);
    sub_chars(v, a, b)
}

/// Decides [`starts_with`].
pub fn starts_with_chars(s: &Vec<char>, p: &Vec<char>) -> (r: bool)
    ensures
        r == starts_with(s@, p@),
{
    if p.len() > s.len() {
        return false;
    }
    let mut i: usize = 0;
    while i < p.len()
        invariant
            p@.len() <= s@.len(),
            i <= p@.len(),
            forall|j: int| 0 <= j < i ==> s@[j] == p@[j],
        decreases p@.len() - i,
    {
        if s[i] != p[i] {
            assert(s@.take(p@.len() as int)[i as int] != p@[i as int]);
            return false;
        }
        i = i + 1;
    }
    assert(s@.take(p@.len() as int) =~= p@);
    true
}


/// ASCII letter or digit: `[a-zA-Z0-9]`.
pub open spec fn is_ascii_alnum(c: char) -> bool {
    ('a' <= c && c <= 'z') || ('A' <= c && c <= 'Z') || ('0' <= c && c <= '9')
}

/// Decides [`is_ascii_alnum`].
pub fn is_ascii_alnum_char(c: char) -> (r: bool)
    ensures
        r == is_ascii_alnum(c),
{
    ('a' <= c && c <= 'z') || ('A' <= c && c <= 'Z') || ('0' <= c && c <= '9')
}

/// Characters allowed by the class `[a-zA-Z0-9\s,\.]`.
pub open spec fn is_name_char(c: char) -> bool {
    is_ascii_alnum(c) || is_space(c) || c == ',' || c == '.'
}

/// Every character of `s` satisfies `p`, and there is at least one.
pub open spec fn nonempty_all(s: Seq<char>, p: spec_fn(char) -> bool) -> bool {
    s.len() > 0 && forall|i: int| 0 <= i < s.len() ==> #[trigger] p(s[i])
}

/// `p` occurs in `s` as a contiguous piece.
pub open spec fn contains(s: Seq<char>, p: Seq<char>) -> bool {
    exists|i: int| 0 <= i && i + p.len() <= s.len() && #[trigger] s.subrange(i, i + p.len()) == p
}

/// Whether every character of `s` is ASCII.
pub open spec fn all_ascii(s: Seq<char>) -> bool {
    forall|i: int| 0 <= i < s.len() ==> (#[trigger] s[i] as u32) < 128
}

/// `c` with `A`-`Z` mapped to `a`-`z` (`char::to_ascii_lowercase`).
pub open spec fn ascii_lower_char(c: char) -> char {
    if 'A' <= c && c <= 'Z' {
        ((c as u32) + 32) as char
    } else {
        c
    }
}

/// `c` with `a`-`z` mapped to `A`-`Z` (`char::to_ascii_uppercase`).
pub open spec fn ascii_upper_char(c: char) -> char {
    if 'a' <= c && c <= 'z' {
        ((c as u32) - 32) as char
    } else {
        c
    }
}

/// `s` with each character lower-cased as ASCII (`str::to_ascii_lowercase`).
pub open spec fn ascii_lower(s: Seq<char>) -> Seq<char> {
    s.map_values(|c: char| ascii_lower_char(c))
}

/// `s` with each character upper-cased as ASCII (`str::to_ascii_uppercase`).
pub open spec fn ascii_upper(s: Seq<char>) -> Seq<char> {
    s.map_values(|c: char| ascii_upper_char(c))
}

/// Whether `c` is alphanumeric (`char::is_alphanumeric`): for ASCII, a letter or a digit;
/// beyond ASCII, Unicode `Alphabetic` or `Numeric`.
pub open spec fn is_alnum(c: char) -> bool {
    if (c as u32) < 128 {
        is_ascii_alnum(c)
    } else {
        alphanumeric(c)
    }
}

/// The lower-case form of a text: ASCII lower-casing for ASCII text (where it is what
/// Unicode lower-casing gives), Unicode lower-casing otherwise.
pub open spec fn lower_text(s: Seq<char>) -> Seq<char> {
    if all_ascii(s) {
        ascii_lower(s)
    } else {
        lowercase(s)
    }
}

/// The upper-case form of a text: ASCII upper-casing for ASCII text (where it is what
/// Unicode upper-casing gives), Unicode upper-casing otherwise.
pub open spec fn upper_text(s: Seq<char>) -> Seq<char> {
    if all_ascii(s) {
        ascii_upper(s)
    } else {
        uppercase(s)
    }
}

/// The view of an optional string.
pub open spec fn opt_view(o: Option<String>) -> Option<Seq<char>> {
    match o {
        Some(s) => Some(s@),
        None => None,
    }
}

/// The pieces of `parts` joined with `sep` between neighbours (`[T]::join`).
pub open spec fn join(parts: Seq<Seq<char>>, sep: Seq<char>) -> Seq<char>
    decreases parts.len(),
{
    if parts.len() == 0 {
        Seq::empty()
    } else if parts.len() == 1 {
        parts[0]
    } else {
        join(parts.drop_last(), sep) + sep + parts.last()
    }
}

/// `s` without the leading and trailing occurrences of `c` (`str::trim_matches` with a char).
pub open spec fn strip_char(s: Seq<char>, c: char) -> Seq<char> {
    strip_char_end(strip_char_start(s, c), c)
}

/// `s` without its leading occurrences of `c`.
pub open spec fn strip_char_start(s: Seq<char>, c: char) -> Seq<char>
    decreases s.len(),
{
    if s.len() > 0 && s[0] == c {
        strip_char_start(s.drop_first(), c)
    } else {
        s
    }
}

/// `s` without its trailing occurrences of `c`.
pub open spec fn strip_char_end(s: Seq<char>, c: char) -> Seq<char>
    decreases s.len(),
{
    if s.len() > 0 && s.last() == c {
        strip_char_end(s.drop_last(), c)
    } else {
        s
    }
}

/// `v` without leading and trailing occurrences of `c`.
pub fn strip_char_chars(v: &Vec<char>, c: char) -> (r: Vec<char>)
    ensures
        r@ == strip_char(v@, c),
{
    let mut a: usize = 0;
    let n = v.len();
    assert(v@.subrange(0, n as int) =~= v@);
    while a < n && v[a] == c
        invariant
            a <= n == v@.len(),
            strip_char_start(v@, c) == strip_char_start(v@.subrange(a as int, n as int), c),
        decreases n - a,
    {
        assert(v@.subrange(a as int, n as int).drop_first() =~= v@.subrange(a + 1, n as int));
        a = a + 1;
    }
    let mut b = n;
    while b > a && v[b - 1] == c
        invariant
            a <= b <= n == v@.len(),
            strip_char_start(v@, c) == v@.subrange(a as int, n as int),
            strip_char_end(v@.subrange(a as int, n as int), c) == strip_char_end(
                v@.subrange(a as int, b as int),
                c,
            ),
        decreases b - a,
    {
        assert(v@.subrange(a as int, b as int).drop_last() =~= v@.subrange(a as int, b - 1));
        b = b - 1;
    }
    sub_chars(v, a, b)
}

/// Appends the characters of `v` to `s`.
pub fn push_chars(s: &mut String, v: &Vec<char>)
    ensures
        final(s)@ == old(s)@ + v@,
{
    let mut i: usize = 0;
    while i < v.len()
        invariant
            i <= v@.len(),
            s@ == old(s)@ + v@.take(i as int),
        decreases v@.len() - i,
    {
        push_char(s, v[i]);
        i = i + 1;
        assert(s@ =~= old(s)@ + v@.take(i as int));
    }
    assert(v@.take(v@.len() as int) =~= v@);
}


/// Decides `starts_with(v, p)` for a string pattern.
pub fn starts_with_str(v: &Vec<char>, p: &str) -> (r: bool)
    ensures
        r == starts_with(v@, p@),
{
    let n = p.unicode_len();
    if n > v.len() {
        return false;
    }
    let mut i: usize = 0;
    while i < n
        invariant
            n == p@.len() <= v@.len(),
            i <= n,
            forall|j: int| 0 <= j < i ==> v@[j] == p@[j],
        decreases n - i,
    {
        if v[i] != p.get_char(i) {
            assert(v@.take(n as int)[i as int] != p@[i as int]);
            return false;
        }
        i = i + 1;
    }
    assert(v@.take(n as int) =~= p@);
    true
}

/// Decides whether the characters of `v` spell `p`.
pub fn eq_str(v: &Vec<char>, p: &str) -> (r: bool)
    ensures
        r == (v@ == p@),
{
    if v.len() != p.unicode_len() {
        return false;
    }
    let r = starts_with_str(v, p);
    proof {
        if r {
            assert(v@.take(p@.len() as int) =~= v@);
        } else {
            assert(v@.take(p@.len() as int) =~= v@);
        }
    }
    r
}

/// The lines of `s` (pieces between `'\n'`), each trimmed of white space. Since every
/// line is trimmed (a `'\r'` before `'\n'` is white space), this agrees with
/// `str::lines` followed by `str::trim`, but for an empty last line after a final
/// `'\n'` (or an empty `s`), which no caller gives any weight.
pub open spec fn trimmed_lines(s: Seq<char>) -> Seq<Seq<char>> {
    split_on(s, '\n').map_values(|l: Seq<char>| trim(l))
}

/// The trimmed lines of `s`.
pub fn trimmed_lines_of(s: &str) -> (r: Vec<Vec<char>>)
    ensures
        seqs_of(r@) == trimmed_lines(s@),
{
    let v = chars_of(s);
    let lines = split_chars(&v, '\n');
    let mut r: Vec<Vec<char>> = Vec::new();
    let mut i: usize = 0;
    while i < lines.len()
        invariant
            i <= lines@.len(),
            seqs_of(lines@) == split_on(s@, '\n'),
            r@.len() == i,
            forall|j: int| 0 <= j < i ==> #[trigger] r@[j]@ == trim(lines@[j]@),
        decreases lines@.len() - i,
    {
        let t = trim_chars(&lines[i]);
        r.push(t);
        i = i + 1;
    }
    proof {
        assert forall|j: int| 0 <= j < r@.len() implies seqs_of(r@)[j] == trimmed_lines(s@)[j] by {
            assert(seqs_of(lines@)[j] == lines@[j]@);
        }
        assert(seqs_of(r@) =~= trimmed_lines(s@));
    }
    r
}

/// `s` with every leading copy of the non-empty `p` removed (`str::trim_start_matches`).
pub open spec fn strip_prefix_all(s: Seq<char>, p: Seq<char>) -> Seq<char>
    decreases s.len(),
{
    if p.len() > 0 && starts_with(s, p) {
        strip_prefix_all(s.skip(p.len() as int), p)
    } else {
        s
    }
}

/// Removes every leading copy of `p` from `v`.
pub fn strip_prefix_all_chars(v: &Vec<char>, p: &str) -> (r: Vec<char>)
    ensures
        r@ == strip_prefix_all(v@, p@),
{
    let n = p.unicode_len();
    let mut cur = sub_chars(v, 0, v.len());
    assert(cur@ =~= v@);
    if n == 0 {
        return cur;
    }
    while starts_with_str(&cur, p)
        invariant
            n == p@.len() > 0,
            strip_prefix_all(v@, p@) == strip_prefix_all(cur@, p@),
        decreases cur@.len(),
    {
        cur = sub_chars(&cur, n, cur.len());
    }
    cur
}

/// Index of the first `c` in `v`, if any.
pub fn find_char(v: &Vec<char>, c: char) -> (r: Option<usize>)
    ensures
        match r {
            Some(i) => i < v@.len() && v@[i as int] == c && forall|j: int|
                0 <= j < i ==> v@[j] != c,
            None => forall|j: int| 0 <= j < v@.len() ==> v@[j] != c,
        },
{
    let mut i: usize = 0;
    while i < v.len()
        invariant
            i <= v@.len(),
            forall|j: int| 0 <= j < i ==> v@[j] != c,
        decreases v@.len() - i,
    {
        if v[i] == c {
            return Some(i);
        }
        i = i + 1;
    }
    None
}

/// No piece of a split holds the separator, and the pieces of ASCII text are ASCII.
pub proof fn lemma_split_pieces(s: Seq<char>, sep: char)
    ensures
        split_on(s, sep).len() >= 1,
        forall|i: int, j: int|
            0 <= i < split_on(s, sep).len() && 0 <= j < split_on(s, sep)[i].len() ==> {
                &&& #[trigger] split_on(s, sep)[i][j] != sep
                &&& all_ascii(s) ==> (split_on(s, sep)[i][j] as u32) < 128
            },
    decreases s.len(),
{
    if s.len() > 0 {
        let prev = split_on(s.drop_last(), sep);
        lemma_split_pieces(s.drop_last(), sep);
        if all_ascii(s) {
            assert(all_ascii(s.drop_last())) by {
                assert forall|k: int| 0 <= k < s.drop_last().len() implies (
                #[trigger] s.drop_last()[k] as u32) < 128 by {
                    assert(s.drop_last()[k] == s[k]);
                }
            }
            assert((s[s.len() - 1] as u32) < 128);
        }
        let r = split_on(s, sep);
        assert forall|i: int, j: int| 0 <= i < r.len() && 0 <= j < r[i].len() implies {
            &&& #[trigger] r[i][j] != sep
            &&& all_ascii(s) ==> (r[i][j] as u32) < 128
        } by {
            if s.last() != sep && i == prev.len() - 1 && j == prev.last().len() {
            } else if s.last() != sep && i == prev.len() - 1 {
                assert(r[i][j] == prev[i][j]);
            } else if i < prev.len() {
                assert(r[i][j] == prev[i][j]);
            }
        }
    }
}

/// Text without the separator is a single piece.
pub proof fn lemma_split_single(b: Seq<char>, sep: char)
    requires
        forall|j: int| 0 <= j < b.len() ==> b[j] != sep,
    ensures
        split_on(b, sep) == seq![b],
    decreases b.len(),
{
    if b.len() > 0 {
        lemma_split_single(b.drop_last(), sep);
        assert(b.last() != sep);
        assert(b.drop_last().push(b.last()) =~= b);
        assert(seq![b.drop_last()].update(0, b) =~= seq![b]);
    } else {
        assert(b =~= Seq::<char>::empty());
    }
}

/// Splitting `a`, a separator and a piece `b` without separators gives the pieces of
/// `a` followed by `b`.
pub proof fn lemma_split_append(a: Seq<char>, sep: char, b: Seq<char>)
    requires
        forall|j: int| 0 <= j < b.len() ==> b[j] != sep,
    ensures
        split_on(a + seq![sep] + b, sep) == split_on(a, sep).push(b),
    decreases b.len(),
{
    if b.len() == 0 {
        assert((a + seq![sep] + b).drop_last() =~= a);
        assert(a + seq![sep] + b =~= a.push(sep));
        assert(b =~= Seq::<char>::empty());
    } else {
        assert(b.last() != sep);
        lemma_split_append(a, sep, b.drop_last());
        let s = a + seq![sep] + b;
        assert(s.drop_last() =~= a + seq![sep] + b.drop_last());
        assert(s.last() == b.last());
        let prev = split_on(a, sep).push(b.drop_last());
        assert(prev.update(prev.len() - 1, b.drop_last().push(b.last())) =~= split_on(a, sep).push(
            b,
        )) by {
            assert(b.drop_last().push(b.last()) =~= b);
        }
    }
}

/// Splitting a join of pieces without the separator gives the pieces back.
pub proof fn lemma_split_join(lines: Seq<Seq<char>>, sep: char)
    requires
        lines.len() >= 1,
        forall|i: int, j: int| 0 <= i < lines.len() && 0 <= j < lines[i].len() ==> #[trigger] lines[i][j] != sep,
    ensures
        split_on(join(lines, seq![sep]), sep) == lines,
    decreases lines.len(),
{
    if lines.len() == 1 {
        let only = lines[0];
        assert forall|j: int| 0 <= j < only.len() implies only[j] != sep by {
            assert(lines[0][j] != sep);
        }
        lemma_split_single(lines[0], sep);
        assert(seq![lines[0]] =~= lines);
    } else {
        let prev = lines.drop_last();
        assert forall|i: int, j: int| 0 <= i < prev.len() && 0 <= j < prev[i].len() implies #[trigger] prev[i][j] != sep by {
            assert(prev[i] == lines[i]);
        }
        lemma_split_join(prev, sep);
        let last = lines.last();
        assert forall|j: int| 0 <= j < last.len() implies last[j] != sep by {
            assert(lines[lines.len() - 1][j] != sep);
        }
        lemma_split_append(join(prev, seq![sep]), sep, lines.last());
        assert(prev.push(lines.last()) =~= lines);
    }
}

/// What `trim_start` leaves is a suffix of `s` that, unless empty, starts with a
/// character that is not white space.
pub proof fn lemma_trim_start_suffix(s: Seq<char>)
    ensures
        trim_start(s).len() <= s.len(),
        forall|j: int| 0 <= j < trim_start(s).len() ==> #[trigger] trim_start(s)[j] == s[j + s.len() - trim_start(s).len()],
        trim_start(s).len() > 0 ==> !is_space(trim_start(s)[0]),
    decreases s.len(),
{
    if s.len() > 0 && is_space(s[0]) {
        lemma_trim_start_suffix(s.drop_first());
    }
}

/// What `trim_end` leaves is a prefix of `s` that, unless empty, ends with a character
/// that is not white space.
pub proof fn lemma_trim_end_prefix(s: Seq<char>)
    ensures
        trim_end(s).len() <= s.len(),
        forall|j: int| 0 <= j < trim_end(s).len() ==> #[trigger] trim_end(s)[j] == s[j],
        trim_end(s).len() > 0 ==> !is_space(trim_end(s).last()),
    decreases s.len(),
{
    if s.len() > 0 && is_space(s.last()) {
        lemma_trim_end_prefix(s.drop_last());
    }
}

/// A trimmed text holds only characters of the text, and unless empty it starts and
/// ends with characters that are not white space.
pub proof fn lemma_trim_chars(s: Seq<char>)
    ensures
        forall|j: int| 0 <= j < trim(s).len() ==> exists|k: int| 0 <= k < s.len() && s[k] == #[trigger] trim(s)[j],
        trim(s).len() > 0 ==> !is_space(trim(s)[0]) && !is_space(trim(s).last()),
{
    let t = trim_start(s);
    lemma_trim_start_suffix(s);
    lemma_trim_end_prefix(t);
    assert forall|j: int| 0 <= j < trim(s).len() implies exists|k: int| 0 <= k < s.len() && s[k] == #[trigger] trim(s)[j] by {
        assert(trim(s)[j] == t[j]);
        assert(s[j + s.len() - t.len()] == t[j]);
    }
    if trim(s).len() > 0 {
        assert(trim(s)[0] == t[0]);
    }
}

/// Text that is empty, or starts and ends with characters that are not white space, is
/// its own trim.
pub proof fn lemma_trim_fixed(s: Seq<char>)
    requires
        s.len() > 0 ==> !is_space(s[0]) && !is_space(s.last()),
    ensures
        trim(s) == s,
{
}

/// ASCII lower-casing keeps ASCII, white space, line breaks and punctuation, and
/// applying it twice changes nothing more.
pub proof fn lemma_ascii_lower_char(c: char)
    requires
        (c as u32) < 128,
    ensures
        (ascii_lower_char(c) as u32) < 128,
        is_space(ascii_lower_char(c)) == is_space(c),
        (ascii_lower_char(c) == '\n') == (c == '\n'),
        (ascii_lower_char(c) == '/') == (c == '/'),
        (ascii_lower_char(c) == '*') == (c == '*'),
        (ascii_lower_char(c) == '#') == (c == '#'),
        ascii_lower_char(ascii_lower_char(c)) == ascii_lower_char(c),
{
}

} // verus!
