//! Parsing and sanitising helpers for token contracts, manifests and repository names.
use crate::errors::TokenGenErrors;
use crate::foreign::{
    char_is_alphanumeric, push_char, random_alphanumeric,
    regex_capture, regex_finds, regex_is_match, to_lowercase,
};
use crate::text::{
    all_ascii, ascii_lower, ascii_lower_char, is_alnum, lower_text, is_space, lemma_ascii_lower_char,
    lemma_split_join, lemma_split_pieces, lemma_trim_chars, lemma_trim_fixed, trim,
    chars_of, contains, is_ascii_alnum, join, opt_view, seqs_of, split_chars, split_on,
    starts_with, starts_with_str, string_of, strip_char, strip_char_chars, strip_prefix_all,
    trimmed_lines, trimmed_lines_of,
};
use crate::utils::variables::{
    TokenDetails, TokenInfo, COIN_PATTERN, FREEZE_PATTERN, MODULE_PATTERN,
    REPOSITORY_URL_PATTERN, SHARE_PATTERN,
};
use vstd::prelude::*;

verus! {

/// The alphanumeric characters of `s`, in order.
pub open spec fn keep_alphanumeric(s: Seq<char>) -> Seq<char>
    decreases s.len(),
{
    if s.len() == 0 {
        s
    } else {
        let prev = keep_alphanumeric(s.drop_last());
        if is_alnum(s.last()) {
            prev.push(s.last())
        } else {
            prev
        }
    }
}

/// Keeps only the alphanumeric characters of a name, so that it can serve as a
/// Move identifier or a file name.
pub fn sanitize_name(name: &str) -> (r: String)
    ensures
        r@ == keep_alphanumeric(name@),
{
    let v = chars_of(name);
    let mut r = String::new();
    let mut i: usize = 0;
    while i < v.len()
        invariant
            i <= v@.len(),
            v@ == name@,
            r@ == keep_alphanumeric(v@.take(i as int)),
        decreases v@.len() - i,
    {
        assert(v@.take(i + 1).drop_last() =~= v@.take(i as int));
        if char_is_alphanumeric(v[i]) {
            push_char(&mut r, v[i]);
        }
        i = i + 1;
    }
    assert(v@.take(v@.len() as int) =~= v@);
    r
}

/// A character that could take part in a path: `.`, `/` or `\`.
pub open spec fn is_path_char(c: char) -> bool {
    c == '.' || c == '/' || c == '\\'
}

/// `s` without its path characters.
pub open spec fn drop_path_chars(s: Seq<char>) -> Seq<char>
    decreases s.len(),
{
    if s.len() == 0 {
        s
    } else {
        let prev = drop_path_chars(s.drop_last());
        if is_path_char(s.last()) {
            prev
        } else {
            prev.push(s.last())
        }
    }
}

/// The directory name made of a repository name: the name without `.`, `/` and `\`,
/// or `default_repo` when nothing is left.
pub open spec fn safe_repo_name(s: Seq<char>) -> Seq<char> {
    if drop_path_chars(s).len() == 0 {
        "default_repo"@
    } else {
        drop_path_chars(s)
    }
}

/// Removes path traversal from a repository name (every `..`, `/`, `\` and `.`), so
/// that the result is safe to use as a directory name; an empty result becomes
/// `default_repo`.
pub fn sanitize_repo_name(repo_name: &str) -> (r: String)
    ensures
        r@ == safe_repo_name(repo_name@),
{
    let v = chars_of(repo_name);
    let mut r = String::new();
    let mut i: usize = 0;
    while i < v.len()
        invariant
            i <= v@.len(),
            v@ == repo_name@,
            r@ == drop_path_chars(v@.take(i as int)),
        decreases v@.len() - i,
    {
        assert(v@.take(i + 1).drop_last() =~= v@.take(i as int));
        let c = v[i];
        if !(c == '.' || c == '/' || c == '\\') {
            push_char(&mut r, c);
        }
        i = i + 1;
    }
    assert(v@.take(v@.len() as int) =~= v@);
    if r.unicode_len() == 0 {
        return String::from_str("default_repo");
    }
    r
}

/// Number of random characters appended to a cloned repository's directory name.
pub const RANDOM_SUFFIX_LEN: usize = 8;

/// The directory name `base_suffix`.
pub fn repo_dir_name(base: &str, suffix: &str) -> (r: String)
    ensures
        r@ == base@ + seq!['_'] + suffix@,
{
    let mut r = String::from_str(base);
    push_char(&mut r, '_');
    r.append(suffix);
    r
}

/// Sanitises a repository name and appends `_` and eight random ASCII letters or digits,
/// so that concurrent clones of one repository do not collide.
pub fn sanitize_repo_name_with_random(repo_name: &str) -> (r: String)
    ensures
        r@.len() == safe_repo_name(repo_name@).len() + 1 + RANDOM_SUFFIX_LEN,
        r@.take(safe_repo_name(repo_name@).len() as int) == safe_repo_name(repo_name@),
        r@[safe_repo_name(repo_name@).len() as int] == '_',
        forall|i: int|
            safe_repo_name(repo_name@).len() < i < r@.len() ==> is_ascii_alnum(#[trigger] r@[i]),
{
    let base = sanitize_repo_name(repo_name);
    let suffix = random_alphanumeric(RANDOM_SUFFIX_LEN);
    let r = repo_dir_name(base.as_str(), suffix.as_str());
    proof {
        let n = base@.len() as int;
        assert(r@.take(n) =~= base@);
        assert forall|i: int| n < i < r@.len() implies is_ascii_alnum(#[trigger] r@[i]) by {
            assert(r@[i] == suffix@[i - n - 1]);
        }
    }
    r
}

/// Checks that `url` is a GitHub or GitLab repository URL
/// (`^https?://(www\.)?(github|gitlab)\.com/[\w\-]+/[\w\-]+/?$`).
pub fn is_valid_repository_url(url: &str) -> (r: Result<bool, TokenGenErrors>)
    ensures
        r == (if regex_finds(REPOSITORY_URL_PATTERN@, url@) == Some(true) {
            Ok::<bool, TokenGenErrors>(true)
        } else {
            Err(TokenGenErrors::InvalidGitUrl)
        }),
{
    match regex_is_match(REPOSITORY_URL_PATTERN, url) {
        Some(true) => Ok(true),
        _ => Err(TokenGenErrors::InvalidGitUrl),
    }
}

/// Where the run of characters satisfying `class` that starts at `p` ends.
pub open spec fn class_run_end(t: Seq<char>, p: int, class: spec_fn(char) -> bool) -> int
    decreases t.len() - p,
{
    if 0 <= p < t.len() && class(t[p]) {
        class_run_end(t, p + 1, class)
    } else {
        p
    }
}

/// A lower-case hexadecimal digit (`[a-f0-9]`).
pub open spec fn is_hex_lower(c: char) -> bool {
    ('0' <= c && c <= '9') || ('a' <= c && c <= 'f')
}

/// A character of a Move identifier (`[a-zA-Z0-9_]`).
pub open spec fn is_ident_char(c: char) -> bool {
    is_ascii_alnum(c) || c == '_'
}

/// The class `\s` of white space.
pub open spec fn space_class() -> spec_fn(char) -> bool {
    |c: char| crate::text::is_space(c)
}

/// The class `[a-f0-9]`.
pub open spec fn hex_class() -> spec_fn(char) -> bool {
    |c: char| is_hex_lower(c)
}

/// The class `[a-zA-Z0-9_]`.
pub open spec fn ident_class() -> spec_fn(char) -> bool {
    |c: char| is_ident_char(c)
}

/// Where the module name starts in a module declaration that starts at `i`.
pub open spec fn module_name_start(t: Seq<char>, i: int) -> int {
    let b = class_run_end(t, i + "module"@.len(), space_class());
    class_run_end(t, b, hex_class()) + 1
}

/// A module declaration `module <spaces><address>.<name><spaces>{` starts at `i`
/// (`module\s+([a-f0-9]+)\.([a-zA-Z0-9_]+)\s+\{`).
pub open spec fn module_match_at(t: Seq<char>, i: int) -> bool {
    let a = i + "module"@.len();
    let b = class_run_end(t, a, space_class());
    let c = class_run_end(t, b, hex_class());
    let d = c + 1;
    let e = class_run_end(t, d, ident_class());
    let f = class_run_end(t, e, space_class());
    &&& 0 <= i
    &&& starts_with(t.skip(i), "module"@)
    &&& b > a
    &&& c > b
    &&& c < t.len() && t[c] == '.'
    &&& e > d
    &&& f > e
    &&& f < t.len() && t[f] == '{'
}

/// The module name of the leftmost module declaration of `t`, if there is one.
pub open spec fn module_name_in(t: Seq<char>) -> Option<Seq<char>> {
    if exists|i: int| module_match_at(t, i) {
        let i = choose|i: int|
            module_match_at(t, i) && forall|j: int| 0 <= j < i ==> !module_match_at(t, j);
        let d = module_name_start(t, i);
        Some(t.subrange(d, class_run_end(t, d, ident_class())))
    } else {
        None
    }
}

/// A currency creation call `coin::create_currency<<type>>` starts at `i`
/// (`coin::create_currency<([a-zA-Z0-9_]+)>`).
pub open spec fn coin_match_at(t: Seq<char>, i: int) -> bool {
    let p = i + "coin::create_currency<"@.len();
    let e = class_run_end(t, p, ident_class());
    &&& 0 <= i
    &&& starts_with(t.skip(i), "coin::create_currency<"@)
    &&& e > p
    &&& e < t.len() && t[e] == '>'
}

/// The coin type of the leftmost currency creation call of `t`, if there is one.
pub open spec fn coin_type_in(t: Seq<char>) -> Option<Seq<char>> {
    if exists|i: int| coin_match_at(t, i) {
        let i = choose|i: int|
            coin_match_at(t, i) && forall|j: int| 0 <= j < i ==> !coin_match_at(t, j);
        let p = i + "coin::create_currency<"@.len();
        Some(t.subrange(p, class_run_end(t, p, ident_class())))
    } else {
        None
    }
}

/// What the disassembled code of a coin module tells: the name of its module, its
/// coin type, and whether the metadata is frozen (frozen and never shared).
pub open spec fn module_and_coin(input: Seq<char>) -> Option<(Seq<char>, Seq<char>, bool)> {
    match (module_name_in(input), coin_type_in(input)) {
        (Some(module_name), Some(coin_type)) => Some(
            (
                module_name,
                coin_type,
                contains(input, FREEZE_PATTERN@) && !contains(input, SHARE_PATTERN@),
            ),
        ),
        _ => None,
    }
}

/// Reads the module name (`module <address>.<name> {`), the coin type
/// (`coin::create_currency<T>`) and the freeze status out of disassembled Move code.
pub fn extract_module_and_coin(input: &str) -> (r: Option<(String, String, bool)>)
    ensures
        match r {
            Some((m, c, f)) => module_and_coin(input@) == Some((m@, c@, f)),
            None => module_and_coin(input@) is None,
        },
{
    let module_name = regex_capture(MODULE_PATTERN, input, 2);
    let coin_type = regex_capture(COIN_PATTERN, input, 1);
    match (module_name, coin_type) {
        (Some(m), Some(c)) => {
            let frozen = regex_is_match(FREEZE_PATTERN, input);
            let shared = regex_is_match(SHARE_PATTERN, input);
            let is_frozen = frozen == Some(true) && !(shared == Some(true));
            Some((m, c, is_frozen))
        },
        _ => None,
    }
}


/// A line that opens a comment: it starts with `/*` or `#`.
pub open spec fn is_comment(line: Seq<char>) -> bool {
    starts_with(line, "/*"@) || starts_with(line, "#"@)
}

/// Cleans trimmed lines: `None` as soon as one is a comment; otherwise the non-empty
/// lines, each lower-cased.
pub open spec fn clean_lines(lines: Seq<Seq<char>>) -> Option<Seq<Seq<char>>>
    decreases lines.len(),
{
    if lines.len() == 0 {
        Some(Seq::empty())
    } else {
        match clean_lines(lines.drop_last()) {
            None => None,
            Some(done) => {
                let l = lines.last();
                if l.len() == 0 {
                    Some(done)
                } else if is_comment(l) {
                    None
                } else {
                    Some(done.push(lower_text(l)))
                }
            },
        }
    }
}

/// The cleaned form of a text: its trimmed, non-empty, lower-cased lines joined by
/// `'\n'`; `None` when a line is a comment.
pub open spec fn cleaned(content: Seq<char>) -> Option<Seq<char>> {
    match clean_lines(trimmed_lines(content)) {
        Some(lines) => Some(join(lines, seq!['\n'])),
        None => None,
    }
}

/// Once a prefix of the lines holds a comment, every longer prefix does.
pub proof fn lemma_clean_lines_none_grows(lines: Seq<Seq<char>>, i: int, j: int)
    requires
        0 <= i <= j <= lines.len(),
        clean_lines(lines.take(i)) is None,
    ensures
        clean_lines(lines.take(j)) is None,
    decreases j - i,
{
    if i < j {
        lemma_clean_lines_none_grows(lines, i, j - 1);
        assert(lines.take(j).drop_last() =~= lines.take(j - 1));
    }
}

/// Removes white space and empty lines and lower-cases what is left, so that two
/// contracts can be compared whatever their layout; a comment line (`/*` or `#`)
/// makes the contract count as modified.
pub fn filter_whitespace_and_empty_lines(content: &str) -> (r: Result<String, TokenGenErrors>)
    ensures
        match r {
            Ok(s) => cleaned(content@) == Some(s@),
            Err(e) => cleaned(content@) is None && e == TokenGenErrors::ContractModified,
        },
{
    let lines = trimmed_lines_of(content);
    let ghost all = trimmed_lines(content@);
    let mut out = String::new();
    let mut count: usize = 0;
    let ghost mut done: Seq<Seq<char>> = Seq::empty();
    let mut i: usize = 0;
    while i < lines.len()
        invariant
            i <= lines@.len(),
            seqs_of(lines@) == all,
            all == trimmed_lines(content@),
            clean_lines(all.take(i as int)) == Some(done),
            out@ == join(done, seq!['\n']),
            count == done.len(),
            count <= i,
        decreases lines@.len() - i,
    {
        let line = &lines[i];
        proof {
            assert(all.take(i + 1).drop_last() =~= all.take(i as int));
            assert(all.take(i + 1).last() == line@);
        }
        if line.len() == 0 {
        } else if starts_with_str(line, "/*") || starts_with_str(line, "#") {
            proof {
                lemma_clean_lines_none_grows(all, i + 1, all.len() as int);
                assert(all.take(all.len() as int) =~= all);
            }
            return Err(TokenGenErrors::ContractModified);
        } else {
            let lower = to_lowercase(string_of(line).as_str());
            proof {
                let next = done.push(lower@);
                assert(next.drop_last() =~= done);
            }
            if count > 0 {
                push_char(&mut out, '\n');
            }
            out.append(lower.as_str());
            proof {
                done = done.push(lower@);
            }
            count = count + 1;
        }
        i = i + 1;
    }
    assert(all.take(all.len() as int) =~= all);
    Ok(out)
}


/// The network a trimmed manifest line names: for a line starting with `rev =`, the
/// text after the first `=` (up to a second one), trimmed, stripped of quotes, and cut
/// after its last `/`.
pub open spec fn line_environment(line: Seq<char>) -> Option<Seq<char>> {
    let parts = split_on(line, '=');
    if starts_with(line, "rev ="@) && parts.len() >= 2 {
        Some(split_on(strip_char(crate::text::trim(parts[1]), '"'), '/').last())
    } else {
        None
    }
}

/// The network of the first line that names one.
pub open spec fn first_environment(lines: Seq<Seq<char>>) -> Option<Seq<char>>
    decreases lines.len(),
{
    if lines.len() == 0 {
        None
    } else if line_environment(lines[0]) is Some {
        line_environment(lines[0])
    } else {
        first_environment(lines.drop_first())
    }
}

/// Reads the network (`devnet`, `testnet`, `mainnet`) out of the `rev = "framework/<network>"`
/// line of a `Move.toml`.
pub fn get_environment_from_toml(content: &str) -> (r: Option<String>)
    ensures
        opt_view(r) == first_environment(trimmed_lines(content@)),
{
    let lines = trimmed_lines_of(content);
    let ghost all = trimmed_lines(content@);
    assert(all.skip(0) =~= all);
    let mut i: usize = 0;
    while i < lines.len()
        invariant
            i <= lines@.len(),
            seqs_of(lines@) == all,
            all == trimmed_lines(content@),
            first_environment(all) == first_environment(all.skip(i as int)),
        decreases lines@.len() - i,
    {
        let line = &lines[i];
        proof {
            assert(all.skip(i as int).drop_first() =~= all.skip(i + 1));
            assert(all.skip(i as int)[0] == line@);
        }
        if starts_with_str(line, "rev =") {
            let parts = split_chars(line, '=');
            if parts.len() >= 2 {
                proof {
                    assert(seqs_of(parts@)[1] == parts@[1]@);
                }
                let value = crate::text::trim_chars(&parts[1]);
                let unquoted = strip_char_chars(&value, '"');
                let segments = split_chars(&unquoted, '/');
                proof {
                    crate::text::lemma_split_on_nonempty(unquoted@, '/');
                    assert(seqs_of(segments@).last() == segments@.last()@);
                }
                let last = &segments[segments.len() - 1];
                let r = string_of(last);
                proof {
                    assert(seqs_of(parts@) == split_on(line@, '='));
                    assert(line_environment(line@) == Some(r@));
                    assert(first_environment(all.skip(i as int)) == line_environment(line@));
                }
                return Some(r);
            }
        }
        i = i + 1;
    }
    None
}

/// Value of an ASCII decimal digit.
pub open spec fn digit_value(c: char) -> nat {
    (c as nat - '0' as nat) as nat
}

/// ASCII decimal digit.
pub open spec fn is_digit(c: char) -> bool {
    '0' <= c && c <= '9'
}

/// The number written by decimal digits `d`.
pub open spec fn digits_value(d: Seq<char>) -> nat
    decreases d.len(),
{
    if d.len() == 0 {
        0
    } else {
        digits_value(d.drop_last()) * 10 + digit_value(d.last())
    }
}

/// `s` without its optional leading `+`.
pub open spec fn unsigned_digits(s: Seq<char>) -> Seq<char> {
    if s.len() > 0 && s[0] == '+' {
        s.drop_first()
    } else {
        s
    }
}

/// `u8::from_str`: an optional `+` followed by at least one digit, of value at most 255.
pub open spec fn parse_u8(s: Seq<char>) -> Option<u8> {
    let d = unsigned_digits(s);
    if d.len() > 0 && (forall|i: int| 0 <= i < d.len() ==> is_digit(#[trigger] d[i]))
        && digits_value(d) <= 255 {
        Some(digits_value(d) as u8)
    } else {
        None
    }
}

/// Parses a decimal `u8` as `str::parse::<u8>` does.
pub fn parse_u8_chars(s: &Vec<char>) -> (r: Option<u8>)
    ensures
        r == parse_u8(s@),
{
    let start: usize = if s.len() > 0 && s[0] == '+' {
        1
    } else {
        0
    };
    let ghost d = s@.skip(start as int);
    assert(d =~= unsigned_digits(s@));
    if start == s.len() {
        assert(d.len() == 0);
        return None;
    }
    let mut acc: u32 = 0;
    let mut i = start;
    while i < s.len()
        invariant
            start <= i <= s@.len(),
            d == s@.skip(start as int),
            d == unsigned_digits(s@),
            forall|j: int| 0 <= j < i - start ==> is_digit(#[trigger] d[j]),
            acc as nat == if digits_value(d.take(i - start)) < 256 {
                digits_value(d.take(i - start))
            } else {
                256
            },
        decreases s@.len() - i,
    {
        let c = s[i];
        if !('0' <= c && c <= '9') {
            assert(!is_digit(d[i - start]));
            assert(!(forall|j: int| 0 <= j < d.len() ==> is_digit(#[trigger] d[j])));
            return None;
        }
        proof {
            assert(d.take(i - start + 1).drop_last() =~= d.take(i - start));
            assert(d.take(i - start + 1).last() == c);
        }
        let dv = (c as u32) - ('0' as u32);
        let next = acc * 10 + dv;
        acc = if next < 256 {
            next
        } else {
            256
        };
        i = i + 1;
    }
    assert(d.take(i - start) =~= d);
    if acc < 256 {
        Some(acc as u8)
    } else {
        None
    }
}

/// `bool::from_str`: exactly `true` or `false`.
pub open spec fn parse_bool(s: Seq<char>) -> Option<bool> {
    if s == "true"@ {
        Some(true)
    } else if s == "false"@ {
        Some(false)
    } else {
        None
    }
}

/// Parses a `bool` as `str::parse::<bool>` does.
pub fn parse_bool_chars(s: &Vec<char>) -> (r: Option<bool>)
    ensures
        r == parse_bool(s@),
{
    if crate::text::eq_str(s, "true") {
        Some(true)
    } else if crate::text::eq_str(s, "false") {
        Some(false)
    } else {
        None
    }
}


/// Characters of plain prose: letters and digits (in the sense of
/// `char::is_alphanumeric`), white space, and the punctuation `. , : ; ! ? ' - ( )`.
pub open spec fn is_description_char(c: char) -> bool {
    ||| is_alnum(c)
    ||| crate::text::is_space(c)
    ||| c == '.' || c == ',' || c == ':' || c == ';' || c == '!' || c == '?' || c == '\''
    ||| c == '-' || c == '(' || c == ')'
}

/// Decides [`is_description_char`].
pub fn is_description_char_exec(c: char) -> (r: bool)
    ensures
        r == is_description_char(c),
{
    char_is_alphanumeric(c) || crate::text::is_space_char(c) || c == '.' || c == ',' || c == ':'
        || c == ';' || c == '!' || c == '?' || c == '\'' || c == '-' || c == '(' || c == ')'
}

/// A description as it is reported. Prose (see [`is_description_char`]) is reported as
/// written; a description that holds any other symbol (`@`, `#`, `$`, `*`, `"`, ..) is
/// reported enclosed in double quotes, so that where it starts and ends stays plain
/// whatever symbols it holds.
pub open spec fn reported_description(v: Seq<char>) -> Seq<char> {
    if forall|i: int| 0 <= i < v.len() ==> is_description_char(#[trigger] v[i]) {
        v
    } else {
        seq!['"'] + v + seq!['"']
    }
}

/// Index of the first `c` in `t` (meaningful when `t` holds one).
pub open spec fn first_index(t: Seq<char>, c: char) -> int {
    choose|i: int| 0 <= i < t.len() && t[i] == c && forall|j: int| 0 <= j < i ==> t[j] != c
}

/// The first occurrence is the one [`first_index`] names.
pub proof fn lemma_first_index(t: Seq<char>, c: char, k: int)
    requires
        0 <= k < t.len(),
        t[k] == c,
        forall|j: int| 0 <= j < k ==> t[j] != c,
    ensures
        first_index(t, c) == k,
{
    let i = first_index(t, c);
    assert(0 <= i < t.len() && t[i] == c && forall|j: int| 0 <= j < i ==> t[j] != c);
}

/// Details read from no line at all.
pub open spec fn empty_details() -> TokenInfo {
    TokenInfo {
        decimals: 0,
        symbol: Seq::empty(),
        name: Seq::empty(),
        description: Seq::empty(),
        is_frozen: false,
    }
}

/// What a trimmed line `/// key: value` sets (the key ends at the first `:`, and its
/// leading `///`s are dropped): `name` and `symbol` take the trimmed value,
/// `description` takes it as reported (quoted when it leaves the description alphabet),
/// `decimals` its `u8` value (0 when it is none), `is_frozen` its `bool` value (false
/// when it is none). Keys are trimmed and compared lower-cased; other lines change
/// nothing.
#[verifier::opaque]
pub open spec fn apply_detail_line(info: TokenInfo, t: Seq<char>) -> TokenInfo {
    if starts_with(t, "///"@) && exists|i: int| 0 <= i < t.len() && t[i] == ':' {
        let k = first_index(t, ':');
        let key = lower_text(crate::text::trim(strip_prefix_all(t.take(k), "///"@)));
        let value = crate::text::trim(t.skip(k + 1));
        if key == "name"@ {
            TokenInfo { name: value, ..info }
        } else if key == "symbol"@ {
            TokenInfo { symbol: value, ..info }
        } else if key == "description"@ {
            TokenInfo { description: reported_description(value), ..info }
        } else if key == "decimals"@ {
            TokenInfo {
                decimals: match parse_u8(value) {
                    Some(d) => d,
                    None => 0,
                },
                ..info
            }
        } else if key == "is_frozen"@ {
            TokenInfo {
                is_frozen: match parse_bool(value) {
                    Some(b) => b,
                    None => false,
                },
                ..info
            }
        } else {
            info
        }
    } else {
        info
    }
}

/// The details declared by trimmed lines, read top to bottom (a later line wins).
pub open spec fn details_of_lines(lines: Seq<Seq<char>>) -> TokenInfo
    decreases lines.len(),
{
    if lines.len() == 0 {
        empty_details()
    } else {
        apply_detail_line(details_of_lines(lines.drop_last()), lines.last())
    }
}

/// The details declared by a contract text.
pub open spec fn token_info(content: Seq<char>) -> TokenInfo {
    details_of_lines(trimmed_lines(content))
}

/// Reads the token details (decimals, symbol, name, description, freeze status) from
/// the `/// key: value` doc lines of a contract; a later line overrides an earlier one,
/// and a field that no line sets keeps its default (empty, 0, false).
pub fn get_token_info(content: &str) -> (r: TokenDetails)
    ensures
        r@ == token_info(content@),
{
    let lines = trimmed_lines_of(content);
    let ghost all = trimmed_lines(content@);
    let mut name = String::new();
    let mut symbol = String::new();
    let mut description = String::new();
    let mut decimals: u8 = 0;
    let mut is_frozen = false;
    let mut i: usize = 0;
    while i < lines.len()
        invariant
            i <= lines@.len(),
            seqs_of(lines@) == all,
            all == trimmed_lines(content@),
            details_of_lines(all.take(i as int)) == (TokenInfo {
                decimals,
                symbol: symbol@,
                name: name@,
                description: description@,
                is_frozen,
            }),
        decreases lines@.len() - i,
    {
        let t = &lines[i];
        proof {
            assert(all.take(i + 1).drop_last() =~= all.take(i as int));
            assert(all.take(i + 1).last() == t@);
            reveal(apply_detail_line);
        }
        if starts_with_str(t, "///") {
            match crate::text::find_char(t, ':') {
                Some(k) => {
                    proof {
                        lemma_first_index(t@, ':', k as int);
                    }
                    let head = crate::text::sub_chars(t, 0, k);
                    let bare = crate::text::strip_prefix_all_chars(&head, "///");
                    let key_chars = crate::text::trim_chars(&bare);
                    let key_string = to_lowercase(string_of(&key_chars).as_str());
                    let key = chars_of(key_string.as_str());
                    let tail = crate::text::sub_chars(t, k + 1, t.len());
                    let value = crate::text::trim_chars(&tail);
                    proof {
                        assert(head@ =~= t@.take(k as int));
                        assert(tail@ =~= t@.skip(k + 1));
                    }
                    if crate::text::eq_str(&key, "name") {
                        name = string_of(&value);
                    } else if crate::text::eq_str(&key, "symbol") {
                        symbol = string_of(&value);
                    } else if crate::text::eq_str(&key, "description") {
                        description = report_description(&value);
                    } else if crate::text::eq_str(&key, "decimals") {
                        decimals =
                        match parse_u8_chars(&value) {
                            Some(d) => d,
                            None => 0,
                        };
                    } else if crate::text::eq_str(&key, "is_frozen") {
                        is_frozen =
                        match parse_bool_chars(&value) {
                            Some(b) => b,
                            None => false,
                        };
                    }
                },
                None => {},
            }
        }
        i = i + 1;
    }
    assert(all.take(all.len() as int) =~= all);
    TokenDetails { decimals, symbol, name, description, is_frozen }
}

/// The description as reported (see [`reported_description`]).
pub fn report_description(v: &Vec<char>) -> (r: String)
    ensures
        r@ == reported_description(v@),
{
    let mut i: usize = 0;
    while i < v.len()
        invariant
            i <= v@.len(),
            forall|j: int| 0 <= j < i ==> is_description_char(#[trigger] v@[j]),
        decreases v@.len() - i,
    {
        if !is_description_char_exec(v[i]) {
            let mut r = String::new();
            push_char(&mut r, '"');
            crate::text::push_chars(&mut r, v);
            push_char(&mut r, '"');
            assert(r@ =~= seq!['"'] + v@ + seq!['"']);
            return r;
        }
        i = i + 1;
    }
    string_of(v)
}


/// `drop_path_chars` leaves no path character behind.
proof fn lemma_drop_path_chars_clean(s: Seq<char>)
    ensures
        forall|i: int|
            0 <= i < drop_path_chars(s).len() ==> !is_path_char(#[trigger] drop_path_chars(s)[i]),
    decreases s.len(),
{
    if s.len() > 0 {
        lemma_drop_path_chars_clean(s.drop_last());
        let prev = drop_path_chars(s.drop_last());
        assert forall|i: int| 0 <= i < drop_path_chars(s).len() implies !is_path_char(
            #[trigger] drop_path_chars(s)[i],
        ) by {
            if i < prev.len() {
                assert(drop_path_chars(s)[i] == prev[i]);
            }
        }
    }
}

/// `drop_path_chars` changes nothing in a text without path characters.
proof fn lemma_drop_path_chars_noop(s: Seq<char>)
    requires
        forall|i: int| 0 <= i < s.len() ==> !is_path_char(#[trigger] s[i]),
    ensures
        drop_path_chars(s) == s,
    decreases s.len(),
{
    if s.len() > 0 {
        lemma_drop_path_chars_noop(s.drop_last());
        assert(s.drop_last().push(s.last()) =~= s);
    }
}

/// A sanitised repository name is never empty and holds no `.`, `/` or `\`, so it names
/// a directory right below the working directory.
pub proof fn lemma_safe_repo_name_is_safe(s: Seq<char>)
    ensures
        safe_repo_name(s).len() > 0,
        forall|i: int|
            0 <= i < safe_repo_name(s).len() ==> !is_path_char(#[trigger] safe_repo_name(s)[i]),
{
    reveal_strlit("default_repo");
    lemma_drop_path_chars_clean(s);
}

/// Sanitising a sanitised repository name changes nothing.
pub proof fn lemma_safe_repo_name_idempotent(s: Seq<char>)
    ensures
        safe_repo_name(safe_repo_name(s)) == safe_repo_name(s),
{
    lemma_safe_repo_name_is_safe(s);
    lemma_drop_path_chars_noop(safe_repo_name(s));
}

/// `keep_alphanumeric` keeps only alphanumeric characters.
pub proof fn lemma_keep_alphanumeric_all(s: Seq<char>)
    ensures
        forall|i: int|
            0 <= i < keep_alphanumeric(s).len() ==> is_alnum(#[trigger] keep_alphanumeric(s)[i]),
        keep_alphanumeric(s).len() <= s.len(),
    decreases s.len(),
{
    if s.len() > 0 {
        lemma_keep_alphanumeric_all(s.drop_last());
    }
}

/// `keep_alphanumeric` changes nothing in an alphanumeric text.
proof fn lemma_keep_alphanumeric_noop(s: Seq<char>)
    requires
        forall|i: int| 0 <= i < s.len() ==> is_alnum(#[trigger] s[i]),
    ensures
        keep_alphanumeric(s) == s,
    decreases s.len(),
{
    if s.len() > 0 {
        lemma_keep_alphanumeric_noop(s.drop_last());
        assert(s.drop_last().push(s.last()) =~= s);
    }
}

/// A sanitised name is alphanumeric, no longer than the name, and sanitising it again
/// changes nothing.
pub proof fn lemma_sanitize_name_idempotent(s: Seq<char>)
    ensures
        forall|i: int|
            0 <= i < keep_alphanumeric(s).len() ==> is_alnum(#[trigger] keep_alphanumeric(s)[i]),
        keep_alphanumeric(s).len() <= s.len(),
        keep_alphanumeric(keep_alphanumeric(s)) == keep_alphanumeric(s),
{
    lemma_keep_alphanumeric_all(s);
    lemma_keep_alphanumeric_noop(keep_alphanumeric(s));
}

/// A comment line is never empty.
proof fn lemma_comment_nonempty(l: Seq<char>)
    ensures
        is_comment(l) ==> l.len() > 0,
{
    reveal_strlit("/*");
    reveal_strlit("#");
}

/// Cleaning fails exactly when one of the lines is a comment.
pub proof fn lemma_clean_lines_fails_iff_comment(lines: Seq<Seq<char>>)
    ensures
        clean_lines(lines) is None <==> exists|i: int|
            0 <= i < lines.len() && is_comment(#[trigger] lines[i]),
    decreases lines.len(),
{
    if lines.len() > 0 {
        let prev = lines.drop_last();
        lemma_clean_lines_fails_iff_comment(prev);
        lemma_comment_nonempty(lines.last());
        if exists|i: int| 0 <= i < prev.len() && is_comment(#[trigger] prev[i]) {
            let i = choose|i: int| 0 <= i < prev.len() && is_comment(#[trigger] prev[i]);
            assert(is_comment(lines[i]));
        }
        if exists|i: int| 0 <= i < lines.len() && is_comment(#[trigger] lines[i]) {
            let i = choose|i: int| 0 <= i < lines.len() && is_comment(#[trigger] lines[i]);
            if i < lines.len() - 1 {
                assert(is_comment(prev[i]));
            }
        }
    }
}

/// A contract is rejected by cleaning exactly when one of its trimmed lines starts with
/// `/*` or `#`.
pub proof fn lemma_cleaning_rejects_comments(content: Seq<char>)
    ensures
        cleaned(content) is None <==> exists|i: int|
            0 <= i < trimmed_lines(content).len() && is_comment(
                #[trigger] trimmed_lines(content)[i],
            ),
{
    lemma_clean_lines_fails_iff_comment(trimmed_lines(content));
}

/// A line that is not a `///` doc line changes no detail.
proof fn lemma_other_line_changes_nothing(info: TokenInfo, l: Seq<char>)
    requires
        !starts_with(l, "///"@),
    ensures
        apply_detail_line(info, l) == info,
{
    reveal(apply_detail_line);
}

/// Lines that are not `///` doc lines do not change the token details: removing one
/// from anywhere leaves the details as they were.
pub proof fn lemma_other_lines_ignored(a: Seq<Seq<char>>, l: Seq<char>, b: Seq<Seq<char>>)
    requires
        !starts_with(l, "///"@),
    ensures
        details_of_lines(a + seq![l] + b) == details_of_lines(a + b),
    decreases b.len(),
{
    if b.len() == 0 {
        assert((a + seq![l] + b).drop_last() =~= a);
        assert(a + b =~= a);
        lemma_other_line_changes_nothing(details_of_lines(a), l);
    } else {
        lemma_other_lines_ignored(a, l, b.drop_last());
        assert((a + seq![l] + b).drop_last() =~= a + seq![l] + b.drop_last());
        assert((a + b).drop_last() =~= a + b.drop_last());
    }
}

/// A line as cleaning leaves it, for ASCII text: non-empty, ASCII, trimmed, without a
/// line break, not a comment, and lower-case.
pub open spec fn is_clean_line(l: Seq<char>) -> bool {
    &&& l.len() > 0
    &&& all_ascii(l)
    &&& !is_space(l[0])
    &&& !is_space(l.last())
    &&& forall|j: int| 0 <= j < l.len() ==> #[trigger] l[j] != '\n'
    &&& !is_comment(l)
    &&& lower_text(l) == l
}

/// Lower-casing a trimmed ASCII line that is no comment gives a clean line.
proof fn lemma_lower_line_is_clean(u: Seq<char>)
    requires
        u.len() > 0,
        all_ascii(u),
        !is_space(u[0]),
        !is_space(u.last()),
        forall|j: int| 0 <= j < u.len() ==> #[trigger] u[j] != '\n',
        !is_comment(u),
    ensures
        is_clean_line(lower_text(u)),
{
    let l = lower_text(u);
    assert(l == ascii_lower(u));
    assert forall|j: int| 0 <= j < u.len() implies {
        &&& (#[trigger] l[j] as u32) < 128
        &&& is_space(l[j]) == is_space(u[j])
        &&& (l[j] == '\n') == (u[j] == '\n')
        &&& (l[j] == '/') == (u[j] == '/')
        &&& (l[j] == '*') == (u[j] == '*')
        &&& (l[j] == '#') == (u[j] == '#')
        &&& ascii_lower_char(l[j]) == l[j]
    } by {
        assert(l[j] == ascii_lower_char(u[j]));
        lemma_ascii_lower_char(u[j]);
    }
    assert(all_ascii(l));
    assert(ascii_lower(l) =~= l);
    reveal_strlit("/*");
    reveal_strlit("#");
    assert(l.len() == u.len());
    if starts_with(l, "/*"@) {
        assert(l.take(2)[0] == '/' && l.take(2)[1] == '*');
        assert(u.take(2) =~= "/*"@);
    }
    if starts_with(l, "#"@) {
        assert(l.take(1)[0] == '#');
        assert(u.take(1) =~= "#"@);
    }
    assert(!is_comment(l));
    assert(!is_space(l[0]));
    assert(l[l.len() - 1] == l.last());
}

/// Cleaning lines that are ASCII, have no line break and are trimmed gives clean lines.
proof fn lemma_clean_lines_are_clean(lines: Seq<Seq<char>>)
    requires
        forall|i: int| 0 <= i < lines.len() ==> all_ascii(#[trigger] lines[i]),
        forall|i: int, j: int| 0 <= i < lines.len() && 0 <= j < lines[i].len() ==> #[trigger] lines[i][j] != '\n',
        forall|i: int| 0 <= i < lines.len() && (#[trigger] lines[i]).len() > 0 ==> !is_space(lines[i][0]) && !is_space(lines[i].last()),
        clean_lines(lines) is Some,
    ensures
        forall|i: int| 0 <= i < clean_lines(lines).unwrap().len() ==> is_clean_line(#[trigger] clean_lines(lines).unwrap()[i]),
    decreases lines.len(),
{
    if lines.len() > 0 {
        let prev = lines.drop_last();
        assert forall|i: int, j: int| 0 <= i < prev.len() && 0 <= j < prev[i].len() implies #[trigger] prev[i][j] != '\n' by {
            assert(prev[i] == lines[i]);
        }
        lemma_clean_lines_are_clean(prev);
        let l = lines.last();
        if l.len() > 0 && !is_comment(l) {
            assert(lines[lines.len() - 1] == l);
            assert forall|j: int| 0 <= j < l.len() implies #[trigger] l[j] != '\n' by {
                assert(lines[lines.len() - 1][j] != '\n');
            }
            lemma_lower_line_is_clean(l);
        }
    }
}

/// Clean lines are cleaned into themselves.
proof fn lemma_clean_lines_fixed(lines: Seq<Seq<char>>)
    requires
        forall|i: int| 0 <= i < lines.len() ==> is_clean_line(#[trigger] lines[i]),
    ensures
        clean_lines(lines) == Some(lines),
    decreases lines.len(),
{
    if lines.len() > 0 {
        let prev = lines.drop_last();
        assert forall|i: int| 0 <= i < prev.len() implies is_clean_line(#[trigger] prev[i]) by {
            assert(prev[i] == lines[i]);
        }
        lemma_clean_lines_fixed(prev);
        assert(is_clean_line(lines[lines.len() - 1]));
        assert(prev.push(lines.last()) =~= lines);
    }
}

/// Cleaning is idempotent on ASCII text: cleaning the cleaned form of a contract gives
/// that form back.
pub proof fn lemma_cleaning_idempotent(content: Seq<char>, s: Seq<char>)
    requires
        all_ascii(content),
        cleaned(content) == Some(s),
    ensures
        cleaned(s) == Some(s),
{
    let pieces = split_on(content, '\n');
    lemma_split_pieces(content, '\n');
    let lines = trimmed_lines(content);
    assert forall|i: int| 0 <= i < lines.len() implies {
        &&& all_ascii(#[trigger] lines[i])
        &&& forall|j: int| 0 <= j < lines[i].len() ==> lines[i][j] != '\n'
        &&& lines[i].len() > 0 ==> !is_space(lines[i][0]) && !is_space(lines[i].last())
    } by {
        assert(lines[i] == trim(pieces[i]));
        lemma_trim_chars(pieces[i]);
        assert forall|j: int| 0 <= j < lines[i].len() implies (#[trigger] lines[i][j] as u32) < 128 && lines[i][j] != '\n' by {
            let k = choose|k: int| 0 <= k < pieces[i].len() && pieces[i][k] == #[trigger] trim(pieces[i])[j];
            assert(pieces[i][k] != '\n');
        }
    }
    let done = clean_lines(lines).unwrap();
    lemma_clean_lines_are_clean(lines);
    assert(s == join(done, seq!['\n']));
    lemma_clean_lines_fixed(done);
    if done.len() == 0 {
        assert(s =~= Seq::<char>::empty());
        assert(split_on(s, '\n') =~= seq![Seq::<char>::empty()]);
        lemma_trim_fixed(Seq::<char>::empty());
        assert(trimmed_lines(s) =~= seq![Seq::<char>::empty()]);
        assert(seq![Seq::<char>::empty()].drop_last() =~= Seq::<Seq<char>>::empty());
        assert(clean_lines(trimmed_lines(s)) == Some(Seq::<Seq<char>>::empty()));
    } else {
        assert forall|i: int, j: int| 0 <= i < done.len() && 0 <= j < done[i].len() implies #[trigger] done[i][j] != '\n' by {
            assert(is_clean_line(done[i]));
        }
        lemma_split_join(done, '\n');
        assert forall|i: int| 0 <= i < done.len() implies trim(#[trigger] done[i]) == done[i] by {
            assert(is_clean_line(done[i]));
            lemma_trim_fixed(done[i]);
        }
        assert(trimmed_lines(s) =~= done);
    }
}

/// A description made of letters, digits, white space, commas and dots is reported
/// as written, never quoted.
pub proof fn lemma_name_alphabet_reported_as_written(v: Seq<char>)
    requires
        forall|i: int| 0 <= i < v.len() ==> crate::text::is_name_char(#[trigger] v[i]),
    ensures
        reported_description(v) == v,
{
    assert forall|i: int| 0 <= i < v.len() implies is_description_char(#[trigger] v[i]) by {
        assert(crate::text::is_name_char(v[i]));
    }
}

/// A key made of lower-case ASCII letters and `_`.
pub open spec fn is_plain_key(key: Seq<char>) -> bool {
    key.len() > 0 && forall|i: int| 0 <= i < key.len() ==> ('a' <= #[trigger] key[i] && key[i] <= 'z')
        || key[i] == '_'
}

/// How the line `/// <key>:<value>` is split: its key is read as `key`, its value as
/// the trimmed `value`.
proof fn lemma_detail_line_parts(key: Seq<char>, v: Seq<char>)
    requires
        is_plain_key(key),
    ensures
        ({
            let t = "/// "@ + key + ":"@ + v;
            let k = 4 + key.len() as int;
            &&& starts_with(t, "///"@)
            &&& 0 <= k < t.len() && t[k] == ':'
            &&& first_index(t, ':') == k
            &&& lower_text(crate::text::trim(strip_prefix_all(t.take(k), "///"@))) == key
            &&& crate::text::trim(t.skip(k + 1)) == crate::text::trim(v)
        }),
{
    reveal_strlit("/// ");
    reveal_strlit("///");
    reveal_strlit(":");
    let t = "/// "@ + key + ":"@ + v;
    let k: int = 4 + key.len() as int;
    assert(t.take(3) =~= "///"@);
    assert(t[k] == ':');
    assert forall|j: int| 0 <= j < k implies t[j] != ':' by {
        if j >= 4 {
            assert(t[j] == key[j - 4]);
        }
    }
    lemma_first_index(t, ':', k);
    let head = t.take(k);
    assert(head.take(3) =~= "///"@);
    let rest = head.skip(3);
    assert(rest =~= seq![' '] + key);
    assert(strip_prefix_all(head, "///"@) == strip_prefix_all(rest, "///"@));
    assert(rest[0] == ' ');
    if 3 <= rest.len() {
        assert(rest.take(3)[0] == rest[0]);
        assert(rest.take(3) != "///"@);
    }
    assert(strip_prefix_all(rest, "///"@) == rest);
    assert(rest.drop_first() =~= key);
    assert(crate::text::trim_start(rest) == crate::text::trim_start(key));
    assert(crate::text::trim_start(key) == key);
    assert(crate::text::trim_end(key) == key) by {
        assert(key.last() == key[key.len() - 1]);
    }
    assert(all_ascii(key));
    assert(ascii_lower(key) =~= key);
    assert(t.skip(k + 1) =~= v);
}

/// A `/// description: <value>` line sets the description to the trimmed value, as
/// reported, and changes no other detail.
pub proof fn lemma_description_line_sets_description(lines: Seq<Seq<char>>, v: Seq<char>)
    ensures
        details_of_lines(lines.push("/// description:"@ + v)) == (TokenInfo {
            description: reported_description(crate::text::trim(v)),
            ..details_of_lines(lines)
        }),
{
    reveal_strlit("/// description:");
    reveal_strlit("/// ");
    reveal_strlit(":");
    reveal_strlit("description");
    reveal_strlit("name");
    reveal_strlit("symbol");
    let key = "description"@;
    assert("/// description:"@ + v =~= "/// "@ + key + ":"@ + v);
    lemma_detail_line_parts(key, v);
    assert(lines.push("/// description:"@ + v).drop_last() =~= lines);
    reveal(apply_detail_line);
}

/// A `/// name: <value>` line sets the name to the trimmed value and changes no other
/// detail.
pub proof fn lemma_name_line_sets_name(lines: Seq<Seq<char>>, v: Seq<char>)
    ensures
        details_of_lines(lines.push("/// name:"@ + v)) == (TokenInfo {
            name: crate::text::trim(v),
            ..details_of_lines(lines)
        }),
{
    reveal_strlit("/// name:");
    reveal_strlit("/// ");
    reveal_strlit(":");
    reveal_strlit("name");
    let key = "name"@;
    assert("/// name:"@ + v =~= "/// "@ + key + ":"@ + v);
    lemma_detail_line_parts(key, v);
    assert(lines.push("/// name:"@ + v).drop_last() =~= lines);
    reveal(apply_detail_line);
}

/// A `/// symbol: <value>` line sets the symbol to the trimmed value and changes no
/// other detail.
pub proof fn lemma_symbol_line_sets_symbol(lines: Seq<Seq<char>>, v: Seq<char>)
    ensures
        details_of_lines(lines.push("/// symbol:"@ + v)) == (TokenInfo {
            symbol: crate::text::trim(v),
            ..details_of_lines(lines)
        }),
{
    reveal_strlit("/// symbol:");
    reveal_strlit("/// ");
    reveal_strlit(":");
    reveal_strlit("name");
    reveal_strlit("symbol");
    let key = "symbol"@;
    assert("/// symbol:"@ + v =~= "/// "@ + key + ":"@ + v);
    lemma_detail_line_parts(key, v);
    assert(lines.push("/// symbol:"@ + v).drop_last() =~= lines);
    reveal(apply_detail_line);
}

/// A network name as a manifest writes it after `framework/`: no `=`, `"` or `/`.
pub open spec fn is_network_name(env: Seq<char>) -> bool {
    forall|i: int| 0 <= i < env.len() ==> #[trigger] env[i] != '=' && env[i] != '"' && env[i]
        != '/'
}

/// The line `rev = "framework/<env>"` names the network `env`.
pub proof fn lemma_rev_line_names_network(env: Seq<char>)
    requires
        is_network_name(env),
    ensures
        line_environment("rev = \"framework/"@ + env + "\""@) == Some(env),
{
    reveal_strlit("rev = \"framework/");
    reveal_strlit("\"");
    reveal_strlit("rev =");
    reveal_strlit("rev ");
    reveal_strlit("framework");
    let l = "rev = \"framework/"@ + env + "\""@;
    let c = seq!['"'] + "framework"@ + seq!['/'] + env + seq!['"'];
    let b = seq![' '] + c;
    let head = "rev "@;
    assert(l =~= head + seq!['='] + b);
    assert(l.take(5) =~= "rev ="@);
    assert forall|j: int| 0 <= j < b.len() implies b[j] != '=' by {
        if j >= 12 && j < 12 + env.len() {
            assert(b[j] == env[j - 12]);
        }
    }
    assert forall|j: int| 0 <= j < head.len() implies head[j] != '=' by {}
    crate::text::lemma_split_single(head, '=');
    crate::text::lemma_split_append(head, '=', b);
    let parts = split_on(l, '=');
    assert(parts =~= seq![head, b]);
    assert(b.drop_first() =~= c);
    assert(crate::text::trim_start(c) == c);
    assert(crate::text::trim_start(b) == c);
    assert(crate::text::trim_end(c) == c) by {
        assert(c.last() == '"');
    }
    let f = "framework"@ + seq!['/'] + env;
    assert(c.drop_first() =~= f + seq!['"']);
    assert(crate::text::strip_char_start(c.drop_first(), '"') == c.drop_first());
    assert((f + seq!['"']).drop_last() =~= f);
    assert(f.last() != '"') by {
        if env.len() > 0 {
            assert(f.last() == env[env.len() - 1]);
        }
    }
    assert(crate::text::strip_char_end(f, '"') == f);
    assert(strip_char(c, '"') == f);
    assert forall|j: int| 0 <= j < env.len() implies env[j] != '/' by {}
    assert forall|j: int| 0 <= j < "framework"@.len() implies "framework"@[j] != '/' by {}
    crate::text::lemma_split_single("framework"@, '/');
    crate::text::lemma_split_append("framework"@, '/', env);
}

/// The network of a manifest is named by its first `rev` line: lines before it that
/// name none, and all lines after it, do not matter.
pub proof fn lemma_first_rev_line_decides(a: Seq<Seq<char>>, env: Seq<char>, b: Seq<Seq<char>>)
    requires
        is_network_name(env),
        forall|i: int| 0 <= i < a.len() ==> line_environment(#[trigger] a[i]) is None,
    ensures
        first_environment(a + seq!["rev = \"framework/"@ + env + "\""@] + b) == Some(env),
    decreases a.len(),
{
    lemma_rev_line_names_network(env);
    let all = a + seq!["rev = \"framework/"@ + env + "\""@] + b;
    if a.len() == 0 {
        assert(all[0] == "rev = \"framework/"@ + env + "\""@);
    } else {
        assert(all[0] == a[0]);
        let rest = a.drop_first();
        assert forall|i: int| 0 <= i < rest.len() implies line_environment(#[trigger] rest[i]) is None by {
            assert(rest[i] == a[i + 1]);
        }
        lemma_first_rev_line_decides(rest, env, b);
        assert(all.drop_first() =~= rest + seq!["rev = \"framework/"@ + env + "\""@] + b);
    }
}

/// A line that names no network, added after the others, changes no manifest's
/// network.
pub proof fn lemma_first_environment_push(lines: Seq<Seq<char>>, x: Seq<char>)
    requires
        line_environment(x) is None,
    ensures
        first_environment(lines.push(x)) == first_environment(lines),
    decreases lines.len(),
{
    let p = lines.push(x);
    if lines.len() > 0 {
        assert(p[0] == lines[0]);
        assert(p.drop_first() =~= lines.drop_first().push(x));
        lemma_first_environment_push(lines.drop_first(), x);
    } else {
        assert(p[0] == x);
        assert(p.drop_first() =~= Seq::<Seq<char>>::empty());
        assert(first_environment(p.drop_first()) is None);
    }
}

/// A line of code for the purpose of cleaning: ASCII, on a line of its own, neither
/// blank nor a comment.
pub open spec fn is_code_line(l: Seq<char>) -> bool {
    &&& all_ascii(l)
    &&& forall|j: int| 0 <= j < l.len() ==> #[trigger] l[j] != '\n'
    &&& trim(l).len() > 0
    &&& !is_comment(trim(l))
}

/// Appending a line of code to a text that cleans appends that line, trimmed and
/// lower-cased, to its cleaned form; when the line is no `///` line the details that
/// the cleaned text declares stay as they were.
pub proof fn lemma_cleaned_with_line(current: Seq<char>, l: Seq<char>)
    requires
        cleaned(current) is Some,
        is_code_line(l),
    ensures
        cleaned(current + seq!['\n'] + l) matches Some(c2) && {
            let cc = cleaned(current)->Some_0;
            let x = ascii_lower(trim(l));
            &&& c2.len() > cc.len()
            &&& (c2 == x && cc.len() == 0) || c2 == cc + seq!['\n'] + x
            &&& !starts_with(trim(l), "///"@) ==> token_info(c2) == token_info(cc)
            &&& line_environment(x) is None ==> first_environment(trimmed_lines(c2))
                == first_environment(trimmed_lines(cc))
        },
{
    let u = trim(l);
    lemma_trim_chars(l);
    assert forall|j: int| 0 <= j < u.len() implies (#[trigger] u[j] as u32) < 128 && u[j] != '\n' by {
        let k = choose|k: int| 0 <= k < l.len() && l[k] == #[trigger] trim(l)[j];
        assert((l[k] as u32) < 128);
    }
    assert(all_ascii(u));
    lemma_lower_line_is_clean(u);
    let x = lower_text(u);
    assert(x == ascii_lower(u));
    crate::text::lemma_split_append(current, '\n', l);
    let lines = trimmed_lines(current);
    assert(trimmed_lines(current + seq!['\n'] + l) =~= lines.push(u));
    assert(lines.push(u).drop_last() =~= lines);
    let done = clean_lines(lines)->Some_0;
    assert(clean_lines(lines.push(u)) == Some(done.push(x)));
    let cc = join(done, seq!['\n']);
    let c2 = join(done.push(x), seq!['\n']);
    assert(done.push(x).drop_last() =~= done);
    assert(cleaned(current) == Some(cc));
    assert(cleaned(current + seq!['\n'] + l) == Some(c2));
    assert(is_clean_line(x));
    if done.len() == 0 {
        assert(c2 == x);
        assert(cc.len() == 0);
    } else {
        assert(c2 == cc + seq!['\n'] + x);
    }
    assert(c2.len() > cc.len());
    assert forall|j: int| 0 <= j < x.len() implies x[j] != '\n' by {
        assert(is_clean_line(x));
    }
    lemma_trim_fixed(x);
    crate::text::lemma_split_single(x, '\n');
    if done.len() == 0 {
        assert(cc =~= Seq::<char>::empty());
        assert(split_on(cc, '\n') =~= seq![Seq::<char>::empty()]);
        lemma_trim_fixed(Seq::<char>::empty());
        assert(trimmed_lines(cc) =~= seq![Seq::<char>::empty()]);
        assert(trimmed_lines(c2) =~= seq![x]);
    } else {
        crate::text::lemma_split_append(cc, '\n', x);
        assert(trimmed_lines(c2) =~= trimmed_lines(cc).push(x));
    }
    if line_environment(x) is None {
        if done.len() == 0 {
            reveal_strlit("rev =");
            assert(seq![x][0] == x);
            assert(seq![x].drop_first() =~= Seq::<Seq<char>>::empty());
            assert(seq![Seq::<char>::empty()][0] == Seq::<char>::empty());
            assert(line_environment(Seq::<char>::empty()) is None);
            assert(seq![Seq::<char>::empty()].drop_first() =~= Seq::<Seq<char>>::empty());
        } else {
            lemma_first_environment_push(trimmed_lines(cc), x);
        }
    }
    if !starts_with(u, "///"@) {
        reveal_strlit("///");
        assert(!starts_with(x, "///"@)) by {
            if starts_with(x, "///"@) {
                assert(x.take(3) =~= "///"@);
                assert forall|j: int| 0 <= j < 3 implies u[j] == '/' by {
                    assert(x[j] == x.take(3)[j]);
                    assert(x[j] == ascii_lower_char(u[j]));
                    lemma_ascii_lower_char(u[j]);
                }
                assert(u.take(3) =~= "///"@);
            }
        }
        assert(seq![x].drop_last() =~= Seq::<Seq<char>>::empty());
        lemma_other_line_changes_nothing(empty_details(), x);
        if done.len() == 0 {
            assert(seq![Seq::<char>::empty()].drop_last() =~= Seq::<Seq<char>>::empty());
            lemma_other_line_changes_nothing(empty_details(), Seq::<char>::empty());
            assert(details_of_lines(Seq::<Seq<char>>::empty()) == empty_details());
            assert(seq![x].last() == x);
            assert(seq![Seq::<char>::empty()].last() == Seq::<char>::empty());
            assert(details_of_lines(seq![Seq::<char>::empty()]) == empty_details());
            assert(details_of_lines(seq![x]) == empty_details());
        } else {
            assert(trimmed_lines(cc).push(x).drop_last() =~= trimmed_lines(cc));
            lemma_other_line_changes_nothing(details_of_lines(trimmed_lines(cc)), x);
        }
        assert(token_info(c2) == token_info(cc));
    }
}

/// A `/// decimals: <value>` line sets the decimals to the `u8` that the trimmed value
/// spells (0 when it spells none) and changes no other detail.
pub proof fn lemma_decimals_line_sets_decimals(lines: Seq<Seq<char>>, v: Seq<char>)
    ensures
        details_of_lines(lines.push("/// decimals:"@ + v)) == (TokenInfo {
            decimals: match parse_u8(crate::text::trim(v)) {
                Some(d) => d,
                None => 0,
            },
            ..details_of_lines(lines)
        }),
{
    reveal_strlit("/// decimals:");
    reveal_strlit("/// ");
    reveal_strlit(":");
    reveal_strlit("decimals");
    reveal_strlit("name");
    reveal_strlit("symbol");
    reveal_strlit("description");
    let key = "decimals"@;
    assert("/// decimals:"@ + v =~= "/// "@ + key + ":"@ + v);
    lemma_detail_line_parts(key, v);
    assert(lines.push("/// decimals:"@ + v).drop_last() =~= lines);
    reveal(apply_detail_line);
}

/// A `/// is_frozen: <value>` line sets the freeze status to the `bool` that the
/// trimmed value spells (false when it spells none) and changes no other detail.
pub proof fn lemma_is_frozen_line_sets_is_frozen(lines: Seq<Seq<char>>, v: Seq<char>)
    ensures
        details_of_lines(lines.push("/// is_frozen:"@ + v)) == (TokenInfo {
            is_frozen: match parse_bool(crate::text::trim(v)) {
                Some(b) => b,
                None => false,
            },
            ..details_of_lines(lines)
        }),
{
    reveal_strlit("/// is_frozen:");
    reveal_strlit("/// ");
    reveal_strlit(":");
    reveal_strlit("is_frozen");
    reveal_strlit("name");
    reveal_strlit("symbol");
    reveal_strlit("description");
    reveal_strlit("decimals");
    let key = "is_frozen"@;
    assert("/// is_frozen:"@ + v =~= "/// "@ + key + ":"@ + v);
    lemma_detail_line_parts(key, v);
    assert(lines.push("/// is_frozen:"@ + v).drop_last() =~= lines);
    reveal(apply_detail_line);
}

/// A run of characters of a class ends within the text, holds only characters of the
/// class, and stops before one that is not.
pub proof fn lemma_class_run(t: Seq<char>, p: int, class: spec_fn(char) -> bool)
    requires
        0 <= p <= t.len(),
    ensures
        p <= class_run_end(t, p, class) <= t.len(),
        forall|k: int| p <= k < class_run_end(t, p, class) ==> class(#[trigger] t[k]),
        class_run_end(t, p, class) < t.len() ==> !class(t[class_run_end(t, p, class)]),
    decreases t.len() - p,
{
    if p < t.len() && class(t[p]) {
        lemma_class_run(t, p + 1, class);
    }
}

/// Where a currency creation call starts, one starts first.
proof fn lemma_least_coin_match(t: Seq<char>, n: int)
    requires
        coin_match_at(t, n),
    ensures
        exists|i: int| coin_match_at(t, i) && forall|j: int| 0 <= j < i ==> !coin_match_at(t, j),
    decreases n,
{
    if exists|j: int| 0 <= j < n && coin_match_at(t, j) {
        let j = choose|j: int| 0 <= j < n && coin_match_at(t, j);
        lemma_least_coin_match(t, j);
    } else {
        assert(forall|j: int| 0 <= j < n ==> !coin_match_at(t, j));
    }
}

/// The coin type found in a text is a non-empty Move identifier that the text holds
/// as `coin::create_currency<type>`.
pub proof fn lemma_coin_type_found_in_text(t: Seq<char>)
    requires
        coin_type_in(t) is Some,
    ensures
        ({
            let c = coin_type_in(t)->Some_0;
            &&& c.len() > 0
            &&& forall|k: int| 0 <= k < c.len() ==> is_ident_char(#[trigger] c[k])
            &&& contains(t, "coin::create_currency<"@ + c + ">"@)
        }),
{
    reveal_strlit("coin::create_currency<");
    reveal_strlit(">");
    let n = choose|n: int| coin_match_at(t, n);
    lemma_least_coin_match(t, n);
    let i = choose|i: int|
        coin_match_at(t, i) && forall|j: int| 0 <= j < i ==> !coin_match_at(t, j);
    let pre = "coin::create_currency<"@;
    let p = i + pre.len();
    let e = class_run_end(t, p, ident_class());
    assert(t.skip(i).take(pre.len() as int) == pre);
    lemma_class_run(t, p, ident_class());
    let c = t.subrange(p, e);
    assert forall|k: int| 0 <= k < c.len() implies is_ident_char(#[trigger] c[k]) by {
        assert(c[k] == t[p + k]);
        assert(ident_class()(t[p + k]));
    }
    let whole = pre + c + ">"@;
    assert(t.subrange(i, i + whole.len()) =~= whole) by {
        assert forall|k: int| 0 <= k < whole.len() implies t.subrange(i, i + whole.len())[k]
            == whole[k] by {
            if k < pre.len() {
                assert(t.skip(i).take(pre.len() as int)[k] == t[i + k]);
            }
        }
    }
}

/// Where a module declaration starts, one starts first.
proof fn lemma_least_module_match(t: Seq<char>, n: int)
    requires
        module_match_at(t, n),
    ensures
        exists|i: int| module_match_at(t, i) && forall|j: int| 0 <= j < i ==> !module_match_at(t, j),
    decreases n,
{
    if exists|j: int| 0 <= j < n && module_match_at(t, j) {
        let j = choose|j: int| 0 <= j < n && module_match_at(t, j);
        lemma_least_module_match(t, j);
    } else {
        assert(forall|j: int| 0 <= j < n ==> !module_match_at(t, j));
    }
}

/// The module name found in a text is a non-empty Move identifier that the text holds
/// right after a `.` and right before white space.
pub proof fn lemma_module_name_found_in_text(t: Seq<char>)
    requires
        module_name_in(t) is Some,
    ensures
        ({
            let m = module_name_in(t)->Some_0;
            &&& m.len() > 0
            &&& forall|k: int| 0 <= k < m.len() ==> is_ident_char(#[trigger] m[k])
            &&& exists|k: int|
                1 <= k && k + m.len() < t.len() && t[k - 1] == '.' && #[trigger] t.subrange(
                    k,
                    k + m.len(),
                ) == m && crate::text::is_space(t[k + m.len()])
        }),
{
    reveal_strlit("module");
    let n = choose|n: int| module_match_at(t, n);
    lemma_least_module_match(t, n);
    let i = choose|i: int|
        module_match_at(t, i) && forall|j: int| 0 <= j < i ==> !module_match_at(t, j);
    let a = i + "module"@.len();
    assert(t.skip(i).take(6) == "module"@);
    assert(a <= t.len());
    lemma_class_run(t, a, space_class());
    let b = class_run_end(t, a, space_class());
    lemma_class_run(t, b, hex_class());
    let c = class_run_end(t, b, hex_class());
    let d = c + 1;
    lemma_class_run(t, d, ident_class());
    let e = class_run_end(t, d, ident_class());
    lemma_class_run(t, e, space_class());
    assert(module_name_start(t, i) == d);
    let m = t.subrange(d, e);
    assert forall|k: int| 0 <= k < m.len() implies is_ident_char(#[trigger] m[k]) by {
        assert(m[k] == t[d + k]);
        assert(ident_class()(t[d + k]));
    }
    assert(module_name_in(t) == Some(m));
    assert(t[d - 1] == '.');
    assert(e < t.len());
    assert(space_class()(t[e]));
    assert(crate::text::is_space(t[d + m.len()]));
    assert(t.subrange(d, d + m.len()) == m);
    assert(m.len() > 0);
    assert(1 <= d && d + m.len() < t.len());
    assert(module_name_in(t)->Some_0 == m);
    assert(exists|k: int|
        1 <= k && k + m.len() < t.len() && t[k - 1] == '.' && #[trigger] t.subrange(k, k + m.len())
            == m && crate::text::is_space(t[k + m.len()]));
}

} // verus!
