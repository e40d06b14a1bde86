//! Calls into std and into the outside crates whose behaviour this crate relies on.
//! Each item states what the called function is documented to do and is not proved;
//! the one exception is [`environment_refused`], the verified function that Tera is
//! handed in place of its `get_env`.
use crate::text::{
    ascii_lower, ascii_upper, all_ascii, contains, is_ascii_alnum, is_name_char, nonempty_all,
    opt_view,
};
use std::collections::HashMap;
use crate::utils::template::plain_template;
use crate::utils::helpers::{coin_type_in, module_name_in};
use crate::utils::variables::{
    COIN_PATTERN, FREEZE_PATTERN, MODULE_PATTERN, NAME_PATTERN, SHARE_PATTERN, SYMBOL_PATTERN,
};
use toml::Table;
use vstd::prelude::*;

verus! {

/// Whether `c` is alphanumeric in the sense of `char::is_alphanumeric`
/// (Unicode `Alphabetic` or `Numeric`).
pub uninterp spec fn alphanumeric(c: char) -> bool;

/// `char::is_alphanumeric`: decides [`alphanumeric`]. On ASCII the alphanumeric
/// characters are the letters and the digits.
#[verifier::external_body]
pub(crate) fn char_is_alphanumeric(c: char) -> (r: bool)
    ensures
        r == alphanumeric(c),
        (c as u32) < 128 ==> r == is_ascii_alnum(c),
{
    c.is_alphanumeric()
}

/// Appends one character to a `String` (`String::push`).
#[verifier::external_body]
pub(crate) fn push_char(s: &mut String, c: char)
    ensures
        final(s)@ == old(s)@.push(c),
{
    s.push(c);
}

/// The full Unicode lower-case mapping of a string, as `str::to_lowercase` computes it.
pub uninterp spec fn lowercase(s: Seq<char>) -> Seq<char>;

/// The full Unicode upper-case mapping of a string, as `str::to_uppercase` computes it.
pub uninterp spec fn uppercase(s: Seq<char>) -> Seq<char>;

/// `str::to_lowercase`: its result is [`lowercase`] of the argument. On ASCII text the
/// Unicode mapping is the ASCII one: `A`-`Z` become `a`-`z`, all else stays.
#[verifier::external_body]
pub(crate) fn to_lowercase(s: &str) -> (r: String)
    ensures
        r@ == lowercase(s@),
        all_ascii(s@) ==> r@ == ascii_lower(s@),
{
    s.to_lowercase()
}

/// `str::to_uppercase`: its result is [`uppercase`] of the argument. On ASCII text the
/// Unicode mapping is the ASCII one: `a`-`z` become `A`-`Z`, all else stays.
#[verifier::external_body]
pub(crate) fn to_uppercase(s: &str) -> (r: String)
    ensures
        r@ == uppercase(s@),
        all_ascii(s@) ==> r@ == ascii_upper(s@),
{
    s.to_uppercase()
}

/// The answer of the `regex` crate to "does `pattern` match somewhere in `text`":
/// `None` when `pattern` does not compile.
pub uninterp spec fn regex_finds(pattern: Seq<char>, text: Seq<char>) -> Option<bool>;

/// `regex::Regex::new(pattern)` followed by `Regex::is_match(text)`.
/// The result is [`regex_finds`] of the arguments. For the anchored patterns of this
/// crate, whose syntax the `regex` documentation defines (`^`/`$` anchor at the ends
/// of the haystack, `[..]` is a class of code points, `\s` is `White_Space`), the
/// answer is stated outright; for the literal patterns it is substring search. Of
/// other patterns (the repository URL pattern, whose `\w` is the Unicode word class)
/// nothing is stated beyond the name.
#[verifier::external_body]
pub(crate) fn regex_is_match(pattern: &str, text: &str) -> (r: Option<bool>)
    ensures
        r == regex_finds(pattern@, text@),
        pattern@ == SYMBOL_PATTERN@ ==> r == Some(
            nonempty_all(text@, |c: char| is_ascii_alnum(c)),
        ),
        pattern@ == NAME_PATTERN@ ==> r == Some(nonempty_all(text@, |c: char| is_name_char(c))),
        pattern@ == FREEZE_PATTERN@ ==> r == Some(contains(text@, FREEZE_PATTERN@)),
        pattern@ == SHARE_PATTERN@ ==> r == Some(contains(text@, SHARE_PATTERN@)),
{
    match regex::Regex::new(pattern) {
        Ok(re) => Some(re.is_match(text)),
        Err(_) => None,
    }
}

/// The text of capture group `group` in the leftmost-first match of `pattern` in
/// `text`, as the `regex` crate finds it: `None` when `pattern` does not compile, does
/// not match, or the group takes no part in the match.
pub uninterp spec fn regex_group(pattern: Seq<char>, text: Seq<char>, group: nat) -> Option<
    Seq<char>,
>;

/// `regex::Regex::new(pattern)`, `Regex::captures(text)` and `Captures::get(group)`:
/// the result is [`regex_group`] of the arguments. For the two capture patterns of this
/// crate the answer is stated outright from the `regex` documentation: `captures`
/// reports the leftmost match, `[..]` is a class of code points and `\s` is
/// `White_Space`; each of these patterns can match at a given start in one way only.
#[verifier::external_body]
pub(crate) fn regex_capture(pattern: &str, text: &str, group: usize) -> (r: Option<String>)
    ensures
        opt_view(r) == regex_group(pattern@, text@, group as nat),
        pattern@ == MODULE_PATTERN@ && group == 2 ==> opt_view(r) == module_name_in(text@),
        pattern@ == COIN_PATTERN@ && group == 1 ==> opt_view(r) == coin_type_in(text@),
{
    let re = match regex::Regex::new(pattern) {
        Ok(re) => re,
        Err(_) => return None,
    };
    let caps = re.captures(text)?;
    let m = caps.get(group)?;
    Some(m.as_str().to_string())
}

/// Whether the `url` crate parses `s` as an absolute URL.
pub uninterp spec fn url_parses(s: Seq<char>) -> bool;

/// `url::Url::parse`: whether it succeeds, which is [`url_parses`] of the argument.
#[verifier::external_body]
pub(crate) fn url_parse_ok(s: &str) -> (r: bool)
    ensures
        r == url_parses(s@),
{
    match url::Url::parse(s) {
        Ok(_) => true,
        Err(_) => false,
    }
}

/// `rand::distributions::DistString::sample_string` with `Alphanumeric` on the thread
/// generator: `n` characters drawn from `a-z`, `A-Z` and `0-9`. Which ones is chance.
#[verifier::external_body]
pub(crate) fn random_alphanumeric(n: usize) -> (r: String)
    ensures
        r@.len() == n,
        forall|i: int| 0 <= i < r@.len() ==> is_ascii_alnum(#[trigger] r@[i]),
{
    rand::distributions::DistString::sample_string(
        &rand::distributions::Alphanumeric,
        &mut rand::thread_rng(),
        n,
    )
}

/// Tera's JSON value type (`tera::Value`, which is `serde_json::Value`).
#[verifier::external_type_specification]
#[verifier::external_body]
pub struct ExJsonValue(serde_json::Value);

/// Tera's error type.
#[verifier::external_type_specification]
#[verifier::external_body]
pub struct ExTeraError(tera::Error);

/// `tera::Error::msg`: a Tera error carrying `message`. Nothing about it is relied on.
#[verifier::external_body]
fn tera_error(message: &str) -> (r: tera::Error) {
    tera::Error::msg(message)
}

/// What a token template reaches when it calls `get_env`: every call is refused, so
/// that what a template renders never depends on the environment of the process.
pub(crate) fn environment_refused(_args: &HashMap<String, serde_json::Value>) -> (r: Result<
    serde_json::Value,
    tera::Error,
>)
    ensures
        r is Err,
{
    Err(tera_error("get_env is not available to token templates"))
}

/// The text that Tera renders from `template` when the context holds the given
/// `module_name`, `coin_name`, `token_type`, `name`, `symbol`, `decimals`,
/// `description` and `is_frozen`; `None` when Tera reports an error.
pub uninterp spec fn rendered_token(
    template: Seq<char>,
    module_name: Seq<char>,
    coin_name: Seq<char>,
    token_type: Seq<char>,
    name: Seq<char>,
    symbol: Seq<char>,
    decimals: u8,
    description: Seq<char>,
    is_frozen: bool,
) -> Option<Seq<char>>;

/// `tera::Tera::render_str` of `template` on a default `Tera` instance whose `get_env`
/// is replaced by [`environment_refused`], with a `tera::Context` holding the arguments
/// under their own names: the result is [`rendered_token`] of the arguments.
///
/// The instance holds no other template (an `include` or `extends` fails), the one-off
/// template is not auto-escaped, and with Tera's default features off it has no `now`
/// or `get_random`: what is left of Tera's built-ins reads nothing but the context, so
/// the result depends on the arguments alone.
///
/// Only plain templates are admitted ([`plain_template`]). Tera itself does not bound
/// its work: a macro that calls itself recurses without limit, `range` with a zero
/// step never ends, and a `for` or a `set` can multiply the output. A plain template
/// has none of these: its tags are short runs of words (no call, no string, no
/// operator but `|` and `.`), its statements are conditionals only and at most
/// [`crate::utils::template::MAX_STATEMENT_TAGS`] of them, so Tera parses and renders
/// it in time and stack bounded by its length and the context's.
#[verifier::external_body]
pub(crate) fn render_token_template(
    template: &str,
    module_name: &str,
    coin_name: &str,
    token_type: &str,
    name: &str,
    symbol: &str,
    decimals: u8,
    description: &str,
    is_frozen: bool,
) -> (r: Option<String>)
    requires
        plain_template(template@),
    ensures
        opt_view(r) == rendered_token(
            template@,
            module_name@,
            coin_name@,
            token_type@,
            name@,
            symbol@,
            decimals,
            description@,
            is_frozen,
        ),
{
    let mut context = tera::Context::new();
    context.insert("module_name", module_name);
    context.insert("coin_name", coin_name);
    context.insert("token_type", token_type);
    context.insert("name", name);
    context.insert("symbol", symbol);
    context.insert("decimals", &decimals);
    context.insert("description", description);
    context.insert("is_frozen", &is_frozen);
    let mut tera = tera::Tera::default();
    tera.register_function("get_env", environment_refused);
    tera.render_str(template, &context).ok()
}

/// The TOML text that `toml::to_string` produces for the document
/// `[package] name, edition, version` / `[dependencies.Sui] git, subdir, rev` /
/// `[addresses] <address_name> = address`, tables and keys in that order.
pub uninterp spec fn move_toml_text(
    name: Seq<char>,
    edition: Seq<char>,
    version: Seq<char>,
    git: Seq<char>,
    subdir: Seq<char>,
    rev: Seq<char>,
    address_name: Seq<char>,
    address: Seq<char>,
) -> Seq<char>;

/// `toml::to_string` of a `toml::Table` (insertion-ordered) built from the arguments:
/// the result is [`move_toml_text`] of the arguments. A table of strings always
/// serialises, so the call does not fail.
#[verifier::external_body]
pub(crate) fn render_move_toml(
    name: &str,
    edition: &str,
    version: &str,
    git: &str,
    subdir: &str,
    rev: &str,
    address_name: &str,
    address: &str,
) -> (r: String)
    ensures
        r@ == move_toml_text(name@, edition@, version@, git@, subdir@, rev@, address_name@, address@),
{
    let package = Table::from_iter(
        [("name".into(), name.into()), ("edition".into(), edition.into()), ("version".into(), version.into())],
    );
    let sui = Table::from_iter(
        [("git".into(), git.into()), ("subdir".into(), subdir.into()), ("rev".into(), rev.into())],
    );
    let document = Table::from_iter(
        [
            ("package".into(), package.into()),
            ("dependencies".into(), Table::from_iter([("Sui".into(), sui.into())]).into()),
            ("addresses".into(), Table::from_iter([(address_name.into(), address.into())]).into()),
        ],
    );
    toml::to_string(&document).unwrap()
}

/// The name of the package of a Move manifest, as `toml_edit` reads it: the string at
/// `package.name`; `None` when the text does not parse, or that key is missing or holds
/// no string.
pub uninterp spec fn package_name_in(manifest: Seq<char>) -> Option<Seq<char>>;

/// `str::parse::<toml_edit::DocumentMut>`, then `get("package")`, `get("name")` and
/// `as_str`: the result is [`package_name_in`] of the argument.
#[verifier::external_body]
pub(crate) fn toml_package_name(manifest: &str) -> (r: Option<String>)
    ensures
        opt_view(r) == package_name_in(manifest@),
{
    let doc = manifest.parse::<toml_edit::DocumentMut>().ok()?;
    let name = doc.get("package")?.get("name")?.as_str()?;
    Some(name.to_string())
}

/// The text of a Move manifest after `toml_edit` sets `addresses.<key>` to the string
/// `value`, adding the table or the key where missing and keeping the rest of the
/// document as it was written; `None` when the text does not parse or `addresses` is
/// neither a table nor an inline table.
pub uninterp spec fn with_address(manifest: Seq<char>, key: Seq<char>, value: Seq<char>) -> Option<
    Seq<char>,
>;

/// `str::parse::<toml_edit::DocumentMut>`, indexing `addresses` (which adds it when
/// missing), `Item::get_mut(key)` and assigning `toml_edit::value(value)`, then
/// `to_string`: the result is [`with_address`] of the arguments.
#[verifier::external_body]
pub(crate) fn toml_set_address(manifest: &str, key: &str, value: &str) -> (r: Option<String>)
    ensures
        opt_view(r) == with_address(manifest@, key@, value@),
{
    let mut doc = manifest.parse::<toml_edit::DocumentMut>().ok()?;
    *doc["addresses"].get_mut(key)? = toml_edit::value(value);
    Some(doc.to_string())
}

/// What `serde_json` reads from the build output `output`: `Err` with the message of its
/// error when the text is not JSON; otherwise the first entry of the `modules` array
/// when it is a string, and `None` when there is no such entry.
pub uninterp spec fn first_module(output: Seq<char>) -> Result<Option<Seq<char>>, Seq<char>>;

/// `serde_json::from_str::<serde_json::Value>` (its error turned into its message), then
/// indexing `modules`, `get(0)` and `as_str`: the result is [`first_module`] of the
/// argument.
#[verifier::external_body]
pub(crate) fn json_first_module(stdout: &str) -> (r: Result<Option<String>, String>)
    ensures
        match r {
            Ok(m) => first_module(stdout@) == Ok::<Option<Seq<char>>, Seq<char>>(opt_view(m)),
            Err(e) => first_module(stdout@) == Err::<Option<Seq<char>>, Seq<char>>(e@),
        },
{
    let json = match serde_json::from_str::<serde_json::Value>(stdout) {
        Ok(json) => json,
        Err(e) => return Err(e.to_string()),
    };
    Ok(json["modules"].get(0).and_then(serde_json::Value::as_str).map(String::from))
}

} // verus!
