//! Verification of token contracts against the contract that their own details generate.
use crate::errors::TokenGenErrors;
use crate::foreign::{regex_finds, url_parse_ok, url_parses};
use crate::text::{
    chars_of, ends_with, eq_str, is_ascii_alnum, lemma_split_on_nonempty, seqs_of, split_chars,
    split_on, string_of, strip_char, strip_char_chars, sub_chars, trimmed_lines, trim,
    starts_with, ascii_lower,
};
use crate::utils::generation::{
    generate_move_toml, generate_token, move_toml_of, token_text, TokenTemplates,
};
use crate::utils::helpers::{
    cleaned, filter_whitespace_and_empty_lines, first_environment, get_environment_from_toml,
    get_token_info, is_path_char, is_valid_repository_url, keep_alphanumeric,
    lemma_safe_repo_name_is_safe, safe_repo_name, sanitize_name, sanitize_repo_name_with_random,
    token_info, RANDOM_SUFFIX_LEN, is_code_line, lemma_cleaned_with_line,
};
use crate::utils::server_types::create_check;
use crate::utils::variables::{DEFAULT_ENVIRONMENT, REPOSITORY_URL_PATTERN, TokenInfo};
use vstd::prelude::*;

verus! {

/// The verdict on a contract and its manifest, given the contract template: both are
/// cleaned (a comment makes the contract count as modified); the token details are read
/// from the cleaned contract, and the contract and manifest they generate (manifest for
/// the network of the `rev` line, `devnet` when there is none) are cleaned in turn; the
/// contract verifies when both cleaned pairs are equal.
pub open spec fn contract_verdict(template: Seq<char>, current: Seq<char>, manifest: Seq<char>) -> Result<
    (),
    TokenGenErrors,
> {
    match (cleaned(current), cleaned(manifest)) {
        (Some(cc), Some(cm)) => {
            let d = token_info(cc);
            match token_text(template, d.decimals, d.symbol, d.name, d.description, d.is_frozen) {
                None => Err(TokenGenErrors::TemplateError),
                Some(expected) => {
                    let environment = match first_environment(trimmed_lines(cm)) {
                        Some(e) => e,
                        None => DEFAULT_ENVIRONMENT@,
                    };
                    let expected_manifest = move_toml_of(keep_alphanumeric(d.name), environment);
                    match (cleaned(expected), cleaned(expected_manifest)) {
                        (Some(ce), Some(cem)) => if cc == ce && cm == cem {
                            Ok(())
                        } else {
                            Err(TokenGenErrors::ContractModified)
                        },
                        _ => Err(TokenGenErrors::ContractModified),
                    }
                },
            }
        },
        _ => Err(TokenGenErrors::ContractModified),
    }
}

/// Checks that a contract and its `Move.toml` are exactly what the service generates
/// for the details that the contract declares, up to white space, empty lines and case.
pub fn compare_contract_content(
    templates: &TokenTemplates,
    current_content: String,
    toml_content: String,
) -> (r: Result<(), TokenGenErrors>)
    ensures
        r == contract_verdict(templates.token@, current_content@, toml_content@),
{
    let cleaned_current_content = filter_whitespace_and_empty_lines(current_content.as_str())?;
    let cleaned_toml_content = filter_whitespace_and_empty_lines(toml_content.as_str())?;
    let details = get_token_info(cleaned_current_content.as_str());
    let expected_content = generate_token(
        templates,
        details.decimals,
        details.symbol.clone(),
        details.name.clone(),
        details.description.clone(),
        details.is_frozen,
        false,
    )?;
    let environment = match get_environment_from_toml(cleaned_toml_content.as_str()) {
        Some(e) => e,
        None => String::from_str(DEFAULT_ENVIRONMENT),
    };
    let expected_toml_content = generate_move_toml(
        sanitize_name(details.name.as_str()),
        environment,
    );
    let cleaned_expected_content = filter_whitespace_and_empty_lines(expected_content.as_str())?;
    let cleaned_expected_toml_content = filter_whitespace_and_empty_lines(
        expected_toml_content.as_str(),
    )?;
    if cleaned_current_content != cleaned_expected_content || cleaned_toml_content
        != cleaned_expected_toml_content {
        return Err(TokenGenErrors::ContractModified);
    }
    Ok(())
}

/// The verdict on a contract alone: it is cleaned, its details are read, and the
/// contract they generate, cleaned, must be the same text.
pub open spec fn token_verdict(template: Seq<char>, current: Seq<char>) -> Result<(), TokenGenErrors> {
    match cleaned(current) {
        Some(cc) => {
            let d = token_info(cc);
            match token_text(template, d.decimals, d.symbol, d.name, d.description, d.is_frozen) {
                None => Err(TokenGenErrors::TemplateError),
                Some(expected) => match cleaned(expected) {
                    Some(ce) => if cc == ce {
                        Ok(())
                    } else {
                        Err(TokenGenErrors::ContractModified)
                    },
                    None => Err(TokenGenErrors::ContractModified),
                },
            }
        },
        None => Err(TokenGenErrors::ContractModified),
    }
}

/// Checks that a contract is exactly what the service generates for the details it
/// declares, up to white space, empty lines and case (the check behind content
/// verification, where no manifest is given).
pub fn compare_token_content(templates: &TokenTemplates, current_content: String) -> (r: Result<
    (),
    TokenGenErrors,
>)
    ensures
        r == token_verdict(templates.token@, current_content@),
{
    let cleaned_current_content = filter_whitespace_and_empty_lines(current_content.as_str())?;
    let details = get_token_info(cleaned_current_content.as_str());
    let expected_content = generate_token(
        templates,
        details.decimals,
        details.symbol.clone(),
        details.name.clone(),
        details.description.clone(),
        details.is_frozen,
        false,
    )?;
    let cleaned_expected_content = filter_whitespace_and_empty_lines(expected_content.as_str())?;
    if cleaned_current_content != cleaned_expected_content {
        return Err(TokenGenErrors::ContractModified);
    }
    Ok(())
}

/// Checks what was read from a cloned repository: both the first `.move` source and the
/// `Move.toml` must be non-empty, and then the contract must verify.
pub fn verify_repository_contents(
    templates: &TokenTemplates,
    move_content: String,
    toml_content: String,
) -> (r: Result<(), TokenGenErrors>)
    ensures
        r == (if move_content@.len() == 0 || toml_content@.len() == 0 {
            Err(TokenGenErrors::InvalidPathNoMoveFiles)
        } else {
            contract_verdict(templates.token@, move_content@, toml_content@)
        }),
{
    if move_content.unicode_len() == 0 || toml_content.unicode_len() == 0 {
        return Err(TokenGenErrors::InvalidPathNoMoveFiles);
    }
    compare_contract_content(templates, move_content, toml_content)
}

/// A file that can hold the token contract: `<stem>.move` with a non-empty stem that has
/// no `.` of its own.
pub open spec fn is_move_source(file_name: Seq<char>) -> bool {
    &&& ends_with(file_name, ".move"@)
    &&& file_name.len() > ".move"@.len()
    &&& forall|i: int| 0 <= i < file_name.len() - ".move"@.len() ==> #[trigger] file_name[i] != '.'
}

/// Whether a file of a package's `sources` folder can hold the token contract.
pub fn is_move_source_file(file_name: &str) -> (r: bool)
    ensures
        r == is_move_source(file_name@),
{
    let v = chars_of(file_name);
    let ext = ".move";
    let e = ext.unicode_len();
    if v.len() <= e {
        return false;
    }
    let stem_len = v.len() - e;
    let tail = sub_chars(&v, stem_len, v.len());
    if !eq_str(&tail, ext) {
        assert(v@.skip(stem_len as int) =~= tail@);
        return false;
    }
    assert(v@.skip(stem_len as int) =~= tail@);
    let mut i: usize = 0;
    while i < stem_len
        invariant
            stem_len == v@.len() - e,
            e == ".move"@.len(),
            i <= stem_len,
            v@ == file_name@,
            forall|j: int| 0 <= j < i ==> #[trigger] v@[j] != '.',
        decreases stem_len - i,
    {
        if v[i] == '.' {
            return false;
        }
        i = i + 1;
    }
    true
}

/// `s` with every trailing copy of the non-empty `p` removed (`str::trim_end_matches`).
pub open spec fn strip_suffix_all(s: Seq<char>, p: Seq<char>) -> Seq<char>
    decreases s.len(),
{
    if p.len() > 0 && ends_with(s, p) {
        strip_suffix_all(s.take(s.len() - p.len()), p)
    } else {
        s
    }
}

/// The repository name in a repository URL: the last `/`-separated piece, once every
/// trailing `.git` is gone.
pub open spec fn repo_name_of(url: Seq<char>) -> Seq<char> {
    split_on(strip_suffix_all(url, ".git"@), '/').last()
}

/// The repository name in a repository URL (see [`repo_name_of`]).
pub fn repo_name_from_url(url: &str) -> (r: String)
    ensures
        r@ == repo_name_of(url@),
{
    proof {
        reveal_strlit(".git");
    }
    let v = chars_of(url);
    let n = ".git".unicode_len();
    let mut end = v.len();
    assert(v@.take(end as int) =~= v@);
    loop
        invariant
            end <= v@.len(),
            v@ == url@,
            n == ".git"@.len() > 0,
            strip_suffix_all(url@, ".git"@) == strip_suffix_all(v@.take(end as int), ".git"@),
        ensures
            end <= v@.len(),
            strip_suffix_all(url@, ".git"@) == v@.take(end as int),
        decreases end,
    {
        if end < n {
            break;
        }
        let tail = sub_chars(&v, end - n, end);
        assert(v@.take(end as int).skip(end - n) =~= tail@);
        if !eq_str(&tail, ".git") {
            break;
        }
        assert(v@.take(end as int).take(end - n) =~= v@.take(end - n));
        assert(ends_with(v@.take(end as int), ".git"@));
        end = end - n;
    }
    let stem = sub_chars(&v, 0, end);
    assert(stem@ =~= v@.take(end as int));
    let pieces = split_chars(&stem, '/');
    proof {
        lemma_split_on_nonempty(stem@, '/');
        assert(seqs_of(pieces@).last() == pieces@.last()@);
    }
    string_of(&pieces[pieces.len() - 1])
}

/// Validates a repository URL (a URL, and one of a GitHub or GitLab repository) and
/// names the local folder to clone it into: the sanitised repository name, `_`, and
/// eight random ASCII letters or digits.
pub fn validate_url(url: &str) -> (r: Result<String, TokenGenErrors>)
    ensures
        !url_parses(url@) ==> r == Err::<String, TokenGenErrors>(TokenGenErrors::InvalidUrl),
        url_parses(url@) && regex_finds(REPOSITORY_URL_PATTERN@, url@) != Some(true) ==> r == Err::<
            String,
            TokenGenErrors,
        >(TokenGenErrors::InvalidGitUrl),
        url_parses(url@) && regex_finds(REPOSITORY_URL_PATTERN@, url@) == Some(true) ==> r is Ok,
        r matches Ok(dir) ==> {
            let base = safe_repo_name(repo_name_of(url@));
            &&& dir@.len() == base.len() + 1 + RANDOM_SUFFIX_LEN
            &&& dir@.take(base.len() as int) == base
            &&& dir@[base.len() as int] == '_'
            &&& forall|i: int| base.len() < i < dir@.len() ==> is_ascii_alnum(#[trigger] dir@[i])
        },
{
    if !url_parse_ok(url) {
        return Err(TokenGenErrors::InvalidUrl);
    }
    is_valid_repository_url(url)?;
    let name = repo_name_from_url(url);
    Ok(sanitize_repo_name_with_random(name.as_str()))
}

/// Compares the byte code deployed on chain (possibly in JSON quotes) with the byte code
/// built locally.
pub fn compare_bytecode(deployed: &str, local: &str) -> (r: Result<(), TokenGenErrors>)
    ensures
        r == (if strip_char(deployed@, '"') == local@ {
            Ok::<(), TokenGenErrors>(())
        } else {
            Err(TokenGenErrors::ContractModified)
        }),
{
    let d = strip_char_chars(&chars_of(deployed), '"');
    if eq_str(&d, local) {
        Ok(())
    } else {
        Err(TokenGenErrors::ContractModified)
    }
}

/// The full coin type `address::module::coin`.
pub fn full_coin_type(address: &str, module_name: &str, coin_type: &str) -> (r: String)
    ensures
        r@ == address@ + "::"@ + module_name@ + "::"@ + coin_type@,
{
    let mut r = String::from_str(address);
    r.append("::");
    r.append(module_name);
    r.append("::");
    r.append(coin_type);
    r
}


/// A folder named by [`validate_url`] (`<sanitised name>_<suffix>`) holds no `.`, `/`
/// or `\`, so a clone never lands outside the working directory.
pub proof fn lemma_clone_folder_is_safe(url: Seq<char>, dir: Seq<char>)
    requires
        ({
            let base = safe_repo_name(repo_name_of(url));
            &&& dir.len() == base.len() + 1 + RANDOM_SUFFIX_LEN
            &&& dir.take(base.len() as int) == base
            &&& dir[base.len() as int] == '_'
            &&& forall|i: int| base.len() < i < dir.len() ==> is_ascii_alnum(#[trigger] dir[i])
        }),
    ensures
        dir.len() > 0,
        forall|i: int| 0 <= i < dir.len() ==> !is_path_char(#[trigger] dir[i]),
{
    let base = safe_repo_name(repo_name_of(url));
    lemma_safe_repo_name_is_safe(repo_name_of(url));
    assert forall|i: int| 0 <= i < dir.len() implies !is_path_char(#[trigger] dir[i]) by {
        if i < base.len() {
            assert(dir[i] == dir.take(base.len() as int)[i]);
            assert(!is_path_char(base[i]));
        } else if i > base.len() {
            assert(is_ascii_alnum(dir[i]));
        }
    }
}

/// A contract and manifest made by [`crate::utils::server_types::create_token`] verify against the same templates,
/// provided that reading the cleaned contract gives back the token's own details and
/// the cleaned manifest names the network it was made for (`devnet` also when it names
/// none): regenerating from what the contract declares reproduces both files.
pub proof fn lemma_created_contract_verifies(
    templates: &TokenTemplates,
    decimals: u8,
    name: Seq<char>,
    symbol: Seq<char>,
    description: Seq<char>,
    is_frozen: bool,
    environment: Seq<char>,
    token: Seq<char>,
    manifest: Seq<char>,
)
    requires
        create_check(decimals, name, symbol, description, environment) is Ok,
        token_text(templates.token@, decimals, symbol, name, description, is_frozen) == Some(token),
        manifest == move_toml_of(
            keep_alphanumeric(name),
            create_check(decimals, name, symbol, description, environment)->Ok_0,
        ),
        cleaned(token) matches Some(cc) && token_info(cc) == (TokenInfo {
            decimals,
            symbol,
            name,
            description,
            is_frozen,
        }),
        cleaned(manifest) matches Some(cm) && match first_environment(trimmed_lines(cm)) {
            Some(e) => e == create_check(decimals, name, symbol, description, environment)->Ok_0,
            None => DEFAULT_ENVIRONMENT@ == create_check(
                decimals,
                name,
                symbol,
                description,
                environment,
            )->Ok_0,
        },
    ensures
        contract_verdict(templates.token@, token, manifest) == Ok::<(), TokenGenErrors>(()),
{
}


/// A contract made by [`crate::utils::server_types::create_token`] passes content
/// verification against the same templates, provided that reading the cleaned contract
/// gives back the token's own details.
pub proof fn lemma_created_token_verifies(
    templates: &TokenTemplates,
    decimals: u8,
    name: Seq<char>,
    symbol: Seq<char>,
    description: Seq<char>,
    is_frozen: bool,
    token: Seq<char>,
)
    requires
        token_text(templates.token@, decimals, symbol, name, description, is_frozen) == Some(token),
        cleaned(token) matches Some(cc) && token_info(cc) == (TokenInfo {
            decimals,
            symbol,
            name,
            description,
            is_frozen,
        }),
    ensures
        token_verdict(templates.token@, token) == Ok::<(), TokenGenErrors>(()),
{
}

/// The network that a cleaned manifest is checked against: the one its first `rev`
/// line names, `devnet` when no line does.
pub open spec fn manifest_network(cm: Seq<char>) -> Seq<char> {
    match first_environment(trimmed_lines(cm)) {
        Some(e) => e,
        None => "devnet"@,
    }
}

/// What a verified contract and manifest are: the cleaned contract is exactly the
/// cleaned contract that the template renders for the details it declares, and the
/// cleaned manifest is exactly the cleaned manifest generated for the alphanumeric
/// characters of the declared name and the manifest's network.
pub open spec fn regenerates(template: Seq<char>, current: Seq<char>, manifest: Seq<char>) -> bool {
    &&& cleaned(current) is Some
    &&& cleaned(manifest) is Some
    &&& {
        let cc = cleaned(current)->Some_0;
        let cm = cleaned(manifest)->Some_0;
        let d = token_info(cc);
        &&& token_text(template, d.decimals, d.symbol, d.name, d.description, d.is_frozen) matches Some(
            expected,
        ) && cleaned(expected) == Some(cc)
        &&& cleaned(move_toml_of(keep_alphanumeric(d.name), manifest_network(cm))) == Some(cm)
    }
}

/// A contract with its manifest verifies if and only if both equal, once cleaned, what
/// is regenerated from the contract's own details: a manifest or contract that merely
/// starts with the regenerated text, or differs from it in any line, is refused. A
/// refusal is a modified contract or, when the template renders nothing, a template
/// error.
pub proof fn lemma_contract_verifies_iff_regenerated(
    template: Seq<char>,
    current: Seq<char>,
    manifest: Seq<char>,
)
    ensures
        contract_verdict(template, current, manifest) is Ok <==> regenerates(
            template,
            current,
            manifest,
        ),
        contract_verdict(template, current, manifest) matches Err(e) ==> (e
            == TokenGenErrors::ContractModified || e == TokenGenErrors::TemplateError),
{
}

/// A contract passes content verification if and only if, once cleaned, it equals the
/// cleaned contract that the template renders for the details it declares.
pub proof fn lemma_token_verifies_iff_regenerated(template: Seq<char>, current: Seq<char>)
    ensures
        token_verdict(template, current) is Ok <==> (cleaned(current) matches Some(cc) && {
            let d = token_info(cc);
            token_text(template, d.decimals, d.symbol, d.name, d.description, d.is_frozen) matches Some(
                expected,
            ) && cleaned(expected) == Some(cc)
        }),
        token_verdict(template, current) matches Err(e) ==> (e == TokenGenErrors::ContractModified
            || e == TokenGenErrors::TemplateError),
{
}

/// A contract that passes content verification fails it once a line of code that is
/// no `///` line is appended: nothing may follow the regenerated contract.
pub proof fn lemma_token_with_appended_code_refused(
    template: Seq<char>,
    current: Seq<char>,
    l: Seq<char>,
)
    requires
        token_verdict(template, current) is Ok,
        is_code_line(l),
        !starts_with(trim(l), "///"@),
    ensures
        token_verdict(template, current + seq!['\n'] + l) == Err::<(), TokenGenErrors>(
            TokenGenErrors::ContractModified,
        ),
{
    lemma_cleaned_with_line(current, l);
}

/// A contract that verifies with its manifest no longer does once a line of code that
/// is no `///` line is appended to the contract.
pub proof fn lemma_contract_with_appended_code_refused(
    template: Seq<char>,
    current: Seq<char>,
    manifest: Seq<char>,
    l: Seq<char>,
)
    requires
        contract_verdict(template, current, manifest) is Ok,
        is_code_line(l),
        !starts_with(trim(l), "///"@),
    ensures
        contract_verdict(template, current + seq!['\n'] + l, manifest) == Err::<
            (),
            TokenGenErrors,
        >(TokenGenErrors::ContractModified),
{
    lemma_cleaned_with_line(current, l);
}

/// A contract that verifies with its manifest no longer does once a line is appended
/// to the manifest (one that is not blank, no comment and no `rev =` line): a manifest
/// that merely starts with the regenerated one is refused.
pub proof fn lemma_manifest_with_appended_line_refused(
    template: Seq<char>,
    current: Seq<char>,
    manifest: Seq<char>,
    l: Seq<char>,
)
    requires
        contract_verdict(template, current, manifest) is Ok,
        is_code_line(l),
        !starts_with(ascii_lower(trim(l)), "rev ="@),
    ensures
        contract_verdict(template, current, manifest + seq!['\n'] + l) == Err::<
            (),
            TokenGenErrors,
        >(TokenGenErrors::ContractModified),
{
    lemma_cleaned_with_line(manifest, l);
}

} // verus!
