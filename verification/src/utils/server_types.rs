//! Requests and responses of the token service, and the validation and generation
//! behind its `create` operation.
use crate::errors::{message_of, TokenGenErrors};
use crate::foreign::regex_is_match;
use crate::text::{is_name_char, nonempty_all};
use crate::text::{chars_of, eq_str, is_ascii_alnum};
use crate::utils::generation::{
    generate_move_toml, generate_token, move_toml_of, token_text, TokenTemplates,
};
use crate::utils::helpers::{
    details_of_lines, keep_alphanumeric, lemma_description_line_sets_description,
    lemma_name_alphabet_reported_as_written, reported_description, sanitize_name,
};
use crate::text::{lemma_trim_chars, trim, trim_start};
use crate::utils::variables::{DEFAULT_ENVIRONMENT, NAME_PATTERN, SYMBOL_PATTERN, VERIFICATION_MESSAGE};
use vstd::prelude::*;

verus! {

/// Request to create a token.
pub struct CreateRequest {
    /// Number of decimal places of the token.
    pub decimals: u8,
    /// Name of the token.
    pub name: String,
    /// Symbol of the token.
    pub symbol: String,
    /// Description of the token (may be empty).
    pub description: String,
    /// Whether the token metadata is frozen.
    pub is_frozen: bool,
    /// Network: `mainnet`, `devnet` or `testnet`.
    pub environment: String,
}

/// The generated files of a token.
pub struct CreateResponse {
    /// The coin module.
    pub token: String,
    /// The package manifest.
    pub move_toml: String,
    /// The tests of the coin module.
    pub test_token: String,
}

/// Request to verify a contract's content.
pub struct ContentVerifyRequest {
    /// The contract to verify.
    pub content: String,
}

/// Request to verify the contract of a repository.
pub struct UrlVerifyRequest {
    /// The repository URL.
    pub url: String,
}

/// Outcome of a verification (or a failed creation).
pub struct VerifyUrlResponse {
    /// Whether the operation succeeded.
    pub success: bool,
    /// What happened.
    pub message: String,
    /// Why it failed, when it did.
    pub error: Option<String>,
}

impl VerifyUrlResponse {
    /// The HTTP status and body that answer a verification: 200 and the success message,
    /// or 400 with the error's message.
    pub fn for_verification(result: &Result<(), TokenGenErrors>) -> (r: (u16, VerifyUrlResponse))
        ensures
            match result {
                Ok(()) => r.0 == 200 && r.1.success && r.1.message@ == VERIFICATION_MESSAGE@
                    && r.1.error is None,
                Err(e) => {
                    &&& r.0 == 400
                    &&& !r.1.success
                    &&& r.1.message@ == "Verification failed"@
                    &&& r.1.error matches Some(m) && m@ == message_of(*e)
                },
            },
    {
        match result {
            Ok(()) => (
                200,
                VerifyUrlResponse {
                    success: true,
                    message: String::from_str(VERIFICATION_MESSAGE),
                    error: None,
                },
            ),
            Err(e) => (
                400,
                VerifyUrlResponse {
                    success: false,
                    message: String::from_str("Verification failed"),
                    error: Some(e.message()),
                },
            ),
        }
    }

    /// The HTTP status and body that answer a failed creation: 400 with the error's message.
    pub fn creation_failed(e: &TokenGenErrors) -> (r: (u16, VerifyUrlResponse))
        ensures
            r.0 == 400,
            !r.1.success,
            r.1.message@ == "Creation failed"@,
            r.1.error matches Some(m) && m@ == message_of(*e),
    {
        (
            400,
            VerifyUrlResponse {
                success: false,
                message: String::from_str("Creation failed"),
                error: Some(e.message()),
            },
        )
    }
}

/// A symbol: one to six ASCII letters or digits.
pub open spec fn valid_symbol(symbol: Seq<char>) -> bool {
    nonempty_all(symbol, |c: char| is_ascii_alnum(c)) && symbol.len() <= 6
}

/// A name: ASCII letters, digits, white space, commas and dots, at least one.
pub open spec fn valid_name(name: Seq<char>) -> bool {
    nonempty_all(name, |c: char| is_name_char(c))
}

/// The networks a token can be generated for.
pub open spec fn known_environment(environment: Seq<char>) -> bool {
    environment == "mainnet"@ || environment == "devnet"@ || environment == "testnet"@
}

/// The checks of a creation request, in order: decimals in `1..=99`, a valid symbol, a
/// valid name, and a description that is empty or valid as a name. On success, the
/// network to use: the requested one when known, `devnet` otherwise.
pub open spec fn create_check(
    decimals: u8,
    name: Seq<char>,
    symbol: Seq<char>,
    description: Seq<char>,
    environment: Seq<char>,
) -> Result<Seq<char>, TokenGenErrors> {
    if decimals == 0 || decimals >= 100 {
        Err(TokenGenErrors::InvalidDecimals)
    } else if !valid_symbol(symbol) {
        Err(TokenGenErrors::InvalidSymbol)
    } else if !valid_name(name) {
        Err(TokenGenErrors::InvalidName)
    } else if description.len() > 0 && !valid_name(description) {
        Err(TokenGenErrors::InvalidDescription)
    } else if known_environment(environment) {
        Ok(environment)
    } else {
        Ok(DEFAULT_ENVIRONMENT@)
    }
}

/// Validates a creation request and returns the network to generate for.
pub fn validate_create_request(
    decimals: u8,
    name: &str,
    symbol: &str,
    description: &str,
    environment: &str,
) -> (r: Result<String, TokenGenErrors>)
    ensures
        match r {
            Ok(env) => create_check(decimals, name@, symbol@, description@, environment@) == Ok::<
                Seq<char>,
                TokenGenErrors,
            >(env@),
            Err(e) => create_check(decimals, name@, symbol@, description@, environment@) == Err::<
                Seq<char>,
                TokenGenErrors,
            >(e),
        },
{
    if decimals == 0 || decimals >= 100 {
        return Err(TokenGenErrors::InvalidDecimals);
    }
    if regex_is_match(SYMBOL_PATTERN, symbol) != Some(true) {
        return Err(TokenGenErrors::InvalidSymbol);
    }
    if symbol.unicode_len() > 6 {
        return Err(TokenGenErrors::InvalidSymbol);
    }
    if regex_is_match(NAME_PATTERN, name) != Some(true) {
        return Err(TokenGenErrors::InvalidName);
    }
    if description.unicode_len() > 0 && regex_is_match(NAME_PATTERN, description) != Some(true) {
        return Err(TokenGenErrors::InvalidDescription);
    }
    let env = chars_of(environment);
    if eq_str(&env, "mainnet") || eq_str(&env, "devnet") || eq_str(&env, "testnet") {
        Ok(String::from_str(environment))
    } else {
        Ok(String::from_str(DEFAULT_ENVIRONMENT))
    }
}

/// Creates a token: validates the request, then generates the coin module, the package
/// manifest (named after the alphanumeric characters of the name) and the tests.
pub fn create_token(
    templates: &TokenTemplates,
    decimals: u8,
    name: String,
    symbol: String,
    description: String,
    is_frozen: bool,
    environment: String,
) -> (r: Result<(String, String, String), TokenGenErrors>)
    ensures
        match create_check(decimals, name@, symbol@, description@, environment@) {
            Err(e) => r == Err::<(String, String, String), TokenGenErrors>(e),
            Ok(env) => {
                let token = token_text(
                    templates.token@,
                    decimals,
                    symbol@,
                    name@,
                    description@,
                    is_frozen,
                );
                let tests = token_text(
                    templates.token_tests@,
                    decimals,
                    symbol@,
                    name@,
                    description@,
                    is_frozen,
                );
                match r {
                    Ok((t, m, tt)) => token == Some(t@) && tests == Some(tt@) && m@ == move_toml_of(
                        keep_alphanumeric(name@),
                        env,
                    ),
                    Err(e) => e == TokenGenErrors::TemplateError && (token is None || tests is None),
                }
            },
        },
{
    let environment = validate_create_request(
        decimals,
        name.as_str(),
        symbol.as_str(),
        description.as_str(),
        environment.as_str(),
    )?;
    let base_folder = sanitize_name(name.as_str());
    let token_content = generate_token(
        templates,
        decimals,
        symbol.clone(),
        name.clone(),
        description.clone(),
        is_frozen,
        false,
    )?;
    let test_token_content = generate_token(
        templates,
        decimals,
        symbol.clone(),
        name.clone(),
        description.clone(),
        is_frozen,
        true,
    )?;
    let move_toml_content = generate_move_toml(base_folder, environment);
    Ok((token_content, move_toml_content, test_token_content))
}

/// The network of a request never changes whether its fields pass the checks, nor
/// which check refuses them.
pub proof fn lemma_network_does_not_affect_field_checks(
    decimals: u8,
    name: Seq<char>,
    symbol: Seq<char>,
    description: Seq<char>,
    environment: Seq<char>,
    other: Seq<char>,
)
    ensures
        create_check(decimals, name, symbol, description, environment) is Ok <==> create_check(
            decimals,
            name,
            symbol,
            description,
            other,
        ) is Ok,
        create_check(decimals, name, symbol, description, environment) matches Err(e)
            ==> create_check(decimals, name, symbol, description, other) == Err::<
            Seq<char>,
            TokenGenErrors,
        >(e),
{
}

/// A request whose fields pass the checks is generated for the network it asks for
/// when that is `mainnet`, `devnet` or `testnet`, and for `devnet` otherwise.
pub proof fn lemma_requested_network_kept(
    decimals: u8,
    name: Seq<char>,
    symbol: Seq<char>,
    description: Seq<char>,
    environment: Seq<char>,
)
    requires
        create_check(decimals, name, symbol, description, environment) is Ok,
    ensures
        create_check(decimals, name, symbol, description, environment) == Ok::<
            Seq<char>,
            TokenGenErrors,
        >(
            if environment == "mainnet"@ || environment == "devnet"@ || environment
                == "testnet"@ {
                environment
            } else {
                "devnet"@
            },
        ),
{
}

/// Every description that a creation request may carry is read back from a contract
/// as written: it is made of letters, digits, white space, commas and dots, none of
/// which calls for quoting.
pub proof fn lemma_accepted_description_reported_as_written(
    decimals: u8,
    name: Seq<char>,
    symbol: Seq<char>,
    description: Seq<char>,
    environment: Seq<char>,
)
    requires
        create_check(decimals, name, symbol, description, environment) is Ok,
    ensures
        reported_description(description) == description,
{
    if description.len() > 0 {
        assert(valid_name(description));
        assert forall|i: int| 0 <= i < description.len() implies is_name_char(
            #[trigger] description[i],
        ) by {
            assert((|c: char| is_name_char(c))(description[i]));
        }
        lemma_name_alphabet_reported_as_written(description);
    }
}

/// The description line that a contract carries for an accepted request,
/// `/// description: <description>`, is read back as the description itself, trimmed:
/// never quoted, whatever lines come before it.
pub proof fn lemma_accepted_description_read_back(
    lines: Seq<Seq<char>>,
    decimals: u8,
    name: Seq<char>,
    symbol: Seq<char>,
    description: Seq<char>,
    environment: Seq<char>,
)
    requires
        create_check(decimals, name, symbol, description, environment) is Ok,
    ensures
        details_of_lines(lines.push("/// description: "@ + description)).description == trim(
            description,
        ),
{
    reveal_strlit("/// description: ");
    reveal_strlit("/// description:");
    let v = seq![' '] + description;
    assert("/// description: "@ + description =~= "/// description:"@ + v);
    lemma_description_line_sets_description(lines, v);
    assert(v.drop_first() =~= description);
    assert(trim_start(v) == trim_start(description));
    assert(trim(v) == trim(description));
    lemma_trim_chars(description);
    if description.len() > 0 {
        assert(valid_name(description));
    }
    assert forall|i: int| 0 <= i < trim(description).len() implies is_name_char(
        #[trigger] trim(description)[i],
    ) by {
        let k = choose|k: int| 0 <= k < description.len() && description[k] == #[trigger] trim(description)[i];
        assert((|c: char| is_name_char(c))(description[k]));
    }
    lemma_name_alphabet_reported_as_written(trim(description));
}

/// A creation request passes the checks exactly when its decimals lie in `1..=99`,
/// its symbol is one to six ASCII letters or digits, its name is one or more ASCII
/// letters, digits, white space, commas and dots, and its description is made of the
/// same characters (or is empty).
pub proof fn lemma_create_accepts_exactly(
    decimals: u8,
    name: Seq<char>,
    symbol: Seq<char>,
    description: Seq<char>,
    environment: Seq<char>,
)
    ensures
        create_check(decimals, name, symbol, description, environment) is Ok <==> {
            &&& 1 <= decimals <= 99
            &&& 1 <= symbol.len() <= 6
            &&& forall|i: int| 0 <= i < symbol.len() ==> is_ascii_alnum(#[trigger] symbol[i])
            &&& name.len() >= 1
            &&& forall|i: int| 0 <= i < name.len() ==> is_name_char(#[trigger] name[i])
            &&& forall|i: int| 0 <= i < description.len() ==> is_name_char(
                #[trigger] description[i],
            )
        },
{
    let ok = create_check(decimals, name, symbol, description, environment) is Ok;
    if ok {
        assert(valid_symbol(symbol));
        assert(valid_name(name));
        assert forall|i: int| 0 <= i < symbol.len() implies is_ascii_alnum(#[trigger] symbol[i]) by {
            assert((|c: char| is_ascii_alnum(c))(symbol[i]));
        }
        assert forall|i: int| 0 <= i < name.len() implies is_name_char(#[trigger] name[i]) by {
            assert((|c: char| is_name_char(c))(name[i]));
        }
        if description.len() > 0 {
            assert(valid_name(description));
            assert forall|i: int| 0 <= i < description.len() implies is_name_char(
                #[trigger] description[i],
            ) by {
                assert((|c: char| is_name_char(c))(description[i]));
            }
        }
    }
}

} // verus!
