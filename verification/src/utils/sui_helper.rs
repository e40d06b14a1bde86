//! Sui network endpoints and coin metadata, and the package built to reproduce a
//! deployed coin.
use crate::errors::TokenGenErrors;
use crate::errors::concat;
use crate::foreign::{
    first_module, json_first_module, package_name_in, to_lowercase,
    toml_package_name, toml_set_address, with_address,
};
use crate::text::{chars_of, eq_str, lower_text, opt_view};
use crate::utils::generation::{
    generate_move_toml, generate_token, move_toml_of, token_text, TokenTemplates,
};
use crate::utils::helpers::{keep_alphanumeric, sanitize_name};
use vstd::prelude::*;

verus! {

/// The full-node RPC endpoint of a network, if the network is known.
pub open spec fn rpc_url_of(environment: Seq<char>) -> Option<Seq<char>> {
    if environment == "devnet"@ {
        Some("https://fullnode.devnet.sui.io:443"@)
    } else if environment == "testnet"@ {
        Some("https://fullnode.testnet.sui.io:443"@)
    } else if environment == "mainnet"@ {
        Some("https://fullnode.mainnet.sui.io:443"@)
    } else {
        None
    }
}

/// The full-node RPC endpoint of `devnet`, `testnet` or `mainnet`; any other
/// environment is refused.
pub fn get_rpc_url(environment: &str) -> (r: Result<&'static str, TokenGenErrors>)
    ensures
        match r {
            Ok(url) => rpc_url_of(environment@) == Some(url@),
            Err(e) => rpc_url_of(environment@) is None && e == TokenGenErrors::InvalidAddress,
        },
{
    let v = chars_of(environment);
    if eq_str(&v, "devnet") {
        Ok("https://fullnode.devnet.sui.io:443")
    } else if eq_str(&v, "testnet") {
        Ok("https://fullnode.testnet.sui.io:443")
    } else if eq_str(&v, "mainnet") {
        Ok("https://fullnode.mainnet.sui.io:443")
    } else {
        Err(TokenGenErrors::InvalidAddress)
    }
}

/// The metadata of a deployed coin.
pub struct CoinMetadata {
    /// Name of the coin.
    pub name: String,
    /// Number of decimal places.
    pub decimals: u8,
    /// Description of the coin.
    pub description: String,
    /// Symbol of the coin.
    pub symbol: String,
}

/// The view of an optional string, the empty string standing for none.
pub open spec fn or_empty(s: Option<String>) -> Seq<char> {
    match s {
        Some(t) => t@,
        None => Seq::empty(),
    }
}

impl CoinMetadata {
    /// The metadata made of the fields of an RPC answer: a missing field is empty (or
    /// zero), and the decimals keep their low eight bits.
    pub fn from_rpc_fields(
        decimals: Option<u64>,
        name: Option<String>,
        symbol: Option<String>,
        description: Option<String>,
    ) -> (r: CoinMetadata)
        ensures
            r.decimals == (match decimals {
                Some(d) => d % 256,
                None => 0,
            }),
            r.name@ == or_empty(name),
            r.symbol@ == or_empty(symbol),
            r.description@ == or_empty(description),
    {
        let decimals: u8 = match decimals {
            Some(d) => (d % 256) as u8,
            None => 0,
        };
        let name = match name {
            Some(s) => s,
            None => String::new(),
        };
        let symbol = match symbol {
            Some(s) => s,
            None => String::new(),
        };
        let description = match description {
            Some(s) => s,
            None => String::new(),
        };
        CoinMetadata { name, decimals, description, symbol }
    }
}

/// The verdict on the status of a coin metadata request: a failed status is an RPC
/// error that reports it.
pub fn check_metadata_status(success: bool, status: &str) -> (r: Result<(), TokenGenErrors>)
    ensures
        success <==> r is Ok,
        match r {
            Ok(_) => true,
            Err(e) => (e matches TokenGenErrors::RpcError(m) && m@
                == "Failed to fetch metadata, status: "@ + status@),
        },
{
    if success {
        Ok(())
    } else {
        Err(TokenGenErrors::RpcError(concat("Failed to fetch metadata, status: ", status)))
    }
}

/// The fields that a coin metadata answer holds under `result`: decimals, name, symbol
/// and description, each where present with the right type.
pub type RpcCoinFields = (Option<u64>, Option<String>, Option<String>, Option<String>);

/// The metadata in a coin metadata answer: an answer without `result` is invalid
/// metadata, and otherwise the metadata is made of its fields.
pub fn metadata_from_result(result: Option<RpcCoinFields>) -> (r: Result<
    CoinMetadata,
    TokenGenErrors,
>)
    ensures
        match result {
            None => r == Err::<CoinMetadata, TokenGenErrors>(TokenGenErrors::InvalidMetadata),
            Some((decimals, name, symbol, description)) => (r matches Ok(m) && {
                &&& m.decimals == (match decimals {
                    Some(d) => d % 256,
                    None => 0,
                })
                &&& m.name@ == or_empty(name)
                &&& m.symbol@ == or_empty(symbol)
                &&& m.description@ == or_empty(description)
            }),
        },
{
    match result {
        None => Err(TokenGenErrors::InvalidMetadata),
        Some((decimals, name, symbol, description)) => Ok(
            CoinMetadata::from_rpc_fields(decimals, name, symbol, description),
        ),
    }
}

/// The name of a manifest's package, the empty name standing for a missing one.
pub open spec fn package_name_or_empty(manifest: Seq<char>) -> Seq<char> {
    match package_name_in(manifest) {
        Some(n) => n,
        None => Seq::empty(),
    }
}

/// The manifest `manifest` with the package's own address, the entry named after the
/// package in `[addresses]`, set to `address`; `None` when the manifest cannot be
/// edited so.
pub fn set_package_address(manifest: &str, address: &str) -> (r: Option<String>)
    ensures
        opt_view(r) == with_address(manifest@, package_name_or_empty(manifest@), address@),
{
    let name = match toml_package_name(manifest) {
        Some(n) => n,
        None => String::new(),
    };
    toml_set_address(manifest, name.as_str(), address)
}

/// The outcome of `sui move build --dump-bytecode-as-base64` from its exit status and
/// output: on failure the error reports the standard error; on success the byte code
/// is the first module of the JSON on standard output, and output that is not JSON is
/// reported with the JSON reader's message.
pub fn build_outcome(success: bool, stdout: &str, stderr: &str) -> (r: Result<String, String>)
    ensures
        !success ==> (r matches Err(m) && m@ == "Sui move build failed: "@ + stderr@),
        success ==> match first_module(stdout@) {
            Err(message) => (r matches Err(m) && m@ == message),
            Ok(Some(b)) => (r matches Ok(code) && code@ == b),
            Ok(None) => (r matches Err(m) && m@ == "Failed to extract bytecode from modules"@),
        },
{
    if !success {
        return Err(concat("Sui move build failed: ", stderr));
    }
    match json_first_module(stdout) {
        Err(message) => Err(message),
        Ok(Some(code)) => Ok(code),
        Ok(None) => Err(String::from_str("Failed to extract bytecode from modules")),
    }
}

/// The verdict on the status of a request for a package object: a failed status is a
/// fetch error.
pub fn check_object_status(success: bool) -> (r: Result<(), TokenGenErrors>)
    ensures
        success <==> r is Ok,
        match r {
            Ok(_) => true,
            Err(e) => (e matches TokenGenErrors::FetchObjectError(m) && m@
                == "Error fetching module data"@),
        },
{
    if success {
        Ok(())
    } else {
        Err(TokenGenErrors::FetchObjectError(String::from_str("Error fetching module data")))
    }
}

/// The files of the package that reproduces a deployed coin.
pub struct SuiContractPlan {
    /// Folder of the package: the lower-cased alphanumeric characters of the coin name.
    pub project_folder: String,
    /// The coin module.
    pub token_content: String,
    /// The tests of the coin module.
    pub test_token_content: String,
    /// The package manifest.
    pub move_toml_content: String,
}

/// Prepares the package that reproduces a deployed coin from its metadata: folder,
/// coin module, tests and manifest for `environment`.
pub fn plan_sui_contract(
    templates: &TokenTemplates,
    metadata: &CoinMetadata,
    environment: &str,
    is_frozen: bool,
) -> (r: Result<SuiContractPlan, TokenGenErrors>)
    ensures
        match r {
            Ok(plan) => {
                &&& plan.project_folder@ == lower_text(keep_alphanumeric(metadata.name@))
                &&& token_text(
                    templates.token@,
                    metadata.decimals,
                    metadata.symbol@,
                    metadata.name@,
                    metadata.description@,
                    is_frozen,
                ) == Some(plan.token_content@)
                &&& token_text(
                    templates.token_tests@,
                    metadata.decimals,
                    metadata.symbol@,
                    metadata.name@,
                    metadata.description@,
                    is_frozen,
                ) == Some(plan.test_token_content@)
                &&& plan.move_toml_content@ == move_toml_of(
                    keep_alphanumeric(metadata.name@),
                    environment@,
                )
            },
            Err(e) => e == TokenGenErrors::TemplateError && (token_text(
                templates.token@,
                metadata.decimals,
                metadata.symbol@,
                metadata.name@,
                metadata.description@,
                is_frozen,
            ) is None || token_text(
                templates.token_tests@,
                metadata.decimals,
                metadata.symbol@,
                metadata.name@,
                metadata.description@,
                is_frozen,
            ) is None),
        },
{
    let package_name = sanitize_name(metadata.name.as_str());
    let project_folder = to_lowercase(package_name.as_str());
    let token_content = generate_token(
        templates,
        metadata.decimals,
        metadata.symbol.clone(),
        metadata.name.clone(),
        metadata.description.clone(),
        is_frozen,
        false,
    )?;
    let test_token_content = generate_token(
        templates,
        metadata.decimals,
        metadata.symbol.clone(),
        metadata.name.clone(),
        metadata.description.clone(),
        is_frozen,
        true,
    )?;
    let move_toml_content = generate_move_toml(package_name, String::from_str(environment));
    Ok(SuiContractPlan { project_folder, token_content, test_token_content, move_toml_content })
}

} // verus!
