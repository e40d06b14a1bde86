//! Constants of the token service and the token details record.
use vstd::prelude::*;

verus! {

/// Sub-folder of a Move package that holds its sources.
pub const SUB_FOLDER: &'static str = "sources";

/// Sub-folder of a Move package that holds its tests.
pub const TEST_FOLDER: &'static str = "tests";

/// Git URL of the Sui repository that every generated package depends on.
pub const SUI_PROJECT: &'static str = "https://github.com/MystenLabs/sui.git";

/// Sub-directory of the Sui repository that holds the Sui framework package.
pub const SUI_PROJECT_SUB_DIR: &'static str = "crates/sui-framework/packages/sui-framework";

/// Move edition written into generated `Move.toml` files.
pub const EDITION: &'static str = "2024.beta";

/// Version written into generated `Move.toml` files.
pub const PACKAGE_VERSION: &'static str = "0.0.1";

/// Placeholder address given to a generated package.
pub const PLACEHOLDER_ADDRESS: &'static str = "0x0";

/// Environment used when none (or an unknown one) is given.
pub const DEFAULT_ENVIRONMENT: &'static str = "devnet";

/// Message returned by a successful verification.
pub const VERIFICATION_MESSAGE: &'static str = "Verified successfully";

/// A token symbol: ASCII letters and digits only.
pub const SYMBOL_PATTERN: &'static str = "^[a-zA-Z0-9]+$";

/// A token name (and description): ASCII letters, digits, white space, commas and dots.
pub const NAME_PATTERN: &'static str = "^[a-zA-Z0-9\\s,\\.]+$";

/// A GitHub or GitLab repository URL.
pub const REPOSITORY_URL_PATTERN: &'static str = "^https?://(www\\.)?(github|gitlab)\\.com/[\\w\\-]+/[\\w\\-]+/?$";

/// The module declaration of a published coin module; group 2 is the module name.
pub const MODULE_PATTERN: &'static str = "module\\s+([a-f0-9]+)\\.([a-zA-Z0-9_]+)\\s+\\{";

/// The currency creation call of a coin module; group 1 is the coin type.
pub const COIN_PATTERN: &'static str = "coin::create_currency<([a-zA-Z0-9_]+)>";

/// The call that freezes the coin's metadata object.
pub const FREEZE_PATTERN: &'static str = "transfer::public_freeze_object";

/// The call that shares the coin's metadata object.
pub const SHARE_PATTERN: &'static str = "transfer::public_share_object";

/// What a token contract declares about its coin.
pub struct TokenDetails {
    /// Number of decimal places of the coin.
    pub decimals: u8,
    /// Ticker symbol of the coin.
    pub symbol: String,
    /// Human readable name of the coin.
    pub name: String,
    /// Short description of the coin.
    pub description: String,
    /// Whether the coin metadata is frozen.
    pub is_frozen: bool,
}

/// The mathematical value of a [`TokenDetails`].
pub struct TokenInfo {
    /// Number of decimal places.
    pub decimals: u8,
    /// Characters of the symbol.
    pub symbol: Seq<char>,
    /// Characters of the name.
    pub name: Seq<char>,
    /// Characters of the description.
    pub description: Seq<char>,
    /// Whether the metadata is frozen.
    pub is_frozen: bool,
}

impl View for TokenDetails {
    type V = TokenInfo;

    open spec fn view(&self) -> TokenInfo {
        TokenInfo {
            decimals: self.decimals,
            symbol: self.symbol@,
            name: self.name@,
            description: self.description@,
            is_frozen: self.is_frozen,
        }
    }
}

} // verus!
