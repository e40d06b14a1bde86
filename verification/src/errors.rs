//! The errors of token generation and verification.
use vstd::prelude::*;

verus! {

/// Everything that can go wrong while generating or verifying a token.
#[derive(Debug, Clone, PartialEq, Eq)]
pub enum TokenGenErrors {
    /// No `.move` file was found where one was expected.
    InvalidPathNoMoveFiles,
    /// The given program was modified.
    ProgramModified,
    /// The number of decimals is out of range.
    InvalidDecimals,
    /// The symbol is not made of allowed characters or is too long.
    InvalidSymbol,
    /// The name is not made of allowed characters.
    InvalidName,
    /// The description is not made of allowed characters.
    InvalidDescription,
    /// The text is not a URL.
    InvalidUrl,
    /// The URL is not a GitHub or GitLab repository URL.
    InvalidGitUrl,
    /// No repository name could be taken from the URL.
    InvalidRepo,
    /// The contract differs from the one generated from its own details.
    ContractModified,
    /// The cloned repository lacks its sources or its `Move.toml`.
    ClonedRepoNotFound,
    /// A git operation failed.
    GitError(String),
    /// A file could not be read or removed.
    FileIoError(String),
    /// A verification failed for the reason given.
    VerifyResultError(String),
    /// Any other failure.
    GeneralError(String),
    /// A path is invalid.
    InvalidPath(String),
    /// A file could not be written or a directory created.
    FileError(String),
    /// An object could not be fetched from the chain.
    FetchObjectError(String),
    /// The fetched object could not be decoded.
    DecodeObjectError,
    /// An RPC call failed.
    RpcError(String),
    /// The coin metadata answer holds no result.
    InvalidMetadata,
    /// The environment names no known network.
    InvalidAddress,
    /// Module or coin type could not be found in the disassembled code.
    ExtractionError,
    /// The working directory is unknown.
    CurrentDirectoryError,
    /// A path is not valid UTF-8.
    PathConversionError,
    /// The token template could not be rendered.
    TemplateError,
}

/// The human-readable message of an error.
pub open spec fn message_of(e: TokenGenErrors) -> Seq<char> {
    match e {
        TokenGenErrors::InvalidPathNoMoveFiles => "Invalid path: No .move file found"@,
        TokenGenErrors::ProgramModified => "Given contract is modified"@,
        TokenGenErrors::InvalidDecimals => "Invalid decimals provided"@,
        TokenGenErrors::InvalidSymbol => "Invalid symbol provided"@,
        TokenGenErrors::InvalidName => "Invalid name provided"@,
        TokenGenErrors::InvalidDescription => "Invalid description provided"@,
        TokenGenErrors::InvalidUrl => "The provided URL is not a valid URL."@,
        TokenGenErrors::InvalidGitUrl => "The provided URL is not a valid Git URL."@,
        TokenGenErrors::InvalidRepo => "Failed to extract repository name."@,
        TokenGenErrors::ContractModified => "Content mismatch detected"@,
        TokenGenErrors::ClonedRepoNotFound => "Cloned repo not found"@,
        TokenGenErrors::GitError(s) => "Git operation failed: "@ + s@,
        TokenGenErrors::FileIoError(s) => "File I/O error: "@ + s@,
        TokenGenErrors::VerifyResultError(s) => s@,
        TokenGenErrors::GeneralError(s) => "An error occurred: "@ + s@,
        TokenGenErrors::InvalidPath(s) => "Invalid path: "@ + s@,
        TokenGenErrors::FileError(s) => "File error: "@ + s@,
        TokenGenErrors::FetchObjectError(s) => "Failed to fetch object: "@ + s@,
        TokenGenErrors::DecodeObjectError => "Failed to decode object data"@,
        TokenGenErrors::RpcError(s) => "RPC error: "@ + s@,
        TokenGenErrors::InvalidMetadata => "Invalid coin metadata"@,
        TokenGenErrors::InvalidAddress => "Invalid environment for address verification"@,
        TokenGenErrors::ExtractionError => "Failed to extract module and coin type"@,
        TokenGenErrors::CurrentDirectoryError => "Failed to get the current directory"@,
        TokenGenErrors::PathConversionError => "Failed to convert path to string"@,
        TokenGenErrors::TemplateError => "Failed to render the token template"@,
    }
}

/// The HTTP status code with which the REST API answers an error:
/// 400 for rejected input, 422 for contracts that do not verify, 404 for what
/// cannot be found, 500 for everything else.
pub open spec fn status_of(e: TokenGenErrors) -> u16 {
    match e {
        TokenGenErrors::InvalidDecimals
        | TokenGenErrors::InvalidSymbol
        | TokenGenErrors::InvalidName
        | TokenGenErrors::InvalidDescription => 400,
        TokenGenErrors::ProgramModified
        | TokenGenErrors::ContractModified
        | TokenGenErrors::VerifyResultError(_) => 422,
        TokenGenErrors::ClonedRepoNotFound
        | TokenGenErrors::InvalidPath(_)
        | TokenGenErrors::InvalidUrl => 404,
        _ => 500,
    }
}

/// `a` followed by `b`.
pub fn concat(a: &str, b: &str) -> (r: String)
    ensures
        r@ == a@ + b@,
{
    let mut r = String::from_str(a);
    r.append(b);
    r
}

impl TokenGenErrors {
    /// The human-readable message of this error.
    pub fn message(&self) -> (r: String)
        ensures
            r@ == message_of(*self),
    {
        match self {
            TokenGenErrors::InvalidPathNoMoveFiles => String::from_str(
                "Invalid path: No .move file found",
            ),
            TokenGenErrors::ProgramModified => String::from_str("Given contract is modified"),
            TokenGenErrors::InvalidDecimals => String::from_str("Invalid decimals provided"),
            TokenGenErrors::InvalidSymbol => String::from_str("Invalid symbol provided"),
            TokenGenErrors::InvalidName => String::from_str("Invalid name provided"),
            TokenGenErrors::InvalidDescription => String::from_str("Invalid description provided"),
            TokenGenErrors::InvalidUrl => String::from_str("The provided URL is not a valid URL."),
            TokenGenErrors::InvalidGitUrl => String::from_str(
                "The provided URL is not a valid Git URL.",
            ),
            TokenGenErrors::InvalidRepo => String::from_str("Failed to extract repository name."),
            TokenGenErrors::ContractModified => String::from_str("Content mismatch detected"),
            TokenGenErrors::ClonedRepoNotFound => String::from_str("Cloned repo not found"),
            TokenGenErrors::GitError(s) => concat("Git operation failed: ", s.as_str()),
            TokenGenErrors::FileIoError(s) => concat("File I/O error: ", s.as_str()),
            TokenGenErrors::VerifyResultError(s) => s.clone(),
            TokenGenErrors::GeneralError(s) => concat("An error occurred: ", s.as_str()),
            TokenGenErrors::InvalidPath(s) => concat("Invalid path: ", s.as_str()),
            TokenGenErrors::FileError(s) => concat("File error: ", s.as_str()),
            TokenGenErrors::FetchObjectError(s) => concat("Failed to fetch object: ", s.as_str()),
            TokenGenErrors::DecodeObjectError => String::from_str("Failed to decode object data"),
            TokenGenErrors::RpcError(s) => concat("RPC error: ", s.as_str()),
            TokenGenErrors::InvalidMetadata => String::from_str("Invalid coin metadata"),
            TokenGenErrors::InvalidAddress => String::from_str(
                "Invalid environment for address verification",
            ),
            TokenGenErrors::ExtractionError => String::from_str(
                "Failed to extract module and coin type",
            ),
            TokenGenErrors::CurrentDirectoryError => String::from_str(
                "Failed to get the current directory",
            ),
            TokenGenErrors::PathConversionError => String::from_str(
                "Failed to convert path to string",
            ),
            TokenGenErrors::TemplateError => String::from_str(
                "Failed to render the token template",
            ),
        }
    }

    /// The HTTP status code of this error (see [`status_of`]).
    pub fn http_status(&self) -> (r: u16)
        ensures
            r == status_of(*self),
    {
        match self {
            TokenGenErrors::InvalidDecimals
            | TokenGenErrors::InvalidSymbol
            | TokenGenErrors::InvalidName
            | TokenGenErrors::InvalidDescription => 400,
            TokenGenErrors::ProgramModified
            | TokenGenErrors::ContractModified
            | TokenGenErrors::VerifyResultError(_) => 422,
            TokenGenErrors::ClonedRepoNotFound
            | TokenGenErrors::InvalidPath(_)
            | TokenGenErrors::InvalidUrl => 404,
            _ => 500,
        }
    }

    /// The error that the RPC service reports for a failed verification: the
    /// message of this error, kept as the reason of a `VerifyResultError`.
    pub fn into_verify_result_error(&self) -> (r: TokenGenErrors)
        ensures
            r matches TokenGenErrors::VerifyResultError(m) && m@ == message_of(*self),
    {
        TokenGenErrors::VerifyResultError(self.message())
    }
}

} // verus!
