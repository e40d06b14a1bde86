//! The decisions of the command-line client: which request a set of flags asks for.
use crate::errors::{message_of, TokenGenErrors};
use crate::text::{chars_of, eq_str};
use vstd::prelude::*;

verus! {

/// Errors of the command-line client that it finds by itself.
#[derive(Debug, PartialEq, Eq)]
pub enum ClientError {
    /// A flag that the command needs is missing.
    MissingParameter(String),
    /// The command or its inputs are invalid.
    InvalidInputs(String),
}

/// The message of a missing flag.
pub open spec fn missing_message(param_name: Seq<char>, command: Seq<char>) -> Seq<char> {
    param_name + " is required for '"@ + command + "' command"@
}

impl ClientError {
    /// The human-readable message of this error.
    pub fn message(&self) -> (r: String)
        ensures
            r@ == match self {
                ClientError::MissingParameter(s) => "Missing required parameter: "@ + s@,
                ClientError::InvalidInputs(s) => "Invalid inputs: "@ + s@,
            },
    {
        match self {
            ClientError::MissingParameter(s) => crate::errors::concat(
                "Missing required parameter: ",
                s.as_str(),
            ),
            ClientError::InvalidInputs(s) => crate::errors::concat("Invalid inputs: ", s.as_str()),
        }
    }

    /// The client error that reports a service error: its message as invalid input.
    pub fn from_token_error(err: &TokenGenErrors) -> (r: ClientError)
        ensures
            r matches ClientError::InvalidInputs(m) && m@ == message_of(*err),
    {
        ClientError::InvalidInputs(err.message())
    }
}

/// The value of a flag that the command needs, or the error naming it.
pub fn require_param<T>(param: Option<T>, param_name: &str, command: &str) -> (r: Result<
    T,
    ClientError,
>)
    ensures
        match param {
            Some(v) => r == Ok::<T, ClientError>(v),
            None => r matches Err(ClientError::MissingParameter(m)) && m@ == missing_message(
                param_name@,
                command@,
            ),
        },
{
    match param {
        Some(v) => Ok(v),
        None => {
            let mut m = String::from_str(param_name);
            m.append(" is required for '");
            m.append(command);
            m.append("' command");
            Err(ClientError::MissingParameter(m))
        },
    }
}

/// The flags of the command-line client, besides the server address.
pub struct CommandFlags {
    /// `create`, `verify_url` or `verify_content`.
    pub command: Option<String>,
    pub name: Option<String>,
    pub symbol: Option<String>,
    pub description: Option<String>,
    pub decimals: Option<u8>,
    pub is_frozen: Option<bool>,
    pub environment: Option<String>,
    pub url: Option<String>,
    pub content: Option<String>,
}

/// A request to send to the service.
#[derive(Debug, PartialEq, Eq)]
pub enum ClientCommand {
    /// Verify the contract of a repository.
    VerifyUrl(String),
    /// Verify a contract's content.
    VerifyContent(String),
    /// Create a token.
    Create {
        decimals: u8,
        name: String,
        symbol: String,
        description: String,
        is_frozen: bool,
        environment: String,
    },
}

/// The request that the flags ask for, or why there is none: `verify_url` needs `url`,
/// `verify_content` needs `content`, and `create` needs, in this order, `name`,
/// `symbol`, `description`, `decimals`, `is_frozen` and `environment`; another command
/// is invalid input, and no command is a missing parameter.
pub fn plan_command(flags: CommandFlags) -> (r: Result<ClientCommand, ClientError>)
    ensures
        match flags.command {
            None => r matches Err(ClientError::MissingParameter(m)) && m@
                == "command is required (either 'create' or 'verify')"@,
            Some(c) => if c@ == "verify_url"@ {
                match flags.url {
                    Some(u) => r == Ok::<ClientCommand, ClientError>(ClientCommand::VerifyUrl(u)),
                    None => r matches Err(ClientError::MissingParameter(m)) && m@
                        == missing_message("url"@, "verify"@),
                }
            } else if c@ == "verify_content"@ {
                match flags.content {
                    Some(t) => r == Ok::<ClientCommand, ClientError>(
                        ClientCommand::VerifyContent(t),
                    ),
                    None => r matches Err(ClientError::MissingParameter(m)) && m@
                        == missing_message("content"@, "verify"@),
                }
            } else if c@ == "create"@ {
                if flags.name is None {
                    r matches Err(ClientError::MissingParameter(m)) && m@ == missing_message(
                        "name"@,
                        "create"@,
                    )
                } else if flags.symbol is None {
                    r matches Err(ClientError::MissingParameter(m)) && m@ == missing_message(
                        "symbol"@,
                        "create"@,
                    )
                } else if flags.description is None {
                    r matches Err(ClientError::MissingParameter(m)) && m@ == missing_message(
                        "description"@,
                        "create"@,
                    )
                } else if flags.decimals is None {
                    r matches Err(ClientError::MissingParameter(m)) && m@ == missing_message(
                        "decimals"@,
                        "create"@,
                    )
                } else if flags.is_frozen is None {
                    r matches Err(ClientError::MissingParameter(m)) && m@ == missing_message(
                        "is_frozen"@,
                        "create"@,
                    )
                } else if flags.environment is None {
                    r matches Err(ClientError::MissingParameter(m)) && m@ == missing_message(
                        "environment"@,
                        "create"@,
                    )
                } else {
                    r == Ok::<ClientCommand, ClientError>(
                        ClientCommand::Create {
                            decimals: flags.decimals->0,
                            name: flags.name->0,
                            symbol: flags.symbol->0,
                            description: flags.description->0,
                            is_frozen: flags.is_frozen->0,
                            environment: flags.environment->0,
                        },
                    )
                }
            } else {
                r matches Err(ClientError::InvalidInputs(m)) && m@ == c@
            },
        },
{
    let command = match flags.command {
        Some(c) => c,
        None => {
            return Err(
                ClientError::MissingParameter(
                    String::from_str("command is required (either 'create' or 'verify')"),
                ),
            );
        },
    };
    let c = chars_of(command.as_str());
    if eq_str(&c, "verify_url") {
        let url = require_param(flags.url, "url", "verify")?;
        Ok(ClientCommand::VerifyUrl(url))
    } else if eq_str(&c, "verify_content") {
        let content = require_param(flags.content, "content", "verify")?;
        Ok(ClientCommand::VerifyContent(content))
    } else if eq_str(&c, "create") {
        let name = require_param(flags.name, "name", "create")?;
        let symbol = require_param(flags.symbol, "symbol", "create")?;
        let description = require_param(flags.description, "description", "create")?;
        let decimals = require_param(flags.decimals, "decimals", "create")?;
        let is_frozen = require_param(flags.is_frozen, "is_frozen", "create")?;
        let environment = require_param(flags.environment, "environment", "create")?;
        Ok(ClientCommand::Create { decimals, name, symbol, description, is_frozen, environment })
    } else {
        Err(ClientError::InvalidInputs(command))
    }
}

} // verus!
