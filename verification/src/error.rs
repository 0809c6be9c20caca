//! The errors of the client.

use vstd::prelude::*;
use vstd::string::*;

verus! {

/// What can go wrong between a command and its committed batch. Each
/// variant carries the text that describes the failure.
#[derive(Clone, Debug, PartialEq, Eq)]
pub enum CliError {
    /// The user has provided invalid inputs; the text is fit for display
    /// without further context.
    UserError(String),
    /// The address of the gateway names no scheme, or another one than
    /// the one that the client speaks.
    SchemeError(String),
    /// Reading or writing a file or a socket failed.
    IoError(String),
    /// The signing credential could not produce a key or a signature.
    SigningError(String),
    /// A message could not be serialized.
    ProtobufError(String),
    /// The transport to the gateway failed.
    HyperError(String),
    /// The gateway's answer could not be decoded.
    ResponseParseError(String),
    /// The ledger rejected a transaction, or a batch could not be built.
    InvalidTransactionError(String),
    /// A command or one of its arguments is malformed.
    InvalidInputError(String),
}

impl CliError {
    /// The text that the variant carries.
    pub open spec fn detail(self) -> Seq<char> {
        match self {
            CliError::UserError(s) => s@,
            CliError::SchemeError(s) => s@,
            CliError::IoError(s) => s@,
            CliError::SigningError(s) => s@,
            CliError::ProtobufError(s) => s@,
            CliError::HyperError(s) => s@,
            CliError::ResponseParseError(s) => s@,
            CliError::InvalidTransactionError(s) => s@,
            CliError::InvalidInputError(s) => s@,
        }
    }

    /// The label that the display text of the variant begins with.
    pub open spec fn label(self) -> Seq<char> {
        match self {
            CliError::UserError(_) => "Error: "@,
            CliError::SchemeError(_) => "Error: "@,
            CliError::IoError(_) => "IoError: "@,
            CliError::SigningError(_) => "SigningError: "@,
            CliError::ProtobufError(_) => "ProtobufError: "@,
            CliError::HyperError(_) => "HyperError: "@,
            CliError::ResponseParseError(_) => "ResponseParseError: "@,
            CliError::InvalidTransactionError(_) => "InvalidTransactionError: "@,
            CliError::InvalidInputError(_) => "InvalidInput: "@,
        }
    }

    /// The display text: the label of the variant, then its detail.
    pub open spec fn display_text(self) -> Seq<char> {
        self.label() + self.detail()
    }

    /// The display text of the error.
    pub fn to_string(&self) -> (text: String)
        ensures
            text@ == self.display_text(),
    {
        match self {
            CliError::UserError(s) => String::from_str("Error: ").concat(s.as_str()),
            CliError::SchemeError(s) => String::from_str("Error: ").concat(s.as_str()),
            CliError::IoError(s) => String::from_str("IoError: ").concat(s.as_str()),
            CliError::SigningError(s) => String::from_str("SigningError: ").concat(s.as_str()),
            CliError::ProtobufError(s) => String::from_str("ProtobufError: ").concat(s.as_str()),
            CliError::HyperError(s) => String::from_str("HyperError: ").concat(s.as_str()),
            CliError::ResponseParseError(s) => String::from_str("ResponseParseError: ").concat(
                s.as_str(),
            ),
            CliError::InvalidTransactionError(s) => String::from_str(
                "InvalidTransactionError: ",
            ).concat(s.as_str()),
            CliError::InvalidInputError(s) => String::from_str("InvalidInput: ").concat(
                s.as_str(),
            ),
        }
    }
}

/// Whether `result` is the user error with the text `text`.
pub open spec fn is_user_error<T>(result: Result<T, CliError>, text: Seq<char>) -> bool {
    result matches Err(CliError::UserError(detail)) && detail@ == text
}

/// Whether `result` is the scheme error with the text `text`.
pub open spec fn is_scheme_error<T>(result: Result<T, CliError>, text: Seq<char>) -> bool {
    result matches Err(CliError::SchemeError(detail)) && detail@ == text
}

/// Whether `result` is the input error with the text `text`.
pub open spec fn is_input_error<T>(result: Result<T, CliError>, text: Seq<char>) -> bool {
    result matches Err(CliError::InvalidInputError(detail)) && detail@ == text
}

} // verus!
