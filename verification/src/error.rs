//! What can go wrong with a request, and how it is answered.

use vstd::prelude::*;

use crate::address::{debug_of_address, Address, AddressError};
use crate::text::{code_text, debug_of_str, debug_str, decimal, CodeType};

verus! {

/// An error of the surroundings, in the two notations in which it can be shown.
#[derive(Debug)]
pub struct Cause {
    pub display: String,
    pub debug: String,
}

/// Why a request is refused.
#[derive(Debug)]
pub enum Error {
    /// A file could not be read.
    IoError(Cause),
    /// The database did not do what it was asked.
    DbError(Cause),
    /// The email address is not one.
    AddressError(AddressError),
    /// The mail could not be composed.
    EmailError(Cause),
    /// The mail could not be sent; the transport's error in debug notation.
    SendError(String),
    /// No code is pending for the address; it may have timed out.
    EmailNotFound(Address),
    /// The code is not the pending one.
    CodeDoesNotMatch(CodeType),
}

/// A variant's name around what it holds, in debug notation.
pub open spec fn tagged(name: Seq<char>, inner: Seq<char>) -> Seq<char> {
    name + "("@ + inner + ")"@
}

/// A variant's name around what it holds, in debug notation.
pub fn tagged_text(name: &str, inner: &str) -> (result: String)
    ensures
        result@ == tagged(name@, inner@),
{
    name.to_owned().concat("(").concat(inner).concat(")")
}

impl Error {
    /// The HTTP status that answers the request.
    pub open spec fn status(self) -> u16 {
        match self {
            Error::IoError(_) => 500,
            Error::DbError(_) => 500,
            Error::AddressError(_) => 400,
            Error::EmailError(_) => 500,
            Error::SendError(_) => 500,
            Error::EmailNotFound(_) => 408,
            Error::CodeDoesNotMatch(_) => 401,
        }
    }

    /// The error in debug notation: the body that answers the request.
    pub open spec fn debug(self) -> Seq<char> {
        match self {
            Error::IoError(cause) => tagged("IoError"@, cause.debug@),
            Error::DbError(cause) => tagged("DbError"@, cause.debug@),
            Error::AddressError(error) => tagged("AddressError"@, error.spec_name()),
            Error::EmailError(cause) => tagged("EmailError"@, cause.debug@),
            Error::SendError(text) => tagged("SendError"@, debug_of_str(text@)),
            Error::EmailNotFound(address) => tagged(
                "EmailNotFound"@,
                debug_of_address(address@),
            ),
            Error::CodeDoesNotMatch(code) => tagged("CodeDoesNotMatch"@, decimal(code as nat)),
        }
    }

    /// The error in a sentence.
    pub open spec fn display(self) -> Seq<char> {
        match self {
            Error::IoError(cause) => "IO error: "@ + cause.display@,
            Error::DbError(cause) => "Database Error: "@ + cause.display@,
            Error::AddressError(error) => "Invalid Email Address: "@ + error.spec_sentence(),
            Error::EmailError(cause) => "Failed to generate email message: "@ + cause.display@,
            Error::SendError(text) => "Failed to send email: "@ + text@,
            Error::EmailNotFound(address) => "Email could not be found, could have timed out: "@
                + address@,
            Error::CodeDoesNotMatch(code) => "Code does not match: "@ + decimal(code as nat),
        }
    }

    /// The HTTP status that answers the request.
    pub fn status_code(&self) -> (result: u16)
        ensures
            result == self.status(),
    {
        match self {
            Error::IoError(_) => 500,
            Error::DbError(_) => 500,
            Error::AddressError(_) => 400,
            Error::EmailError(_) => 500,
            Error::SendError(_) => 500,
            Error::EmailNotFound(_) => 408,
            Error::CodeDoesNotMatch(_) => 401,
        }
    }

    /// The error in debug notation.
    pub fn debug_text(&self) -> (result: String)
        ensures
            result@ == self.debug(),
    {
        match self {
            Error::IoError(cause) => tagged_text("IoError", cause.debug.as_str()),
            Error::DbError(cause) => tagged_text("DbError", cause.debug.as_str()),
            Error::AddressError(error) => tagged_text("AddressError", error.name()),
            Error::EmailError(cause) => tagged_text("EmailError", cause.debug.as_str()),
            Error::SendError(text) => tagged_text("SendError", debug_str(text.as_str()).as_str()),
            Error::EmailNotFound(address) => tagged_text(
                "EmailNotFound",
                address.debug_text().as_str(),
            ),
            Error::CodeDoesNotMatch(code) => tagged_text(
                "CodeDoesNotMatch",
                code_text(*code).as_str(),
            ),
        }
    }

    /// The error in a sentence.
    pub fn to_string(&self) -> (result: String)
        ensures
            result@ == self.display(),
    {
        match self {
            Error::IoError(cause) => "IO error: ".to_owned().concat(cause.display.as_str()),
            Error::DbError(cause) => "Database Error: ".to_owned().concat(cause.display.as_str()),
            Error::AddressError(error) => "Invalid Email Address: ".to_owned().concat(
                error.sentence(),
            ),
            Error::EmailError(cause) => "Failed to generate email message: ".to_owned().concat(
                cause.display.as_str(),
            ),
            Error::SendError(text) => "Failed to send email: ".to_owned().concat(text.as_str()),
            Error::EmailNotFound(
                address,
            ) => "Email could not be found, could have timed out: ".to_owned().concat(
                address.as_str(),
            ),
            Error::CodeDoesNotMatch(code) => "Code does not match: ".to_owned().concat(
                code_text(*code).as_str(),
            ),
        }
    }

    /// The answer to the request: its status and its body.
    pub fn into_response(self) -> (result: (u16, String))
        ensures
            result.0 == self.status(),
            result.1@ == self.debug(),
    {
        let status_code = self.status_code();
        let message = self.debug_text();
        (status_code, message)
    }
}

/// Each kind of error has its status, whatever it holds.
pub proof fn law_status_goes_by_kind(error: Error)
    ensures
        error is IoError ==> error.status() == 500,
        error is DbError ==> error.status() == 500,
        error is AddressError ==> error.status() == 400,
        error is EmailError ==> error.status() == 500,
        error is SendError ==> error.status() == 500,
        error is EmailNotFound ==> error.status() == 408,
        error is CodeDoesNotMatch ==> error.status() == 401,
{
}

/// Each kind of error is told in full: in debug notation as its name around what it holds, and in a
/// sentence that ends in what it holds, whatever that is.
pub proof fn law_errors_tell_what_they_hold(
    cause: Cause,
    fault: AddressError,
    text: String,
    address: Address,
    code: CodeType,
)
    ensures
        Error::IoError(cause).debug() == "IoError"@ + "("@ + cause.debug@ + ")"@,
        Error::IoError(cause).display() == "IO error: "@ + cause.display@,
        Error::DbError(cause).debug() == "DbError"@ + "("@ + cause.debug@ + ")"@,
        Error::DbError(cause).display() == "Database Error: "@ + cause.display@,
        Error::AddressError(fault).debug() == "AddressError"@ + "("@ + fault.spec_name() + ")"@,
        Error::AddressError(fault).display() == "Invalid Email Address: "@ + fault.spec_sentence(),
        Error::EmailError(cause).debug() == "EmailError"@ + "("@ + cause.debug@ + ")"@,
        Error::EmailError(cause).display() == "Failed to generate email message: "@
            + cause.display@,
        Error::SendError(text).debug() == "SendError"@ + "("@ + debug_of_str(text@) + ")"@,
        Error::SendError(text).display() == "Failed to send email: "@ + text@,
        Error::EmailNotFound(address).debug() == "EmailNotFound"@ + "("@ + debug_of_address(
            address@,
        ) + ")"@,
        Error::EmailNotFound(address).display()
            == "Email could not be found, could have timed out: "@ + address@,
        Error::CodeDoesNotMatch(code).debug() == "CodeDoesNotMatch"@ + "("@ + decimal(code as nat)
            + ")"@,
        Error::CodeDoesNotMatch(code).display() == "Code does not match: "@ + decimal(code as nat),
{
}

/// The five faults of an address, by name and in a sentence.
pub proof fn law_faults_are_named()
    ensures
        AddressError::MissingParts.spec_name() == "MissingParts"@,
        AddressError::Unbalanced.spec_name() == "Unbalanced"@,
        AddressError::InvalidUser.spec_name() == "InvalidUser"@,
        AddressError::InvalidDomain.spec_name() == "InvalidDomain"@,
        AddressError::InvalidInput.spec_name() == "InvalidInput"@,
        AddressError::MissingParts.spec_sentence() == "Missing domain or user"@,
        AddressError::Unbalanced.spec_sentence() == "Unbalanced angle bracket"@,
        AddressError::InvalidUser.spec_sentence() == "Invalid email user"@,
        AddressError::InvalidDomain.spec_sentence() == "Invalid email domain"@,
        AddressError::InvalidInput.spec_sentence() == "Invalid input"@,
{
}

} // verus!
