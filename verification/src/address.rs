//! Email addresses.

use vstd::prelude::*;
use vstd::utf8::encode_utf8;

use crate::text::{debug_of_str, decimal};

verus! {

/// Why a text is not an email address.
#[derive(Clone, Copy, Debug, PartialEq, Eq, Structural)]
pub enum AddressError {
    MissingParts,
    Unbalanced,
    InvalidUser,
    InvalidDomain,
    InvalidInput,
}

impl AddressError {
    /// The name of the variant.
    pub open spec fn spec_name(self) -> Seq<char> {
        match self {
            AddressError::MissingParts => "MissingParts"@,
            AddressError::Unbalanced => "Unbalanced"@,
            AddressError::InvalidUser => "InvalidUser"@,
            AddressError::InvalidDomain => "InvalidDomain"@,
            AddressError::InvalidInput => "InvalidInput"@,
        }
    }

    /// The sentence that explains the variant.
    pub open spec fn spec_sentence(self) -> Seq<char> {
        match self {
            AddressError::MissingParts => "Missing domain or user"@,
            AddressError::Unbalanced => "Unbalanced angle bracket"@,
            AddressError::InvalidUser => "Invalid email user"@,
            AddressError::InvalidDomain => "Invalid email domain"@,
            AddressError::InvalidInput => "Invalid input"@,
        }
    }

    /// The name of the variant.
    pub fn name(&self) -> (result: &'static str)
        ensures
            result@ == self.spec_name(),
    {
        match self {
            AddressError::MissingParts => "MissingParts",
            AddressError::Unbalanced => "Unbalanced",
            AddressError::InvalidUser => "InvalidUser",
            AddressError::InvalidDomain => "InvalidDomain",
            AddressError::InvalidInput => "InvalidInput",
        }
    }

    /// The sentence that explains the variant.
    pub fn sentence(&self) -> (result: &'static str)
        ensures
            result@ == self.spec_sentence(),
    {
        match self {
            AddressError::MissingParts => "Missing domain or user",
            AddressError::Unbalanced => "Unbalanced angle bracket",
            AddressError::InvalidUser => "Invalid email user",
            AddressError::InvalidDomain => "Invalid email domain",
            AddressError::InvalidInput => "Invalid input",
        }
    }
}

/// What parsing a text as a `lettre::Address` finds wrong with it, if anything.
pub uninterp spec fn address_fault(text: Seq<char>) -> Option<AddressError>;

/// What stands before the last `@` of an address.
pub open spec fn user_part(text: Seq<char>) -> Seq<char> {
    text.take(text.index_of_last('@')->0)
}

/// An address in debug notation: its text, and the length of its user in bytes.
pub open spec fn debug_of_address(text: Seq<char>) -> Seq<char> {
    "Address { serialized: "@ + debug_of_str(text) + ", at_start: "@ + decimal(
        encode_utf8(user_part(text)).len(),
    ) + " }"@
}

/// The text of the address that `text` is, or what is wrong with it.
///
/// Calls `<lettre::Address as FromStr>::from_str`. Whether it accepts a text, and with which error
/// it refuses one, is a function of the text alone and is given a name here. An address that it
/// accepts is displayed as the very text that was parsed.
#[verifier::external_body]
fn check_address(text: &str) -> (result: Result<String, AddressError>)
    ensures
        match result {
            Ok(address) => address_fault(text@) is None && address@ == text@,
            Err(error) => address_fault(text@) == Some(error),
        },
{
    match text.parse::<lettre::Address>() {
        Ok(address) => Ok(address.to_string()),
        Err(lettre::address::AddressError::MissingParts) => Err(AddressError::MissingParts),
        Err(lettre::address::AddressError::Unbalanced) => Err(AddressError::Unbalanced),
        Err(lettre::address::AddressError::InvalidUser) => Err(AddressError::InvalidUser),
        Err(lettre::address::AddressError::InvalidDomain) => Err(AddressError::InvalidDomain),
        Err(_) => Err(AddressError::InvalidInput),
    }
}

/// The debug notation of the address that `text` parses to.
///
/// Calls the `Debug` impl of `lettre::Address`, which is derived and writes the two fields: the
/// text that was parsed, as a string in debug notation, and the position in bytes of the `@` at
/// which the text was split, which is the last one. A text that does not parse would panic and is
/// left out.
#[verifier::external_body]
fn debug_address(text: &str) -> (result: String)
    requires
        address_fault(text@) is None,
    ensures
        result@ == debug_of_address(text@),
{
    format!("{:?}", text.parse::<lettre::Address>().unwrap())
}

/// An email address that has been checked.
#[derive(Debug, PartialEq, Eq)]
pub struct Address {
    serialized: String,
}

impl View for Address {
    type V = Seq<char>;

    closed spec fn view(&self) -> Seq<char> {
        self.serialized@
    }
}

impl Clone for Address {
    fn clone(&self) -> (result: Self)
        ensures
            result@ == self@,
    {
        proof {
            use_type_invariant(self);
        }
        Address { serialized: self.serialized.clone() }
    }
}

impl Address {
    /// Only a text that parses becomes an address.
    #[verifier::type_invariant]
    spec fn checked(self) -> bool {
        address_fault(self.serialized@) is None
    }

    /// Takes `text` for an address, where it is one.
    pub fn parse(text: &str) -> (result: Result<Address, AddressError>)
        ensures
            match result {
                Ok(address) => address_fault(text@) is None && address@ == text@,
                Err(error) => address_fault(text@) == Some(error),
            },
    {
        match check_address(text) {
            Ok(serialized) => Ok(Address { serialized }),
            Err(error) => Err(error),
        }
    }

    /// The text of the address, which parses.
    pub fn as_str(&self) -> (result: &str)
        ensures
            result@ == self@,
            address_fault(self@) is None,
    {
        proof {
            use_type_invariant(self);
        }
        self.serialized.as_str()
    }

    /// The address in debug notation.
    pub fn debug_text(&self) -> (result: String)
        ensures
            result@ == debug_of_address(self@),
    {
        proof {
            use_type_invariant(self);
        }
        debug_address(self.serialized.as_str())
    }
}

/// An address in debug notation tells its text and, in decimal, how many bytes stand before its
/// last `@`.
pub proof fn law_debug_notation_tells_the_split(user: Seq<char>, domain: Seq<char>)
    requires
        !domain.contains('@'),
    ensures
        debug_of_address(user + seq!['@'] + domain) == "Address { serialized: "@ + debug_of_str(
            user + seq!['@'] + domain,
        ) + ", at_start: "@ + decimal(encode_utf8(user).len()) + " }"@,
{
    let text = user + seq!['@'] + domain;
    assert(text[user.len() as int] == '@');
    text.index_of_last_ensures('@');
    let at = text.index_of_last('@')->0;
    assert(at == user.len()) by {
        if at > user.len() {
            assert(domain[at - user.len() - 1] == '@');
        }
    }
    assert(text.take(at) =~= user);
}

} // verus!
