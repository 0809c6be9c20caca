//! The rules that the values of a command have to meet before a
//! transaction is built from them.

use crate::error::{is_input_error, is_user_error, CliError};
use vstd::prelude::*;
use vstd::string::*;

verus! {

/// The kinds of organization.
#[derive(Clone, Copy, Debug, PartialEq, Eq, Structural)]
pub enum OrganizationType {
    CertifyingBody,
    StandardsBody,
    Factory,
    Ingestion,
}

/// What an agent may do for its organization.
#[derive(Clone, Copy, Debug, PartialEq, Eq, Structural)]
pub enum Role {
    Admin,
    Transactor,
}

/// What caused a certificate to be issued.
#[derive(Clone, Copy, Debug, PartialEq, Eq, Structural)]
pub enum CertificateSource {
    /// A request that the factory made.
    FromRequest,
    /// The certifying body's own decision.
    Independent,
}

/// A text as `Debug` shows it: between quotes, with its special
/// characters escaped.
pub uninterp spec fn debug_form(text: Seq<char>) -> Seq<char>;

/// Formats `text` with `{:?}`, that is with `Debug` of `str`. Trusted: the
/// result is a function of the text alone, named [`debug_form`].
#[verifier::external_body]
fn debug_text(text: &str) -> (shown: String)
    ensures
        shown@ == debug_form(text@),
{
    format!("{:?}", text)
}

/// Whether two texts are the same.
pub fn same_text(first: &str, second: &str) -> (same: bool)
    ensures
        same == (first@ == second@),
{
    String::from_str(first) == String::from_str(second)
}

/// The kind of organization that a code stands for, if any.
pub open spec fn organization_type_of(code: Seq<char>) -> Option<OrganizationType> {
    if code == "1"@ {
        Some(OrganizationType::CertifyingBody)
    } else if code == "2"@ {
        Some(OrganizationType::StandardsBody)
    } else if code == "3"@ {
        Some(OrganizationType::Factory)
    } else if code == "4"@ {
        Some(OrganizationType::Ingestion)
    } else {
        None
    }
}

/// The text of the error for a code that stands for no kind of
/// organization.
pub open spec fn invalid_organization_type_text(code: Seq<char>) -> Seq<char> {
    "Invalid organization type: "@ + debug_form(code)
        + ". Valid types are: \n 1 - CERTIFYING_BODY \n 2 - STANDARDS_BODY \n 3 - FACTORY \n 4 - INGESTION"@
}

/// The kind of organization that `code` stands for: `1` to `4`.
pub fn parse_organization_type(code: &str) -> (result: Result<OrganizationType, CliError>)
    ensures
        match organization_type_of(code@) {
            Some(organization_type) => result == Ok::<OrganizationType, CliError>(
                organization_type,
            ),
            None => is_user_error(result, invalid_organization_type_text(code@)),
        },
{
    if same_text(code, "1") {
        Ok(OrganizationType::CertifyingBody)
    } else if same_text(code, "2") {
        Ok(OrganizationType::StandardsBody)
    } else if same_text(code, "3") {
        Ok(OrganizationType::Factory)
    } else if same_text(code, "4") {
        Ok(OrganizationType::Ingestion)
    } else {
        let text = String::from_str("Invalid organization type: ").concat(
            debug_text(code).as_str(),
        ).concat(
            ". Valid types are: \n 1 - CERTIFYING_BODY \n 2 - STANDARDS_BODY \n 3 - FACTORY \n 4 - INGESTION",
        );
        Err(CliError::UserError(text))
    }
}

/// The role that a code stands for, if any.
pub open spec fn role_of(code: Seq<char>) -> Option<Role> {
    if code == "1"@ {
        Some(Role::Admin)
    } else if code == "2"@ {
        Some(Role::Transactor)
    } else {
        None
    }
}

/// The role that `code` stands for: `1` for an administrator, `2` for a
/// transactor.
pub fn parse_role(code: &str) -> (result: Result<Role, CliError>)
    ensures
        match role_of(code@) {
            Some(role) => result == Ok::<Role, CliError>(role),
            None => is_user_error(result, "Unexpected invalid role "@ + debug_form(code@)),
        },
{
    if same_text(code, "1") {
        Ok(Role::Admin)
    } else if same_text(code, "2") {
        Ok(Role::Transactor)
    } else {
        let text = String::from_str("Unexpected invalid role ").concat(debug_text(code).as_str());
        Err(CliError::UserError(text))
    }
}

/// What is missing of a factory's address, as the text of the error: the
/// street is asked for first, then the city, then the country.
pub open spec fn missing_of_factory(street: bool, city: bool, country: bool) -> Option<Seq<char>> {
    if !street {
        Some("A street address is required for a factory"@)
    } else if !city {
        Some("A city is required for a factory"@)
    } else if !country {
        Some("A country is required for a factory"@)
    } else {
        None
    }
}

/// Accepts the address of a factory when its street, city and country
/// are all given.
pub fn check_factory_address(
    street: Option<&str>,
    city: Option<&str>,
    country: Option<&str>,
) -> (result: Result<(), CliError>)
    ensures
        match missing_of_factory(street is Some, city is Some, country is Some) {
            None => result is Ok,
            Some(text) => is_input_error(result, text),
        },
{
    if street.is_none() {
        Err(
            CliError::InvalidInputError(
                String::from_str("A street address is required for a factory"),
            ),
        )
    } else if city.is_none() {
        Err(CliError::InvalidInputError(String::from_str("A city is required for a factory")))
    } else if country.is_none() {
        Err(CliError::InvalidInputError(String::from_str("A country is required for a factory")))
    } else {
        Ok(())
    }
}

/// The source of a certificate that a code stands for, given whether a
/// request is named: the source, or the text of the error.
pub open spec fn certificate_source_of(code: Seq<char>, has_request: bool) -> Result<
    CertificateSource,
    Seq<char>,
> {
    if code == "1"@ {
        if has_request {
            Ok(CertificateSource::FromRequest)
        } else {
            Err("request_id must be provided when source = 1 (FROM_REQUEST)"@)
        }
    } else if code == "2"@ {
        Ok(CertificateSource::Independent)
    } else {
        Err("Invalid source. Pass 1 for FROM_REQUEST, and 2 for INDEPENDENT"@)
    }
}

/// The source of a certificate that `source` stands for: `1` for a
/// request, which then has to be named, `2` for none.
pub fn parse_certificate_source(source: &str, request_id: Option<&str>) -> (result: Result<
    CertificateSource,
    CliError,
>)
    ensures
        match certificate_source_of(source@, request_id is Some) {
            Ok(found) => result == Ok::<CertificateSource, CliError>(found),
            Err(text) => is_input_error(result, text),
        },
{
    if same_text(source, "1") {
        if request_id.is_none() {
            Err(
                CliError::InvalidInputError(
                    String::from_str("request_id must be provided when source = 1 (FROM_REQUEST)"),
                ),
            )
        } else {
            Ok(CertificateSource::FromRequest)
        }
    } else if same_text(source, "2") {
        Ok(CertificateSource::Independent)
    } else {
        Err(
            CliError::InvalidInputError(
                String::from_str("Invalid source. Pass 1 for FROM_REQUEST, and 2 for INDEPENDENT"),
            ),
        )
    }
}

/// The number of characters of `text` that stand before its first colon:
/// all of them when it has none.
pub open spec fn before_colon(text: Seq<char>) -> int
    decreases text.len(),
{
    if text.len() == 0 || text[0] == ':' {
        0
    } else {
        1 + before_colon(text.drop_first())
    }
}

/// The field and the data of one item of certificate data, written as
/// `field:data`: what stands before the first colon, and what stands
/// between it and the next one. `None` when the text has no colon.
pub open spec fn cert_data_of(text: Seq<char>) -> Option<(Seq<char>, Seq<char>)> {
    let at = before_colon(text);
    if at >= text.len() {
        None
    } else {
        let rest = text.subrange(at + 1, text.len() as int);
        Some((text.subrange(0, at), rest.subrange(0, before_colon(rest))))
    }
}

/// `before_colon` is the place of the first colon, or the length.
pub proof fn lemma_before_colon(text: Seq<char>, at: int)
    requires
        0 <= at <= text.len(),
        forall|i: int| 0 <= i < at ==> text[i] != ':',
        at < text.len() ==> text[at] == ':',
    ensures
        before_colon(text) == at,
    decreases text.len(),
{
    if at > 0 {
        let rest = text.drop_first();
        assert forall|i: int| 0 <= i < at - 1 implies rest[i] != ':' by {
            assert(rest[i] == text[i + 1]);
        }
        lemma_before_colon(rest, at - 1);
    }
}

/// The number of characters that stand before the first colon at or
/// after `from`, counted from `from`.
fn colon_after(text: &str, from: usize) -> (count: usize)
    requires
        from <= text@.len(),
    ensures
        from + count <= text@.len(),
        count == before_colon(text@.subrange(from as int, text@.len() as int)),
{
    let len = text.unicode_len();
    let ghost rest = text@.subrange(from as int, len as int);
    let mut at: usize = from;
    while at < len && text.get_char(at) != ':'
        invariant
            from <= at <= len,
            len == text@.len(),
            rest == text@.subrange(from as int, len as int),
            forall|i: int| 0 <= i < at - from ==> rest[i] != ':',
        decreases len - at,
    {
        at = at + 1;
    }
    proof {
        lemma_before_colon(rest, at - from);
    }
    at - from
}

/// Reads one item of certificate data, written as `field:data`.
pub fn parse_cert_data(cert_data: &str) -> (result: Result<(String, String), CliError>)
    ensures
        match cert_data_of(cert_data@) {
            Some((field, data)) => result matches Ok(pair) && pair.0@ == field && pair.1@ == data,
            None => is_input_error(result, "Invalid format for cert_data"@),
        },
{
    let len = cert_data.unicode_len();
    assert(cert_data@.subrange(0, len as int) =~= cert_data@);
    let at = colon_after(cert_data, 0);
    if at >= len {
        Err(CliError::InvalidInputError(String::from_str("Invalid format for cert_data")))
    } else {
        let count = colon_after(cert_data, at + 1);
        let field = String::from_str(cert_data.substring_char(0, at));
        let data = String::from_str(cert_data.substring_char(at + 1, at + 1 + count));
        proof {
            let rest = cert_data@.subrange(at + 1, len as int);
            assert(data@ =~= rest.subrange(0, count as int));
        }
        Ok((field, data))
    }
}

} // verus!
