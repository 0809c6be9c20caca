//! The addresses that each kind of action declares: what its transaction
//! may read (the inputs) and what it may write (the outputs).

use crate::addressing::{
    address_of, all_addresses, get_type_prefix, is_address, is_type_prefix, hashable, make_agent_address, make_assertion_address,
    make_certificate_address, make_organization_address, make_request_address,
    make_standard_address, type_prefix, EntityType,
};
use crate::wire::texts_of;
use vstd::prelude::*;
use vstd::string::*;

verus! {

/// The addresses of creating an agent: the agent's own record, read and
/// written.
pub fn create_agent_transaction_addresses(public_key: &str) -> (addresses: Vec<String>)
    requires
        hashable(public_key@),
    ensures
        all_addresses(texts_of(addresses@)),
        texts_of(addresses@) == seq![address_of(EntityType::Agent, public_key@)],
{
    let mut addresses: Vec<String> = Vec::new();
    addresses.push(make_agent_address(public_key));
    assert(texts_of(addresses@) =~= seq![address_of(EntityType::Agent, public_key@)]);
    addresses
}

/// The inputs of authorizing an agent: the authorizer's record, the
/// organization, and the record of the agent that is authorized.
pub fn authorize_agent_transaction_addresses_input(
    authorizer_public_key: &str,
    org_id: &str,
    authee_pub_key: &str,
) -> (addresses: Vec<String>)
    requires
        hashable(authorizer_public_key@),
        hashable(org_id@),
        hashable(authee_pub_key@),
    ensures
        all_addresses(texts_of(addresses@)),
        texts_of(addresses@) == seq![
            address_of(EntityType::Agent, authorizer_public_key@),
            address_of(EntityType::Organization, org_id@),
            address_of(EntityType::Agent, authee_pub_key@),
        ],
{
    let mut addresses: Vec<String> = Vec::new();
    addresses.push(make_agent_address(authorizer_public_key));
    addresses.push(make_organization_address(org_id));
    addresses.push(make_agent_address(authee_pub_key));
    assert(texts_of(addresses@) =~= seq![
        address_of(EntityType::Agent, authorizer_public_key@),
        address_of(EntityType::Organization, org_id@),
        address_of(EntityType::Agent, authee_pub_key@),
    ]);
    addresses
}

/// The outputs of authorizing an agent: the organization and the record
/// of the agent that is authorized.
pub fn authorize_agent_transaction_addresses_output(org_id: &str, authee_pub_key: &str) -> (addresses:
    Vec<String>)
    requires
        hashable(org_id@),
        hashable(authee_pub_key@),
    ensures
        all_addresses(texts_of(addresses@)),
        texts_of(addresses@) == seq![
            address_of(EntityType::Organization, org_id@),
            address_of(EntityType::Agent, authee_pub_key@),
        ],
{
    let mut addresses: Vec<String> = Vec::new();
    addresses.push(make_organization_address(org_id));
    addresses.push(make_agent_address(authee_pub_key));
    assert(texts_of(addresses@) =~= seq![
        address_of(EntityType::Organization, org_id@),
        address_of(EntityType::Agent, authee_pub_key@),
    ]);
    addresses
}

/// The addresses of creating or updating an organization: the signer's
/// record and the organization, read and written.
pub fn create_organization_transaction_addresses(public_key: &str, organization_id: &str) -> (addresses:
    Vec<String>)
    requires
        hashable(public_key@),
        hashable(organization_id@),
    ensures
        all_addresses(texts_of(addresses@)),
        texts_of(addresses@) == seq![
            address_of(EntityType::Agent, public_key@),
            address_of(EntityType::Organization, organization_id@),
        ],
{
    let mut addresses: Vec<String> = Vec::new();
    addresses.push(make_agent_address(public_key));
    addresses.push(make_organization_address(organization_id));
    assert(texts_of(addresses@) =~= seq![
        address_of(EntityType::Agent, public_key@),
        address_of(EntityType::Organization, organization_id@),
    ]);
    addresses
}

/// The addresses of creating a standard. Inputs: the standard, the
/// signer's record and the organization. Output: the standard.
pub fn create_standard_transaction_addresses(
    public_key: &str,
    standard_id: &str,
    organization_id: &str,
) -> (addresses: (Vec<String>, Vec<String>))
    requires
        hashable(public_key@),
        hashable(standard_id@),
        hashable(organization_id@),
    ensures
        all_addresses(texts_of(addresses.0@)),
        all_addresses(texts_of(addresses.1@)),
        texts_of(addresses.0@) == seq![
            address_of(EntityType::Standard, standard_id@),
            address_of(EntityType::Agent, public_key@),
            address_of(EntityType::Organization, organization_id@),
        ],
        texts_of(addresses.1@) == seq![address_of(EntityType::Standard, standard_id@)],
{
    let standard_address = make_standard_address(standard_id);
    let mut inputs: Vec<String> = Vec::new();
    inputs.push(standard_address.clone());
    inputs.push(make_agent_address(public_key));
    inputs.push(make_organization_address(organization_id));
    let mut outputs: Vec<String> = Vec::new();
    outputs.push(standard_address);
    assert(texts_of(inputs@) =~= seq![
        address_of(EntityType::Standard, standard_id@),
        address_of(EntityType::Agent, public_key@),
        address_of(EntityType::Organization, organization_id@),
    ]);
    assert(texts_of(outputs@) =~= seq![address_of(EntityType::Standard, standard_id@)]);
    (inputs, outputs)
}

/// The addresses of accrediting a certifying body. Inputs: the standard,
/// the signer's record, the certifying body and the standards body.
/// Output: the certifying body.
pub fn create_accreditation_transaction_addresses(
    public_key: &str,
    standard_id: &str,
    certifying_body_id: &str,
    standards_body_id: &str,
) -> (addresses: (Vec<String>, Vec<String>))
    requires
        hashable(public_key@),
        hashable(standard_id@),
        hashable(certifying_body_id@),
        hashable(standards_body_id@),
    ensures
        all_addresses(texts_of(addresses.0@)),
        all_addresses(texts_of(addresses.1@)),
        texts_of(addresses.0@) == seq![
            address_of(EntityType::Standard, standard_id@),
            address_of(EntityType::Agent, public_key@),
            address_of(EntityType::Organization, certifying_body_id@),
            address_of(EntityType::Organization, standards_body_id@),
        ],
        texts_of(addresses.1@) == seq![
            address_of(EntityType::Organization, certifying_body_id@),
        ],
{
    let certifying_body_address = make_organization_address(certifying_body_id);
    let mut inputs: Vec<String> = Vec::new();
    inputs.push(make_standard_address(standard_id));
    inputs.push(make_agent_address(public_key));
    inputs.push(certifying_body_address.clone());
    inputs.push(make_organization_address(standards_body_id));
    let mut outputs: Vec<String> = Vec::new();
    outputs.push(certifying_body_address);
    assert(texts_of(inputs@) =~= seq![
        address_of(EntityType::Standard, standard_id@),
        address_of(EntityType::Agent, public_key@),
        address_of(EntityType::Organization, certifying_body_id@),
        address_of(EntityType::Organization, standards_body_id@),
    ]);
    assert(texts_of(outputs@) =~= seq![
        address_of(EntityType::Organization, certifying_body_id@),
    ]);
    (inputs, outputs)
}

/// The inputs of issuing a certificate: the signer's record, the
/// certifying body, the certificate and the factory.
pub fn make_create_header_input(
    public_key: &str,
    certifying_body_id: &str,
    certificate_id: &str,
    factory_id: &str,
) -> (addresses: Vec<String>)
    requires
        hashable(public_key@),
        hashable(certifying_body_id@),
        hashable(certificate_id@),
        hashable(factory_id@),
    ensures
        all_addresses(texts_of(addresses@)),
        texts_of(addresses@) == seq![
            address_of(EntityType::Agent, public_key@),
            address_of(EntityType::Organization, certifying_body_id@),
            address_of(EntityType::Certificate, certificate_id@),
            address_of(EntityType::Organization, factory_id@),
        ],
{
    let mut addresses: Vec<String> = Vec::new();
    addresses.push(make_agent_address(public_key));
    addresses.push(make_organization_address(certifying_body_id));
    addresses.push(make_certificate_address(certificate_id));
    addresses.push(make_organization_address(factory_id));
    assert(texts_of(addresses@) =~= seq![
        address_of(EntityType::Agent, public_key@),
        address_of(EntityType::Organization, certifying_body_id@),
        address_of(EntityType::Certificate, certificate_id@),
        address_of(EntityType::Organization, factory_id@),
    ]);
    addresses
}

/// The inputs of updating a certificate: the signer's record, the
/// certifying body and the certificate.
pub fn make_update_header_input(
    public_key: &str,
    certifying_body_id: &str,
    certificate_id: &str,
) -> (addresses: Vec<String>)
    requires
        hashable(public_key@),
        hashable(certifying_body_id@),
        hashable(certificate_id@),
    ensures
        all_addresses(texts_of(addresses@)),
        texts_of(addresses@) == seq![
            address_of(EntityType::Agent, public_key@),
            address_of(EntityType::Organization, certifying_body_id@),
            address_of(EntityType::Certificate, certificate_id@),
        ],
{
    let mut addresses: Vec<String> = Vec::new();
    addresses.push(make_agent_address(public_key));
    addresses.push(make_organization_address(certifying_body_id));
    addresses.push(make_certificate_address(certificate_id));
    assert(texts_of(addresses@) =~= seq![
        address_of(EntityType::Agent, public_key@),
        address_of(EntityType::Organization, certifying_body_id@),
        address_of(EntityType::Certificate, certificate_id@),
    ]);
    addresses
}

/// The inputs that issuing a certificate declares, given the request that
/// it answers, if any.
pub open spec fn issue_certificate_inputs(
    public_key: Seq<char>,
    certifying_body_id: Seq<char>,
    certificate_id: Seq<char>,
    factory_id: Seq<char>,
    request_id: Option<Seq<char>>,
) -> Seq<Seq<char>> {
    let base = seq![
        address_of(EntityType::Agent, public_key),
        address_of(EntityType::Organization, certifying_body_id),
        address_of(EntityType::Certificate, certificate_id),
        address_of(EntityType::Organization, factory_id),
    ];
    match request_id {
        Some(id) => base.push(address_of(EntityType::Request, id)),
        None => base,
    }
}

/// The outputs that issuing a certificate declares, given the request
/// that it answers, if any.
pub open spec fn issue_certificate_outputs(
    certificate_id: Seq<char>,
    request_id: Option<Seq<char>>,
) -> Seq<Seq<char>> {
    let base = seq![address_of(EntityType::Certificate, certificate_id)];
    match request_id {
        Some(id) => base.push(address_of(EntityType::Request, id)),
        None => base,
    }
}

/// The text of an optional string.
pub open spec fn text_of(text: Option<&str>) -> Option<Seq<char>> {
    match text {
        Some(t) => Some(t@),
        None => None,
    }
}

/// The addresses of issuing a certificate. A certificate that answers a
/// request reads and writes the request as well.
pub fn issue_certificate_transaction_addresses(
    public_key: &str,
    certifying_body_id: &str,
    certificate_id: &str,
    factory_id: &str,
    request_id: Option<&str>,
) -> (addresses: (Vec<String>, Vec<String>))
    requires
        hashable(public_key@),
        hashable(certifying_body_id@),
        hashable(certificate_id@),
        hashable(factory_id@),
        request_id matches Some(id) ==> hashable(id@),
    ensures
        all_addresses(texts_of(addresses.0@)),
        all_addresses(texts_of(addresses.1@)),
        texts_of(addresses.0@) == issue_certificate_inputs(
            public_key@,
            certifying_body_id@,
            certificate_id@,
            factory_id@,
            text_of(request_id),
        ),
        texts_of(addresses.1@) == issue_certificate_outputs(
            certificate_id@,
            text_of(request_id),
        ),
{
    let mut inputs = make_create_header_input(
        public_key,
        certifying_body_id,
        certificate_id,
        factory_id,
    );
    let mut outputs: Vec<String> = Vec::new();
    outputs.push(make_certificate_address(certificate_id));
    assert(texts_of(outputs@) =~= seq![address_of(EntityType::Certificate, certificate_id@)]);
    match request_id {
        Some(id) => {
            let ghost inputs_before = texts_of(inputs@);
            let ghost outputs_before = texts_of(outputs@);
            let request_address = make_request_address(id);
            inputs.push(request_address.clone());
            outputs.push(request_address);
            assert(texts_of(inputs@) =~= inputs_before.push(address_of(EntityType::Request, id@)));
            assert(texts_of(outputs@) =~= outputs_before.push(
                address_of(EntityType::Request, id@),
            ));
        },
        None => {},
    }
    (inputs, outputs)
}

/// The addresses of asserting a factory. Inputs: the signer's record, the
/// asserter's organization, the factory and the assertion. Outputs: the
/// factory and the assertion.
pub fn create_factory_assertion_transaction_addresses(
    public_key: &str,
    assertion_id: &str,
    asserter_organization_id: &str,
    factory_organization_id: &str,
) -> (addresses: (Vec<String>, Vec<String>))
    requires
        hashable(public_key@),
        hashable(assertion_id@),
        hashable(asserter_organization_id@),
        hashable(factory_organization_id@),
    ensures
        all_addresses(texts_of(addresses.0@)),
        all_addresses(texts_of(addresses.1@)),
        texts_of(addresses.0@) == seq![
            address_of(EntityType::Agent, public_key@),
            address_of(EntityType::Organization, asserter_organization_id@),
            address_of(EntityType::Organization, factory_organization_id@),
            address_of(EntityType::Assertion, assertion_id@),
        ],
        texts_of(addresses.1@) == seq![
            address_of(EntityType::Organization, factory_organization_id@),
            address_of(EntityType::Assertion, assertion_id@),
        ],
{
    let factory_address = make_organization_address(factory_organization_id);
    let assertion_address = make_assertion_address(assertion_id);
    let mut inputs: Vec<String> = Vec::new();
    inputs.push(make_agent_address(public_key));
    inputs.push(make_organization_address(asserter_organization_id));
    inputs.push(factory_address.clone());
    inputs.push(assertion_address.clone());
    let mut outputs: Vec<String> = Vec::new();
    outputs.push(factory_address);
    outputs.push(assertion_address);
    assert(texts_of(inputs@) =~= seq![
        address_of(EntityType::Agent, public_key@),
        address_of(EntityType::Organization, asserter_organization_id@),
        address_of(EntityType::Organization, factory_organization_id@),
        address_of(EntityType::Assertion, assertion_id@),
    ]);
    assert(texts_of(outputs@) =~= seq![
        address_of(EntityType::Organization, factory_organization_id@),
        address_of(EntityType::Assertion, assertion_id@),
    ]);
    (inputs, outputs)
}

/// The addresses of asserting a standard. Inputs: the signer's record,
/// the asserter's organization, the standard and the assertion. Outputs:
/// the standard and the assertion.
pub fn create_standard_assertion_transaction_addresses(
    public_key: &str,
    assertion_id: &str,
    asserter_organization_id: &str,
    standard_id: &str,
) -> (addresses: (Vec<String>, Vec<String>))
    requires
        hashable(public_key@),
        hashable(assertion_id@),
        hashable(asserter_organization_id@),
        hashable(standard_id@),
    ensures
        all_addresses(texts_of(addresses.0@)),
        all_addresses(texts_of(addresses.1@)),
        texts_of(addresses.0@) == seq![
            address_of(EntityType::Agent, public_key@),
            address_of(EntityType::Organization, asserter_organization_id@),
            address_of(EntityType::Standard, standard_id@),
            address_of(EntityType::Assertion, assertion_id@),
        ],
        texts_of(addresses.1@) == seq![
            address_of(EntityType::Standard, standard_id@),
            address_of(EntityType::Assertion, assertion_id@),
        ],
{
    let standard_address = make_standard_address(standard_id);
    let assertion_address = make_assertion_address(assertion_id);
    let mut inputs: Vec<String> = Vec::new();
    inputs.push(make_agent_address(public_key));
    inputs.push(make_organization_address(asserter_organization_id));
    inputs.push(standard_address.clone());
    inputs.push(assertion_address.clone());
    let mut outputs: Vec<String> = Vec::new();
    outputs.push(standard_address);
    outputs.push(assertion_address);
    assert(texts_of(inputs@) =~= seq![
        address_of(EntityType::Agent, public_key@),
        address_of(EntityType::Organization, asserter_organization_id@),
        address_of(EntityType::Standard, standard_id@),
        address_of(EntityType::Assertion, assertion_id@),
    ]);
    assert(texts_of(outputs@) =~= seq![
        address_of(EntityType::Standard, standard_id@),
        address_of(EntityType::Assertion, assertion_id@),
    ]);
    (inputs, outputs)
}

/// The addresses of asserting a certificate. Inputs: the signer's record,
/// the asserter's organization, the certificate, the factory, the
/// standard and the assertion. Outputs: the certificate and the assertion.
pub fn create_certificate_assertion_transaction_addresses(
    public_key: &str,
    assertion_id: &str,
    asserter_organization_id: &str,
    certificate_id: &str,
    factory_id: &str,
    standard_id: &str,
) -> (addresses: (Vec<String>, Vec<String>))
    requires
        hashable(public_key@),
        hashable(assertion_id@),
        hashable(asserter_organization_id@),
        hashable(certificate_id@),
        hashable(factory_id@),
        hashable(standard_id@),
    ensures
        all_addresses(texts_of(addresses.0@)),
        all_addresses(texts_of(addresses.1@)),
        texts_of(addresses.0@) == seq![
            address_of(EntityType::Agent, public_key@),
            address_of(EntityType::Organization, asserter_organization_id@),
            address_of(EntityType::Certificate, certificate_id@),
            address_of(EntityType::Organization, factory_id@),
            address_of(EntityType::Standard, standard_id@),
            address_of(EntityType::Assertion, assertion_id@),
        ],
        texts_of(addresses.1@) == seq![
            address_of(EntityType::Certificate, certificate_id@),
            address_of(EntityType::Assertion, assertion_id@),
        ],
{
    let certificate_address = make_certificate_address(certificate_id);
    let assertion_address = make_assertion_address(assertion_id);
    let mut inputs: Vec<String> = Vec::new();
    inputs.push(make_agent_address(public_key));
    inputs.push(make_organization_address(asserter_organization_id));
    inputs.push(certificate_address.clone());
    inputs.push(make_organization_address(factory_id));
    inputs.push(make_standard_address(standard_id));
    inputs.push(assertion_address.clone());
    let mut outputs: Vec<String> = Vec::new();
    outputs.push(certificate_address);
    outputs.push(assertion_address);
    assert(texts_of(inputs@) =~= seq![
        address_of(EntityType::Agent, public_key@),
        address_of(EntityType::Organization, asserter_organization_id@),
        address_of(EntityType::Certificate, certificate_id@),
        address_of(EntityType::Organization, factory_id@),
        address_of(EntityType::Standard, standard_id@),
        address_of(EntityType::Assertion, assertion_id@),
    ]);
    assert(texts_of(outputs@) =~= seq![
        address_of(EntityType::Certificate, certificate_id@),
        address_of(EntityType::Assertion, assertion_id@),
    ]);
    (inputs, outputs)
}

/// What transferring an assertion declares, as inputs and as outputs: the
/// signer's record, every organization, every certificate, every
/// standard, and the assertion.
pub open spec fn transfer_assertion_addresses(
    public_key: Seq<char>,
    assertion_id: Seq<char>,
) -> Seq<Seq<char>> {
    seq![
        address_of(EntityType::Agent, public_key),
        type_prefix(EntityType::Organization),
        type_prefix(EntityType::Certificate),
        type_prefix(EntityType::Standard),
        address_of(EntityType::Assertion, assertion_id),
    ]
}

/// The addresses of transferring an assertion. What the assertion covers
/// is not known beforehand, so whole kinds of entity are declared by
/// their prefixes.
pub fn create_transfer_assertion_transaction_addresses(
    public_key: &str,
    assertion_id: &str,
) -> (addresses: (Vec<String>, Vec<String>))
    requires
        hashable(public_key@),
        hashable(assertion_id@),
    ensures
        is_address(texts_of(addresses.0@)[0]),
        is_type_prefix(texts_of(addresses.0@)[1]),
        is_type_prefix(texts_of(addresses.0@)[2]),
        is_type_prefix(texts_of(addresses.0@)[3]),
        is_address(texts_of(addresses.0@)[4]),
        is_address(texts_of(addresses.1@)[0]),
        is_type_prefix(texts_of(addresses.1@)[1]),
        is_type_prefix(texts_of(addresses.1@)[2]),
        is_type_prefix(texts_of(addresses.1@)[3]),
        is_address(texts_of(addresses.1@)[4]),
        texts_of(addresses.0@) == transfer_assertion_addresses(public_key@, assertion_id@),
        texts_of(addresses.1@) == transfer_assertion_addresses(public_key@, assertion_id@),
{
    let agent_address = make_agent_address(public_key);
    let organization_space_prefix = get_type_prefix(EntityType::Organization);
    let certificate_space_prefix = get_type_prefix(EntityType::Certificate);
    let standard_space_prefix = get_type_prefix(EntityType::Standard);
    let assertion_address = make_assertion_address(assertion_id);
    let mut inputs: Vec<String> = Vec::new();
    inputs.push(agent_address.clone());
    inputs.push(organization_space_prefix.clone());
    inputs.push(certificate_space_prefix.clone());
    inputs.push(standard_space_prefix.clone());
    inputs.push(assertion_address.clone());
    let mut outputs: Vec<String> = Vec::new();
    outputs.push(agent_address);
    outputs.push(organization_space_prefix);
    outputs.push(certificate_space_prefix);
    outputs.push(standard_space_prefix);
    outputs.push(assertion_address);
    assert(texts_of(inputs@) =~= transfer_assertion_addresses(public_key@, assertion_id@));
    assert(texts_of(outputs@) =~= transfer_assertion_addresses(public_key@, assertion_id@));
    (inputs, outputs)
}

} // verus!
