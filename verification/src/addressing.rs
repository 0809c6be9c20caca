//! State addresses of the certificate registry.
//!
//! An address is seventy hexadecimal digits: the six-digit prefix of the
//! transaction family, four digits that name the kind of entity, and the
//! first sixty digits of the SHA-256 digest of the entity's identifier.

use crate::digest::{sha256, sha256_accepts, sha256_digest};
use crate::hex::{
    all_hex_digits, bytes_to_hex_str, hex_encoding, is_hex_digit, lemma_hex_encoding_digits,
};
use vstd::prelude::*;
use vstd::string::*;
use vstd::utf8::encode_utf8;

verus! {

/// Name of the transaction family.
pub const FAMILY_NAMESPACE: &'static str = "certificate_registry";

/// Version of the transaction family.
pub const FAMILY_VERSION: &'static str = "0.1";

/// Number of digits in the family prefix.
pub const PREFIX_SIZE: usize = 6;

/// Number of digits that name the kind of entity.
pub const TYPE_CODE_SIZE: usize = 4;

/// Number of digits taken from the digest of the identifier.
pub const IDENTIFIER_HASH_SIZE: usize = 60;

/// Number of digits in an address.
pub const ADDRESS_SIZE: usize = 70;

/// The kinds of entity that the registry keeps in state.
#[derive(Clone, Copy, Debug, PartialEq, Eq, Structural)]
pub enum EntityType {
    Agent,
    Certificate,
    Organization,
    Standard,
    Request,
    Assertion,
}

/// The first `num` digits of the hexadecimal SHA-256 digest of `text`, or
/// nothing when the digest has fewer than `num` digits.
pub open spec fn hash_of(text: Seq<char>, num: nat) -> Seq<char> {
    let digits = hex_encoding(sha256(encode_utf8(text)));
    if num <= digits.len() {
        digits.subrange(0, num as int)
    } else {
        Seq::empty()
    }
}

/// The four digits that name a kind of entity.
pub open spec fn type_code(entity_type: EntityType) -> Seq<char> {
    match entity_type {
        EntityType::Agent => seq!['0', '0', '0', '0'],
        EntityType::Certificate => seq!['0', '0', '0', '1'],
        EntityType::Organization => seq!['0', '0', '0', '2'],
        EntityType::Standard => seq!['0', '0', '0', '3'],
        EntityType::Request => seq!['0', '0', '0', '4'],
        EntityType::Assertion => seq!['0', '0', '0', '5'],
    }
}

/// The prefix shared by every address of the family.
pub open spec fn family_prefix() -> Seq<char> {
    hash_of(FAMILY_NAMESPACE@, PREFIX_SIZE as nat)
}

/// The prefix shared by every address of one kind of entity.
pub open spec fn type_prefix(entity_type: EntityType) -> Seq<char> {
    family_prefix() + type_code(entity_type)
}

/// The address of the entity of kind `entity_type` named `identifier`.
pub open spec fn address_of(entity_type: EntityType, identifier: Seq<char>) -> Seq<char> {
    type_prefix(entity_type) + hash_of(identifier, IDENTIFIER_HASH_SIZE as nat)
}

/// Whether `text` has the form of an address: seventy hexadecimal
/// digits.
pub open spec fn is_address(text: Seq<char>) -> bool {
    text.len() == ADDRESS_SIZE && all_hex_digits(text)
}

/// Whether `text` has the form of the prefix of a kind of entity: ten
/// hexadecimal digits.
pub open spec fn is_type_prefix(text: Seq<char>) -> bool {
    text.len() == PREFIX_SIZE + TYPE_CODE_SIZE && all_hex_digits(text)
}

/// Whether every one of `texts` has the form of an address.
pub open spec fn all_addresses(texts: Seq<Seq<char>>) -> bool {
    forall|i: int| 0 <= i < texts.len() ==> is_address(#[trigger] texts[i])
}

/// Whether `text` can be hashed: its UTF-8 form has to fit SHA-256.
pub open spec fn hashable(text: Seq<char>) -> bool {
    sha256_accepts(encode_utf8(text).len())
}

/// Whether `text` can be hashed. Every text that a machine of today can
/// hold can be.
pub fn is_hashable(text: &str) -> (accepted: bool)
    ensures
        accepted == hashable(text@),
{
    (text.as_bytes().len() as u64) < 0x2000_0000_0000_0000u64
}

/// The first `num` digits of the hexadecimal SHA-256 digest of `to_hash`;
/// the empty string when `num` is more than the sixty-four digits there are.
pub fn hash(to_hash: &str, num: usize) -> (digits: String)
    requires
        hashable(to_hash@),
    ensures
        digits@ == hash_of(to_hash@, num as nat),
        num <= 64 ==> digits@.len() == num,
        num > 64 ==> digits@.len() == 0,
        all_hex_digits(digits@),
{
    let digest = sha256_digest(to_hash.as_bytes());
    let all = bytes_to_hex_str(digest.as_slice());
    proof {
        lemma_hex_encoding_digits(digest@);
    }
    if num <= 64 {
        String::from_str(all.as_str().substring_char(0, num))
    } else {
        String::new()
    }
}

/// The prefix shared by every address of the family.
pub fn get_family_namespace_prefix() -> (prefix: String)
    ensures
        prefix@ == family_prefix(),
        prefix@.len() == PREFIX_SIZE,
        all_hex_digits(prefix@),
{
    proof {
        reveal_strlit("certificate_registry");
        assert(hashable(FAMILY_NAMESPACE@)) by {
            lemma_utf8_length_bound(FAMILY_NAMESPACE@);
        }
    }
    hash(FAMILY_NAMESPACE, PREFIX_SIZE)
}

/// Number of digits in the identifier of a standard.
pub const STANDARD_ID_SIZE: usize = 64;

/// The identifier of the standard with the given name: the hexadecimal
/// SHA-256 digest of the name.
pub fn standard_id(name: &str) -> (id: String)
    requires
        hashable(name@),
    ensures
        id@ == hash_of(name@, STANDARD_ID_SIZE as nat),
        id@.len() == STANDARD_ID_SIZE,
        all_hex_digits(id@),
{
    hash(name, STANDARD_ID_SIZE)
}

/// The four digits that name a kind of entity.
pub fn type_code_of(entity_type: EntityType) -> (code: &'static str)
    ensures
        code@ == type_code(entity_type),
        all_hex_digits(code@),
{
    proof {
        reveal_strlit("0000");
        reveal_strlit("0001");
        reveal_strlit("0002");
        reveal_strlit("0003");
        reveal_strlit("0004");
        reveal_strlit("0005");
    }
    let code = match entity_type {
        EntityType::Agent => "0000",
        EntityType::Certificate => "0001",
        EntityType::Organization => "0002",
        EntityType::Standard => "0003",
        EntityType::Request => "0004",
        EntityType::Assertion => "0005",
    };
    assert(code@ =~= type_code(entity_type));
    assert(all_hex_digits(code@)) by {
        assert forall|i: int| 0 <= i < code@.len() implies is_hex_digit(#[trigger] code@[i]) by {
            assert(code@[i] == crate::hex::hex_digit(0) || code@[i] == crate::hex::hex_digit(1)
                || code@[i] == crate::hex::hex_digit(2) || code@[i] == crate::hex::hex_digit(3)
                || code@[i] == crate::hex::hex_digit(4) || code@[i] == crate::hex::hex_digit(5));
        }
    }
    code
}

/// The prefix shared by every address of one kind of entity: the family
/// prefix and the kind's four digits.
pub fn get_type_prefix(entity_type: EntityType) -> (prefix: String)
    ensures
        prefix@ == type_prefix(entity_type),
        prefix@.len() == PREFIX_SIZE + TYPE_CODE_SIZE,
        all_hex_digits(prefix@),
{
    let mut prefix = get_family_namespace_prefix();
    prefix.append(type_code_of(entity_type));
    prefix
}

/// The address of the entity of kind `entity_type` named `identifier`.
pub fn derive_address(entity_type: EntityType, identifier: &str) -> (address: String)
    requires
        hashable(identifier@),
    ensures
        address@ == address_of(entity_type, identifier@),
        address@.len() == ADDRESS_SIZE,
        all_hex_digits(address@),
{
    let mut address = get_type_prefix(entity_type);
    let digits = hash(identifier, IDENTIFIER_HASH_SIZE);
    address.append(digits.as_str());
    address
}

/// The address of the agent with the given public key.
pub fn make_agent_address(agent_public_key: &str) -> (address: String)
    requires
        hashable(agent_public_key@),
    ensures
        address@ == address_of(EntityType::Agent, agent_public_key@),
        address@.len() == ADDRESS_SIZE,
        all_hex_digits(address@),
{
    derive_address(EntityType::Agent, agent_public_key)
}

/// The address of the organization with the given identifier.
pub fn make_organization_address(organization_id: &str) -> (address: String)
    requires
        hashable(organization_id@),
    ensures
        address@ == address_of(EntityType::Organization, organization_id@),
        address@.len() == ADDRESS_SIZE,
        all_hex_digits(address@),
{
    derive_address(EntityType::Organization, organization_id)
}

/// The address of the certificate with the given identifier.
pub fn make_certificate_address(certificate_id: &str) -> (address: String)
    requires
        hashable(certificate_id@),
    ensures
        address@ == address_of(EntityType::Certificate, certificate_id@),
        address@.len() == ADDRESS_SIZE,
        all_hex_digits(address@),
{
    derive_address(EntityType::Certificate, certificate_id)
}

/// The address of the standard with the given identifier.
pub fn make_standard_address(standard_id: &str) -> (address: String)
    requires
        hashable(standard_id@),
    ensures
        address@ == address_of(EntityType::Standard, standard_id@),
        address@.len() == ADDRESS_SIZE,
        all_hex_digits(address@),
{
    derive_address(EntityType::Standard, standard_id)
}

/// The address of the certification request with the given identifier.
pub fn make_request_address(request_id: &str) -> (address: String)
    requires
        hashable(request_id@),
    ensures
        address@ == address_of(EntityType::Request, request_id@),
        address@.len() == ADDRESS_SIZE,
        all_hex_digits(address@),
{
    derive_address(EntityType::Request, request_id)
}

/// The address of the assertion with the given identifier.
pub fn make_assertion_address(assertion_id: &str) -> (address: String)
    requires
        hashable(assertion_id@),
    ensures
        address@ == address_of(EntityType::Assertion, assertion_id@),
        address@.len() == ADDRESS_SIZE,
        all_hex_digits(address@),
{
    derive_address(EntityType::Assertion, assertion_id)
}

/// Deriving the address of one entity twice gives the same address.
pub proof fn lemma_derivation_is_deterministic(
    entity_type: EntityType,
    identifier: Seq<char>,
    first: Seq<char>,
    second: Seq<char>,
)
    requires
        first == address_of(entity_type, identifier),
        second == address_of(entity_type, identifier),
    ensures
        first == second,
{
}

/// Addresses of entities of two different kinds are never equal, whatever
/// the identifiers are.
pub proof fn lemma_entity_types_disjoint(
    first_type: EntityType,
    first_identifier: Seq<char>,
    second_type: EntityType,
    second_identifier: Seq<char>,
)
    requires
        first_type != second_type,
    ensures
        address_of(first_type, first_identifier) != address_of(second_type, second_identifier),
{
    let prefix = family_prefix();
    let first = address_of(first_type, first_identifier);
    let second = address_of(second_type, second_identifier);
    let at = prefix.len() as int + 3;
    assert(type_code(first_type)[3] != type_code(second_type)[3]);
    assert(first[at] == type_code(first_type)[3]);
    assert(second[at] == type_code(second_type)[3]);
}

/// The address of an entity begins with the prefix of its kind, so a
/// prefix declared in a transaction covers every entity of that kind.
pub proof fn lemma_address_has_type_prefix(entity_type: EntityType, identifier: Seq<char>)
    ensures
        type_prefix(entity_type).is_prefix_of(address_of(entity_type, identifier)),
{
}

/// The UTF-8 form of a text has at most four bytes for each character.
pub proof fn lemma_utf8_length_bound(text: Seq<char>)
    ensures
        encode_utf8(text).len() <= 4 * text.len(),
    decreases text.len(),
{
    if text.len() > 0 {
        lemma_utf8_length_bound(text.drop_first());
    }
}

} // verus!
