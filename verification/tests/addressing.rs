use consensource_cli::addressing::{
    derive_address, get_family_namespace_prefix, get_type_prefix, hash, is_hashable,
    make_agent_address, make_assertion_address, make_certificate_address,
    make_organization_address, make_request_address, make_standard_address, standard_id,
    EntityType, ADDRESS_SIZE, FAMILY_NAMESPACE, FAMILY_VERSION,
};
use consensource_cli::footprint::{
    authorize_agent_transaction_addresses_input, authorize_agent_transaction_addresses_output,
    create_accreditation_transaction_addresses, create_agent_transaction_addresses,
    create_certificate_assertion_transaction_addresses,
    create_factory_assertion_transaction_addresses, create_organization_transaction_addresses,
    create_standard_assertion_transaction_addresses, create_standard_transaction_addresses,
    create_transfer_assertion_transaction_addresses, issue_certificate_transaction_addresses,
    make_create_header_input, make_update_header_input,
};

const ALL_TYPES: [EntityType; 6] = [
    EntityType::Agent,
    EntityType::Certificate,
    EntityType::Organization,
    EntityType::Standard,
    EntityType::Request,
    EntityType::Assertion,
];

#[test]
fn family_constants() {
    assert_eq!(FAMILY_NAMESPACE, "certificate_registry");
    assert_eq!(FAMILY_VERSION, "0.1");
    assert_eq!(get_family_namespace_prefix(), "439a56");
}

#[test]
fn hash_takes_the_first_digits_of_the_digest() {
    assert_eq!(
        hash("abc", 64),
        "ba7816bf8f01cfea414140de5dae2223b00361a396177a9cb410ff61f20015ad"
    );
    assert_eq!(hash("abc", 6), "ba7816");
    assert_eq!(hash("abc", 0), "");
    assert_eq!(hash("abc", 65), "");
    assert_eq!(
        hash("", 64),
        "e3b0c44298fc1c149afbf4c8996fb92427ae41e4649b934ca495991b7852b855"
    );
    assert_eq!(
        hash("é", 64),
        "4a99557e4033c3539de2eb65472017cad5f9557f7a0625a09f1c3f6e2ba69c4c"
    );
}

#[test]
fn addresses_have_the_expected_digits() {
    assert_eq!(
        make_agent_address("02aa"),
        "439a560000ed0ff43f5729594fd47791a8e3a73a19888b450ec9760aa296801731002b"
    );
    assert_eq!(
        make_organization_address("org-1"),
        "439a560002c24787a75cb363e4bc33871cff23a407c2dc0db631898c35b4604a833bfa"
    );
    assert_eq!(&make_certificate_address("x")[..10], "439a560001");
    assert_eq!(&make_standard_address("x")[..10], "439a560003");
    assert_eq!(&make_request_address("x")[..10], "439a560004");
    assert_eq!(&make_assertion_address("x")[..10], "439a560005");
    assert_eq!(get_type_prefix(EntityType::Organization), "439a560002");
}

#[test]
fn derive_address_is_deterministic() {
    for entity_type in ALL_TYPES {
        for identifier in ["", "a", "org-1", "02aa", "a longer identifier with spaces"] {
            let first = derive_address(entity_type, identifier);
            let second = derive_address(entity_type, identifier);
            assert_eq!(first, second);
        }
    }
}

#[test]
fn addresses_are_seventy_hexadecimal_digits() {
    for entity_type in ALL_TYPES {
        for identifier in ["", "a", "org-1", "é", "02aa"] {
            let address = derive_address(entity_type, identifier);
            assert_eq!(address.len(), ADDRESS_SIZE);
            assert_eq!(address.len(), 70);
            assert!(address
                .chars()
                .all(|c| c.is_ascii_digit() || ('a'..='f').contains(&c)));
        }
    }
}

#[test]
fn entity_types_never_share_an_address() {
    let identifiers = ["", "a", "org-1", "02aa"];
    for first_type in ALL_TYPES {
        for second_type in ALL_TYPES {
            if first_type == second_type {
                continue;
            }
            for first in identifiers {
                for second in identifiers {
                    assert_ne!(
                        derive_address(first_type, first),
                        derive_address(second_type, second)
                    );
                }
            }
        }
    }
}

#[test]
fn distinct_identifiers_give_distinct_addresses() {
    assert_ne!(make_agent_address("a"), make_agent_address("b"));
    assert_ne!(make_organization_address("org-1"), make_organization_address("org-2"));
}

#[test]
fn standard_id_is_the_digest_of_the_name() {
    assert_eq!(
        standard_id("ISO 9001"),
        "3053c35b6d07826c3f2d87bc8efadab7af223490d1ef8c919156e3c9f2cad282"
    );
}

#[test]
fn ordinary_texts_are_hashable() {
    assert!(is_hashable(""));
    assert!(is_hashable("02aa"));
}

#[test]
fn agent_and_organization_footprints() {
    assert_eq!(
        create_agent_transaction_addresses("02aa"),
        vec![make_agent_address("02aa")]
    );
    assert_eq!(
        create_organization_transaction_addresses("02aa", "org-1"),
        vec![make_agent_address("02aa"), make_organization_address("org-1")]
    );
    assert_eq!(
        authorize_agent_transaction_addresses_input("02aa", "org-1", "03bb"),
        vec![
            make_agent_address("02aa"),
            make_organization_address("org-1"),
            make_agent_address("03bb"),
        ]
    );
    assert_eq!(
        authorize_agent_transaction_addresses_output("org-1", "03bb"),
        vec![make_organization_address("org-1"), make_agent_address("03bb")]
    );
}

#[test]
fn standard_and_accreditation_footprints() {
    let (inputs, outputs) = create_standard_transaction_addresses("02aa", "std-1", "org-1");
    assert_eq!(
        inputs,
        vec![
            make_standard_address("std-1"),
            make_agent_address("02aa"),
            make_organization_address("org-1"),
        ]
    );
    assert_eq!(outputs, vec![make_standard_address("std-1")]);

    let (inputs, outputs) =
        create_accreditation_transaction_addresses("02aa", "std-1", "cb-1", "sb-1");
    assert_eq!(
        inputs,
        vec![
            make_standard_address("std-1"),
            make_agent_address("02aa"),
            make_organization_address("cb-1"),
            make_organization_address("sb-1"),
        ]
    );
    assert_eq!(outputs, vec![make_organization_address("cb-1")]);
}

#[test]
fn certificate_footprints() {
    assert_eq!(
        make_create_header_input("02aa", "cb-1", "cert-1", "factory-1"),
        vec![
            make_agent_address("02aa"),
            make_organization_address("cb-1"),
            make_certificate_address("cert-1"),
            make_organization_address("factory-1"),
        ]
    );
    assert_eq!(
        make_update_header_input("02aa", "cb-1", "cert-1"),
        vec![
            make_agent_address("02aa"),
            make_organization_address("cb-1"),
            make_certificate_address("cert-1"),
        ]
    );

    let (inputs, outputs) =
        issue_certificate_transaction_addresses("02aa", "cb-1", "cert-1", "factory-1", None);
    assert_eq!(
        inputs,
        make_create_header_input("02aa", "cb-1", "cert-1", "factory-1")
    );
    assert_eq!(outputs, vec![make_certificate_address("cert-1")]);

    let (inputs, outputs) = issue_certificate_transaction_addresses(
        "02aa",
        "cb-1",
        "cert-1",
        "factory-1",
        Some("req-1"),
    );
    let mut expected = make_create_header_input("02aa", "cb-1", "cert-1", "factory-1");
    expected.push(make_request_address("req-1"));
    assert_eq!(inputs, expected);
    assert_eq!(
        outputs,
        vec![make_certificate_address("cert-1"), make_request_address("req-1")]
    );
}

#[test]
fn assertion_footprints() {
    let (inputs, outputs) =
        create_factory_assertion_transaction_addresses("02aa", "as-1", "org-1", "factory-1");
    assert_eq!(
        inputs,
        vec![
            make_agent_address("02aa"),
            make_organization_address("org-1"),
            make_organization_address("factory-1"),
            make_assertion_address("as-1"),
        ]
    );
    assert_eq!(
        outputs,
        vec![make_organization_address("factory-1"), make_assertion_address("as-1")]
    );

    let (inputs, outputs) =
        create_standard_assertion_transaction_addresses("02aa", "as-1", "org-1", "std-1");
    assert_eq!(
        inputs,
        vec![
            make_agent_address("02aa"),
            make_organization_address("org-1"),
            make_standard_address("std-1"),
            make_assertion_address("as-1"),
        ]
    );
    assert_eq!(
        outputs,
        vec![make_standard_address("std-1"), make_assertion_address("as-1")]
    );

    let (inputs, outputs) = create_certificate_assertion_transaction_addresses(
        "02aa",
        "as-1",
        "org-1",
        "cert-1",
        "factory-1",
        "std-1",
    );
    assert_eq!(
        inputs,
        vec![
            make_agent_address("02aa"),
            make_organization_address("org-1"),
            make_certificate_address("cert-1"),
            make_organization_address("factory-1"),
            make_standard_address("std-1"),
            make_assertion_address("as-1"),
        ]
    );
    assert_eq!(
        outputs,
        vec![make_certificate_address("cert-1"), make_assertion_address("as-1")]
    );
}

#[test]
fn transfer_footprint_declares_whole_kinds() {
    let (inputs, outputs) = create_transfer_assertion_transaction_addresses("02aa", "as-1");
    let expected = vec![
        make_agent_address("02aa"),
        String::from("439a560002"),
        String::from("439a560001"),
        String::from("439a560003"),
        make_assertion_address("as-1"),
    ];
    assert_eq!(inputs, expected);
    assert_eq!(outputs, expected);
    assert!(make_organization_address("org-1").starts_with(&inputs[1]));
}
