use consensource_cli::error::CliError;
use consensource_cli::hex::{bytes_to_hex_str, hex_digit_of};
use consensource_cli::messages::{Batch, BatchHeader, BatchList, Transaction, TransactionHeader};
use consensource_cli::nonce::{
    create_nonce, current_epoch_time, nonce_from, push_decimal, push_padded_decimal,
};

#[test]
fn hex_text_of_bytes() {
    assert_eq!(bytes_to_hex_str(&[]), "");
    assert_eq!(bytes_to_hex_str(&[0x00]), "00");
    assert_eq!(bytes_to_hex_str(&[0x0a, 0xff, 0x10, 0x9c]), "0aff109c");
    assert_eq!(hex_digit_of(0), '0');
    assert_eq!(hex_digit_of(9), '9');
    assert_eq!(hex_digit_of(10), 'a');
    assert_eq!(hex_digit_of(15), 'f');
}

#[test]
fn hex_text_of_every_byte() {
    for byte in 0..=255u8 {
        assert_eq!(bytes_to_hex_str(&[byte]), format!("{:02x}", byte));
    }
}

#[test]
fn decimal_digits() {
    for n in [0u64, 7, 10, 99, 100, 1234567890, u64::MAX] {
        let mut text = String::from(">");
        push_decimal(&mut text, n);
        assert_eq!(text, format!(">{}", n));
    }
}

#[test]
fn padded_decimal_digits() {
    for (n, width) in [(0u64, 9usize), (5, 9), (50, 9), (999_999_999, 9), (7, 0), (7, 1), (7, 3)] {
        let mut text = String::from(">");
        push_padded_decimal(&mut text, n, width);
        assert_eq!(text, format!(">{:0width$}", n, width = width));
    }
    let mut text = String::new();
    push_padded_decimal(&mut text, 1_234_567_890, 9);
    assert_eq!(text, "1234567890");
}

#[test]
fn nonce_joins_seconds_and_nine_digits_of_nanoseconds() {
    assert_eq!(nonce_from(0, 0), "0000000000");
    assert_eq!(nonce_from(12, 345), "12000000345");
    assert_eq!(nonce_from(1, 999_999_999), "1999999999");
    assert_eq!(nonce_from(u64::MAX, 5), "18446744073709551615000000005");
    assert_eq!(nonce_from(1, 4_000_000_000), "14000000000");
}

#[test]
fn nonce_keeps_readings_apart() {
    assert_eq!(nonce_from(1, 50), "1000000050");
    assert_eq!(nonce_from(15, 0), "15000000000");
    assert_ne!(nonce_from(1, 50), nonce_from(15, 0));
    assert_ne!(nonce_from(1, 1), nonce_from(11, 0));
    assert_ne!(nonce_from(0, 10), nonce_from(0, 1));
    let readings = [(0u64, 0u32), (0, 1), (0, 10), (1, 0), (1, 1), (10, 0), (10, 1), (1, 50), (15, 0)];
    for first in readings {
        for second in readings {
            assert_eq!(
                nonce_from(first.0, first.1) == nonce_from(second.0, second.1),
                first == second
            );
        }
    }
}

#[test]
fn fresh_nonce_is_made_of_digits() {
    let nonce = create_nonce();
    assert!(nonce.len() > 9);
    assert!(nonce.chars().all(|c| c.is_ascii_digit()));
    let seconds: u64 = nonce[..nonce.len() - 9].parse().unwrap();
    assert!(seconds > 1_500_000_000);
}

#[test]
fn the_clock_stands_after_the_epoch() {
    let now = current_epoch_time().expect("Time went backwards");
    assert!(now > 1_500_000_000);
}

fn header() -> TransactionHeader {
    TransactionHeader {
        batcher_public_key: String::from("pk"),
        dependencies: vec![],
        family_name: String::from("fam"),
        family_version: String::from("1"),
        inputs: vec![String::from("i1"), String::from("i2")],
        nonce: String::from("n"),
        outputs: vec![String::from("")],
        payload_sha512: String::from("h"),
        signer_public_key: String::from("pk"),
    }
}

#[test]
fn transaction_header_wire_form() {
    let bytes = header().write_to_bytes().unwrap();
    let expected: Vec<u8> = vec![
        0x0a, 2, b'p', b'k', 0x1a, 3, b'f', b'a', b'm', 0x22, 1, b'1', 0x2a, 2, b'i', b'1', 0x2a,
        2, b'i', b'2', 0x32, 1, b'n', 0x3a, 0, 0x4a, 1, b'h', 0x52, 2, b'p', b'k',
    ];
    assert_eq!(bytes, expected);
}

#[test]
fn empty_texts_are_left_out_of_the_wire_form() {
    let empty = TransactionHeader {
        batcher_public_key: String::new(),
        dependencies: vec![],
        family_name: String::new(),
        family_version: String::new(),
        inputs: vec![],
        nonce: String::new(),
        outputs: vec![],
        payload_sha512: String::new(),
        signer_public_key: String::new(),
    };
    assert_eq!(empty.write_to_bytes().unwrap(), Vec::<u8>::new());
}

#[test]
fn long_fields_have_a_two_byte_length() {
    let txn = Transaction {
        header: vec![7u8; 300],
        header_signature: String::from("s"),
        payload: vec![],
    };
    let bytes = txn.write_to_bytes().unwrap();
    let mut expected: Vec<u8> = vec![0x0a, 0xac, 0x02];
    expected.extend_from_slice(&[7u8; 300]);
    expected.extend_from_slice(&[0x12, 1, b's']);
    assert_eq!(bytes, expected);
}

#[test]
fn batch_and_batch_list_wire_forms() {
    let txn = Transaction {
        header: vec![1, 2],
        header_signature: String::from("t"),
        payload: vec![9],
    };
    assert_eq!(
        txn.write_to_bytes().unwrap(),
        vec![0x0a, 2, 1, 2, 0x12, 1, b't', 0x1a, 1, 9]
    );

    let batch_header = BatchHeader {
        signer_public_key: String::from("pk"),
        transaction_ids: vec![String::from("t"), String::from("u")],
    };
    assert_eq!(
        batch_header.write_to_bytes().unwrap(),
        vec![0x0a, 2, b'p', b'k', 0x12, 1, b't', 0x12, 1, b'u']
    );

    let batch = Batch {
        header: vec![5],
        header_signature: String::from("b"),
        transactions: vec![txn.clone(), txn],
    };
    let expected_batch: Vec<u8> = vec![
        0x0a, 1, 5, 0x12, 1, b'b', 0x1a, 10, 0x0a, 2, 1, 2, 0x12, 1, b't', 0x1a, 1, 9, 0x1a, 10,
        0x0a, 2, 1, 2, 0x12, 1, b't', 0x1a, 1, 9,
    ];
    assert_eq!(batch.write_to_bytes().unwrap(), expected_batch);

    let list = BatchList { batches: vec![batch] };
    let mut expected_list: Vec<u8> = vec![0x0a, expected_batch.len() as u8];
    expected_list.extend_from_slice(&expected_batch);
    assert_eq!(list.write_to_bytes().unwrap(), expected_list);

    let none = BatchList { batches: vec![] };
    assert_eq!(none.write_to_bytes().unwrap(), Vec::<u8>::new());
}

#[test]
fn error_display_texts() {
    let text = |e: CliError| e.to_string();
    assert_eq!(text(CliError::UserError(String::from("x"))), "Error: x");
    assert_eq!(text(CliError::SchemeError(String::from("x"))), "Error: x");
    assert_eq!(text(CliError::IoError(String::from("x"))), "IoError: x");
    assert_eq!(text(CliError::SigningError(String::from("x"))), "SigningError: x");
    assert_eq!(text(CliError::ProtobufError(String::from("x"))), "ProtobufError: x");
    assert_eq!(text(CliError::HyperError(String::from("x"))), "HyperError: x");
    assert_eq!(
        text(CliError::ResponseParseError(String::from("x"))),
        "ResponseParseError: x"
    );
    assert_eq!(
        text(CliError::InvalidTransactionError(String::from("x"))),
        "InvalidTransactionError: x"
    );
    assert_eq!(text(CliError::InvalidInputError(String::from("x"))), "InvalidInput: x");
}
