use consensource_cli::addressing::make_agent_address;
use consensource_cli::error::CliError;
use consensource_cli::hex::bytes_to_hex_str;
use consensource_cli::messages::{Batch, Transaction};
use consensource_cli::transaction::{
    create_batch, create_batch_list, create_batch_list_from_one, create_batch_with_transactions,
    create_batches, create_transaction, create_transaction_with_nonce,
};
use rand::RngCore;
use secp256k1::ecdsa::Signature;
use secp256k1::{All, Message, PublicKey, Secp256k1, SecretKey};
use sha2::{Digest, Sha256};

/// A secp256k1 credential: signs the SHA-256 digest of a message and gives
/// the compact signature as hexadecimal text.
struct TestSigner {
    context: Secp256k1<All>,
    secret: SecretKey,
}

impl TestSigner {
    fn random() -> TestSigner {
        let context = Secp256k1::new();
        loop {
            let mut key = [0u8; 32];
            rand::rngs::OsRng.fill_bytes(&mut key);
            if let Ok(secret) = SecretKey::from_slice(&key) {
                return TestSigner { context, secret };
            }
        }
    }

    fn public_key(&self) -> PublicKey {
        PublicKey::from_secret_key(&self.context, &self.secret)
    }

    fn public_key_hex(&self) -> String {
        bytes_to_hex_str(&self.public_key().serialize())
    }

    fn sign(&self, message: &Vec<u8>) -> Result<String, String> {
        let digest = Sha256::digest(message);
        let message = Message::from_slice(&digest).map_err(|e| e.to_string())?;
        let signature = self.context.sign_ecdsa(&message, &self.secret);
        Ok(bytes_to_hex_str(&signature.serialize_compact()))
    }

    fn verify(&self, signature: &str, message: &[u8]) -> bool {
        let digest = Sha256::digest(message);
        let message = Message::from_slice(&digest).expect("a digest is a message");
        let bytes = hex_to_bytes(signature);
        match Signature::from_compact(&bytes) {
            Ok(signature) => self
                .context
                .verify_ecdsa(&message, &signature, &self.public_key())
                .is_ok(),
            Err(_) => false,
        }
    }
}

fn hex_to_bytes(text: &str) -> Vec<u8> {
    let digits: Vec<u8> = text
        .chars()
        .map(|c| c.to_digit(16).expect("a hexadecimal digit") as u8)
        .collect();
    digits.chunks(2).map(|pair| pair[0] * 16 + pair[1]).collect()
}

fn test_payload(name: &str) -> Vec<u8> {
    let mut payload = vec![0x08, 0x01, 0x12];
    payload.push(name.len() as u8);
    payload.extend_from_slice(name.as_bytes());
    payload
}

fn create_test_transaction(signer: &TestSigner) -> Result<Transaction, CliError> {
    create_named_transaction(signer, "test")
}

fn create_named_transaction(signer: &TestSigner, name: &str) -> Result<Transaction, CliError> {
    let payload = test_payload(name);
    let public_key = signer.public_key_hex();
    let inputs = vec![make_agent_address(&public_key)];
    let outputs = inputs.clone();
    let sign = |message: &Vec<u8>| signer.sign(message);
    let txn = create_transaction(&payload, &public_key, &sign, inputs, outputs)
        .expect("Failed to create transaction");
    Ok(txn)
}

fn create_test_transactions(signer: &TestSigner) -> Result<Vec<Transaction>, CliError> {
    let txn1 = create_test_transaction(signer).expect("Failed to create transaction");
    let txn2 = create_test_transaction(signer).expect("Failed to create transaction");
    Ok(vec![txn1, txn2])
}

/// Transactions that differ whatever the clock reads: each carries a
/// payload of its own.
fn create_distinct_transactions(signer: &TestSigner, names: &[&str]) -> Vec<Transaction> {
    names
        .iter()
        .map(|name| create_named_transaction(signer, name).expect("Failed to create transaction"))
        .collect()
}

fn create_test_batch(txn: Transaction, signer: &TestSigner) -> Result<Batch, CliError> {
    let sign = |message: &Vec<u8>| signer.sign(message);
    let batch =
        create_batch(txn, &signer.public_key_hex(), &sign).expect("Failed to create batch");
    Ok(batch)
}

#[test]
fn create_transaction_test() {
    let signer = TestSigner::random();

    let test_txn = create_test_transaction(&signer);

    assert!(test_txn.is_ok());
}

#[test]
fn create_batch_test() {
    let signer = TestSigner::random();

    let test_txn = create_test_transaction(&signer).expect("Failed to create test transaction");

    let test_batch = create_test_batch(test_txn, &signer);

    assert!(test_batch.is_ok());
}

#[test]
fn create_batches_test() {
    let signer = TestSigner::random();

    let test_txns = create_test_transactions(&signer).expect("Failed to create test transactions");
    let sign = |message: &Vec<u8>| signer.sign(message);
    let batches = create_batches(test_txns, &signer.public_key_hex(), &sign);

    assert!(batches.is_ok());
}

#[test]
fn create_batch_list_test() {
    let signer = TestSigner::random();

    let test_txns = create_test_transactions(&signer).expect("Failed to create test transactions");
    let sign = |message: &Vec<u8>| signer.sign(message);
    let batches = create_batches(test_txns, &signer.public_key_hex(), &sign)
        .expect("Failed to create batches");
    let batch_list = create_batch_list(batches.clone());

    assert!(batch_list.get_batches().len() > 1);

    assert_eq!(batch_list.get_batches().get(0), batches.get(0));
    assert_eq!(batch_list.get_batches().get(1), batches.get(1));
}

#[test]
fn create_batch_list_from_one_test() {
    let signer = TestSigner::random();

    let test_txn = create_test_transaction(&signer).expect("Failed to create test transaction");

    let test_batch = create_test_batch(test_txn, &signer).expect("Failed to create test batch");

    let batch_list = create_batch_list_from_one(test_batch.clone());

    assert!(batch_list.get_batches().len() > 0);

    assert_eq!(batch_list.get_batches().get(0), Some(&test_batch));
}

#[test]
fn transaction_signature_verifies_against_header() {
    let signer = TestSigner::random();
    let txn = create_test_transaction(&signer).expect("Failed to create test transaction");

    assert_eq!(txn.header_signature.len(), 128);
    assert!(signer.verify(&txn.header_signature, &txn.header));
}

#[test]
fn flipping_any_bit_of_a_transaction_header_invalidates_the_signature() {
    let signer = TestSigner::random();
    let txn = create_test_transaction(&signer).expect("Failed to create test transaction");

    for at in 0..txn.header.len() {
        for bit in 0..8 {
            let mut header = txn.header.clone();
            header[at] ^= 1u8 << bit;
            assert!(!signer.verify(&txn.header_signature, &header));
        }
    }
}

#[test]
fn flipping_any_bit_of_a_batch_header_invalidates_the_signature() {
    let signer = TestSigner::random();
    let txn = create_test_transaction(&signer).expect("Failed to create test transaction");
    let batch = create_test_batch(txn, &signer).expect("Failed to create test batch");

    assert!(signer.verify(&batch.header_signature, &batch.header));
    for at in 0..batch.header.len() {
        for bit in 0..8 {
            let mut header = batch.header.clone();
            header[at] ^= 1u8 << bit;
            assert!(!signer.verify(&batch.header_signature, &header));
        }
    }
}

#[test]
fn batch_signature_follows_the_transaction_id_list() {
    let signer = TestSigner::random();
    let sign = |message: &Vec<u8>| signer.sign(message);
    let public_key = signer.public_key_hex();
    let txns = create_distinct_transactions(&signer, &["first", "second"]);
    let reversed = vec![txns[1].clone(), txns[0].clone()];

    let first = create_batch_with_transactions(txns.clone(), &public_key, &sign).unwrap();
    let again = create_batch_with_transactions(txns.clone(), &public_key, &sign).unwrap();
    let other = create_batch_with_transactions(reversed, &public_key, &sign).unwrap();

    assert_eq!(first.header, again.header);
    assert_eq!(first.header_signature, again.header_signature);
    assert_ne!(first.header, other.header);
    assert_ne!(first.header_signature, other.header_signature);
}

#[test]
fn atomic_batch_holds_all_transactions_and_bulk_batches_hold_one_each() {
    let signer = TestSigner::random();
    let sign = |message: &Vec<u8>| signer.sign(message);
    let public_key = signer.public_key_hex();
    let txns = create_distinct_transactions(&signer, &["first", "second", "third"]);
    assert_eq!(txns.len(), 3);

    let atomic = create_batch_with_transactions(txns.clone(), &public_key, &sign).unwrap();
    assert_eq!(atomic.transactions.len(), 3);
    assert_eq!(atomic.transactions, txns);
    assert!(signer.verify(&atomic.header_signature, &atomic.header));

    let bulk = create_batches(txns.clone(), &public_key, &sign).unwrap();
    assert_eq!(bulk.len(), 3);
    for (batch, txn) in bulk.iter().zip(txns.iter()) {
        assert_eq!(batch.transactions.len(), 1);
        assert_eq!(&batch.transactions[0], txn);
    }
    assert_ne!(bulk[0].header_signature, bulk[1].header_signature);
    assert_ne!(bulk[0].header_signature, bulk[2].header_signature);
    assert_ne!(bulk[1].header_signature, bulk[2].header_signature);
}

#[test]
fn transaction_header_has_the_expected_bytes() {
    let sign = |_message: &Vec<u8>| -> Result<String, String> { Ok(String::from("ab")) };
    let txn = create_transaction_with_nonce(
        b"abc",
        "02aa",
        &sign,
        String::from("7"),
        vec![String::from("in")],
        vec![String::from("out")],
    )
    .unwrap();

    let mut expected: Vec<u8> = Vec::new();
    expected.extend_from_slice(&[0x0a, 4]);
    expected.extend_from_slice(b"02aa");
    expected.extend_from_slice(&[0x1a, 20]);
    expected.extend_from_slice(b"certificate_registry");
    expected.extend_from_slice(&[0x22, 3]);
    expected.extend_from_slice(b"0.1");
    expected.extend_from_slice(&[0x2a, 2]);
    expected.extend_from_slice(b"in");
    expected.extend_from_slice(&[0x32, 1]);
    expected.extend_from_slice(b"7");
    expected.extend_from_slice(&[0x3a, 3]);
    expected.extend_from_slice(b"out");
    expected.extend_from_slice(&[0x4a, 0x80, 0x01]);
    expected.extend_from_slice(
        b"ddaf35a193617abacc417349ae20413112e6fa4e89a97ea20a9eeee64b55d39a\
2192992a274fc1a836ba3c23a3feebbd454d4423643ce80e2a9ac94fa54ca49f",
    );
    expected.extend_from_slice(&[0x52, 4]);
    expected.extend_from_slice(b"02aa");

    assert_eq!(txn.header, expected);
    assert_eq!(txn.header_signature, "ab");
    assert_eq!(txn.payload, b"abc".to_vec());
}

#[test]
fn a_refusing_signer_gives_a_signing_error() {
    let sign = |_message: &Vec<u8>| -> Result<String, String> { Err(String::from("no key")) };
    let result = create_transaction(b"abc", "02aa", &sign, vec![], vec![]);
    assert_eq!(result, Err(CliError::SigningError(String::from("no key"))));

    let txn = Transaction {
        header: vec![1, 2, 3],
        header_signature: String::from("ab"),
        payload: vec![],
    };
    let result = create_batch(txn.clone(), "02aa", &sign);
    assert_eq!(result, Err(CliError::SigningError(String::from("no key"))));

    let result = create_batches(vec![txn], "02aa", &sign);
    assert_eq!(result, Err(CliError::SigningError(String::from("no key"))));
}

#[test]
fn bulk_batches_fail_with_the_error_of_the_first_batch_that_fails() {
    let txn = |id: &str| Transaction {
        header: vec![1, 2, 3],
        header_signature: String::from(id),
        payload: vec![],
    };
    let first_header = create_batch(txn("a"), "02aa", &|message: &Vec<u8>| {
        Ok::<String, String>(bytes_to_hex_str(message))
    })
    .unwrap()
    .header;
    let sign = |message: &Vec<u8>| -> Result<String, String> {
        if *message == first_header {
            Ok(String::from("signed"))
        } else {
            Err(bytes_to_hex_str(message))
        }
    };
    let second_header = create_batch(txn("b"), "02aa", &|message: &Vec<u8>| {
        Ok::<String, String>(bytes_to_hex_str(message))
    })
    .unwrap()
    .header;

    let result = create_batches(vec![txn("a"), txn("b"), txn("c")], "02aa", &sign);
    assert_eq!(
        result,
        Err(CliError::SigningError(bytes_to_hex_str(&second_header)))
    );
    assert_eq!(
        create_batches(vec![txn("a")], "02aa", &sign).map(|batches| batches.len()),
        Ok(1)
    );
    assert_eq!(create_batches(vec![], "02aa", &sign), Ok(vec![]));
}

#[test]
fn the_nonce_tells_two_headers_apart() {
    let sign = |message: &Vec<u8>| -> Result<String, String> { Ok(bytes_to_hex_str(message)) };
    let build = |nonce: &str| {
        create_transaction_with_nonce(
            b"abc",
            "02aa",
            &sign,
            String::from(nonce),
            vec![String::from("in")],
            vec![String::from("out")],
        )
        .unwrap()
    };
    assert_eq!(build("12345"), build("12345"));
    assert_ne!(build("12345").header, build("12346").header);
    assert_ne!(build("12345").header_signature, build("12346").header_signature);
}

#[test]
fn fresh_transactions_name_the_family_and_the_signer() {
    let signer = TestSigner::random();
    let txn = create_test_transaction(&signer).expect("Failed to create test transaction");
    let public_key = signer.public_key_hex();
    let address = make_agent_address(&public_key);

    let mut head: Vec<u8> = vec![0x0a, 66];
    head.extend_from_slice(public_key.as_bytes());
    head.extend_from_slice(&[0x1a, 20]);
    head.extend_from_slice(b"certificate_registry");
    head.extend_from_slice(&[0x22, 3]);
    head.extend_from_slice(b"0.1");
    head.extend_from_slice(&[0x2a, 70]);
    head.extend_from_slice(address.as_bytes());
    head.push(0x32);
    assert!(txn.header.starts_with(&head));

    let mut tail: Vec<u8> = vec![0x52, 66];
    tail.extend_from_slice(public_key.as_bytes());
    assert!(txn.header.ends_with(&tail));
    assert_eq!(txn.payload, test_payload("test"));
}
