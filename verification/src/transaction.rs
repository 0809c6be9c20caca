//! Signed transactions and batches.

use crate::addressing::{FAMILY_NAMESPACE, FAMILY_VERSION};
use crate::digest::{sha512, sha512_digest};
use crate::error::CliError;
use crate::hex::{all_hex_digits, bytes_to_hex_str, hex_encoding, lemma_hex_encoding_digits};
use crate::messages::{
    batches_of, transaction_ids_of, transactions_of, Batch, BatchHeader, BatchHeaderView,
    BatchList, Transaction, TransactionHeader, TransactionHeaderView, TransactionView,
};
use crate::nonce::{create_nonce, is_nonce};
use crate::wire::{
    lemma_field_prefix_free, lemma_repeated_field_injective, lemma_utf8_each_injective,
    length_delimited, repeated_field, singular_field, texts_of, utf8_each, TOO_LARGE,
};
use vstd::prelude::*;
use vstd::slice::slice_to_vec;
use vstd::string::*;
use vstd::utf8::encode_utf8;

verus! {

/// Whether `sign` can be asked to sign any message.
pub open spec fn signs_all<F: Fn(&Vec<u8>) -> Result<String, String>>(sign: &F) -> bool {
    forall|message: Vec<u8>| call_requires(*sign, (&message,))
}

/// Whether `signature` is an answer of `sign` to the message `message`.
pub open spec fn signed_by<F: Fn(&Vec<u8>) -> Result<String, String>>(
    sign: &F,
    message: Seq<u8>,
    signature: Seq<char>,
) -> bool {
    exists|m: Vec<u8>, s: String|
        m@ == message && s@ == signature && #[trigger] call_ensures(
            *sign,
            (&m,),
            Ok::<String, String>(s),
        )
}

/// Whether `sign` can refuse the message `message` with the text `detail`.
pub open spec fn refused_by<F: Fn(&Vec<u8>) -> Result<String, String>>(
    sign: &F,
    message: Seq<u8>,
    detail: Seq<char>,
) -> bool {
    exists|m: Vec<u8>, s: String|
        m@ == message && s@ == detail && #[trigger] call_ensures(
            *sign,
            (&m,),
            Err::<String, String>(s),
        )
}

/// The header of the transaction that carries `payload` for the signer
/// with the key `public_key`, who is also its batcher.
pub open spec fn transaction_header_of(
    public_key: Seq<char>,
    nonce: Seq<char>,
    inputs: Seq<Seq<char>>,
    outputs: Seq<Seq<char>>,
    payload: Seq<u8>,
) -> TransactionHeaderView {
    TransactionHeaderView {
        batcher_public_key: public_key,
        dependencies: Seq::empty(),
        family_name: FAMILY_NAMESPACE@,
        family_version: FAMILY_VERSION@,
        inputs: inputs,
        nonce: nonce,
        outputs: outputs,
        payload_sha512: hex_encoding(sha512(payload)),
        signer_public_key: public_key,
    }
}

/// Whether `result` is what assembling a transaction with the header
/// `header` and the payload `payload` gives: the transaction with the
/// signer's answer to the wire form of the header, the error for a header
/// that cannot be written, or the signer's refusal.
pub open spec fn assembles_transaction<F: Fn(&Vec<u8>) -> Result<String, String>>(
    result: Result<Transaction, CliError>,
    sign: &F,
    header: TransactionHeaderView,
    payload: Seq<u8>,
) -> bool {
    match result {
        Ok(txn) => {
            &&& header.encodable()
            &&& txn.header@ == header.wire()
            &&& txn.payload@ == payload
            &&& signed_by(sign, header.wire(), txn.header_signature@)
        },
        Err(CliError::ProtobufError(detail)) => !header.encodable() && detail@ == TOO_LARGE@,
        Err(CliError::SigningError(detail)) => header.encodable() && refused_by(
            sign,
            header.wire(),
            detail@,
        ),
        Err(_) => false,
    }
}

/// Number of digits in the hash of a payload that a header holds.
pub const PAYLOAD_HASH_SIZE: usize = 128;

/// Builds the transaction that carries `payload` under the given nonce
/// and has `sign` sign the wire form of its header. The header holds the
/// SHA-512 digest of the payload as 128 hexadecimal digits.
pub fn create_transaction_with_nonce<F: Fn(&Vec<u8>) -> Result<String, String>>(
    payload: &[u8],
    public_key: &str,
    sign: &F,
    nonce: String,
    inputs: Vec<String>,
    outputs: Vec<String>,
) -> (result: Result<Transaction, CliError>)
    requires
        signs_all(sign),
    ensures
        assembles_transaction(
            result,
            sign,
            transaction_header_of(
                public_key@,
                nonce@,
                texts_of(inputs@),
                texts_of(outputs@),
                payload@,
            ),
            payload@,
        ),
        hex_encoding(sha512(payload@)).len() == PAYLOAD_HASH_SIZE,
        all_hex_digits(hex_encoding(sha512(payload@))),
{
    let digest = sha512_digest(payload);
    proof {
        lemma_hex_encoding_digits(digest@);
    }
    let header = TransactionHeader {
        batcher_public_key: String::from_str(public_key),
        dependencies: Vec::new(),
        family_name: String::from_str(FAMILY_NAMESPACE),
        family_version: String::from_str(FAMILY_VERSION),
        inputs: inputs,
        nonce: nonce,
        outputs: outputs,
        payload_sha512: bytes_to_hex_str(digest.as_slice()),
        signer_public_key: String::from_str(public_key),
    };
    let ghost expected = transaction_header_of(
        public_key@,
        header.nonce@,
        texts_of(header.inputs@),
        texts_of(header.outputs@),
        payload@,
    );
    assert(texts_of(header.dependencies@) =~= Seq::<Seq<char>>::empty());
    assert(header@ == expected);
    let header_bytes = match header.write_to_bytes() {
        Ok(bytes) => bytes,
        Err(e) => { return Err(e); },
    };
    match sign(&header_bytes) {
        Ok(signature) => {
            assert(call_ensures(*sign, (&header_bytes,), Ok::<String, String>(signature)));
            assert(signed_by(sign, expected.wire(), signature@));
            Ok(
                Transaction {
                    header: header_bytes,
                    header_signature: signature,
                    payload: slice_to_vec(payload),
                },
            )
        },
        Err(detail) => {
            assert(call_ensures(*sign, (&header_bytes,), Err::<String, String>(detail)));
            assert(refused_by(sign, expected.wire(), detail@));
            Err(CliError::SigningError(detail))
        },
    }
}

/// Returns a transaction for the given payload, signed by `sign` for the
/// signer with the key `public_key`, under a nonce made from a fresh clock
/// reading.
pub fn create_transaction<F: Fn(&Vec<u8>) -> Result<String, String>>(
    payload: &[u8],
    public_key: &str,
    sign: &F,
    inputs: Vec<String>,
    outputs: Vec<String>,
) -> (result: Result<Transaction, CliError>)
    requires
        signs_all(sign),
    ensures
        exists|nonce: Seq<char>|
            is_nonce(nonce) && #[trigger] assembles_transaction(
                result,
                sign,
                transaction_header_of(
                    public_key@,
                    nonce,
                    texts_of(inputs@),
                    texts_of(outputs@),
                    payload@,
                ),
                payload@,
            ),
        hex_encoding(sha512(payload@)).len() == PAYLOAD_HASH_SIZE,
        all_hex_digits(hex_encoding(sha512(payload@))),
{
    let nonce = create_nonce();
    let ghost chosen = nonce@;
    let ghost header = transaction_header_of(
        public_key@,
        chosen,
        texts_of(inputs@),
        texts_of(outputs@),
        payload@,
    );
    let result = create_transaction_with_nonce(payload, public_key, sign, nonce, inputs, outputs);
    assert(assembles_transaction(result, sign, header, payload@));
    result
}

/// The header of the batch that the signer with the key `public_key`
/// makes of `transactions`: it lists their identifiers in their order.
pub open spec fn batch_header_of(
    public_key: Seq<char>,
    transactions: Seq<TransactionView>,
) -> BatchHeaderView {
    BatchHeaderView {
        signer_public_key: public_key,
        transaction_ids: transaction_ids_of(transactions),
    }
}

/// Whether `result` is what assembling one batch of `transactions` gives:
/// the batch that holds them in their order under the signer's answer to
/// the wire form of its header, the error for a header that cannot be
/// written, or the signer's refusal.
pub open spec fn assembles_batch<F: Fn(&Vec<u8>) -> Result<String, String>>(
    result: Result<Batch, CliError>,
    sign: &F,
    public_key: Seq<char>,
    transactions: Seq<TransactionView>,
) -> bool {
    let header = batch_header_of(public_key, transactions);
    match result {
        Ok(batch) => {
            &&& header.encodable()
            &&& batch@.header == header.wire()
            &&& batch@.transactions == transactions
            &&& signed_by(sign, header.wire(), batch@.header_signature)
        },
        Err(CliError::ProtobufError(detail)) => !header.encodable() && detail@ == TOO_LARGE@,
        Err(CliError::SigningError(detail)) => header.encodable() && refused_by(
            sign,
            header.wire(),
            detail@,
        ),
        Err(_) => false,
    }
}

/// Returns one batch that holds all of `txns`, in their order, signed by
/// `sign` for the signer with the key `public_key`: they commit or fail
/// together.
pub fn create_batch_with_transactions<F: Fn(&Vec<u8>) -> Result<String, String>>(
    txns: Vec<Transaction>,
    public_key: &str,
    sign: &F,
) -> (result: Result<Batch, CliError>)
    requires
        signs_all(sign),
    ensures
        assembles_batch(result, sign, public_key@, transactions_of(txns@)),
{
    let mut transaction_ids: Vec<String> = Vec::new();
    let mut i: usize = 0;
    while i < txns.len()
        invariant
            i <= txns.len(),
            transaction_ids@.len() == i,
            forall|j: int| 0 <= j < i ==> (#[trigger] transaction_ids@[j])@ == txns@[j].header_signature@,
        decreases txns.len() - i,
    {
        transaction_ids.push(txns[i].header_signature.clone());
        i = i + 1;
    }
    let header = BatchHeader {
        signer_public_key: String::from_str(public_key),
        transaction_ids: transaction_ids,
    };
    let ghost expected = batch_header_of(public_key@, transactions_of(txns@));
    assert(header@.transaction_ids =~= expected.transaction_ids);
    assert(header@ == expected);
    let header_bytes = match header.write_to_bytes() {
        Ok(bytes) => bytes,
        Err(e) => { return Err(e); },
    };
    match sign(&header_bytes) {
        Ok(signature) => {
            assert(call_ensures(*sign, (&header_bytes,), Ok::<String, String>(signature)));
            assert(signed_by(sign, expected.wire(), signature@));
            Ok(Batch { header: header_bytes, header_signature: signature, transactions: txns })
        },
        Err(detail) => {
            assert(call_ensures(*sign, (&header_bytes,), Err::<String, String>(detail)));
            assert(refused_by(sign, expected.wire(), detail@));
            Err(CliError::SigningError(detail))
        },
    }
}

/// Returns a batch that holds the one transaction `txn`, signed by `sign`
/// for the signer with the key `public_key`.
pub fn create_batch<F: Fn(&Vec<u8>) -> Result<String, String>>(
    txn: Transaction,
    public_key: &str,
    sign: &F,
) -> (result: Result<Batch, CliError>)
    requires
        signs_all(sign),
    ensures
        assembles_batch(result, sign, public_key@, seq![txn@]),
{
    let mut txns: Vec<Transaction> = Vec::new();
    txns.push(txn);
    assert(transactions_of(txns@) =~= seq![txn@]);
    create_batch_with_transactions(txns, public_key, sign)
}

/// Whether a batch of the one transaction `transaction` can be assembled:
/// its header can be written and `sign` has an answer to it.
pub open spec fn assembles_alone<F: Fn(&Vec<u8>) -> Result<String, String>>(
    sign: &F,
    public_key: Seq<char>,
    transaction: TransactionView,
) -> bool {
    exists|batch: Batch| #[trigger]
        assembles_batch(Ok(batch), sign, public_key, seq![transaction])
}

/// Whether `result` is what assembling one batch for each of
/// `transactions` gives: as many batches, each holding the transaction at
/// its place alone, or the error of the first batch that failed, as the
/// assembly of that batch gave it. No batch is handed out once one has
/// failed.
pub open spec fn assembles_batches<F: Fn(&Vec<u8>) -> Result<String, String>>(
    result: Result<Vec<Batch>, CliError>,
    sign: &F,
    public_key: Seq<char>,
    transactions: Seq<TransactionView>,
) -> bool {
    match result {
        Ok(batches) => {
            &&& batches@.len() == transactions.len()
            &&& forall|i: int|
                0 <= i < transactions.len() ==> assembles_batch(
                    Ok(#[trigger] batches@[i]),
                    sign,
                    public_key,
                    seq![transactions[i]],
                )
        },
        Err(cause) => exists|i: int|
            {
                &&& 0 <= i < transactions.len()
                &&& #[trigger] assembles_batch(
                    Err(cause),
                    sign,
                    public_key,
                    seq![transactions[i]],
                )
                &&& forall|j: int|
                    0 <= j < i ==> assembles_alone(sign, public_key, #[trigger] transactions[j])
            },
    }
}

/// Returns a batch for each of `txns`, in their order, each signed on its
/// own by `sign` for the signer with the key `public_key`. The first batch
/// that cannot be assembled fails the whole call with its own error.
pub fn create_batches<F: Fn(&Vec<u8>) -> Result<String, String>>(
    txns: Vec<Transaction>,
    public_key: &str,
    sign: &F,
) -> (result: Result<Vec<Batch>, CliError>)
    requires
        signs_all(sign),
    ensures
        assembles_batches(result, sign, public_key@, transactions_of(txns@)),
{
    let ghost transactions = transactions_of(txns@);
    let mut batches: Vec<Batch> = Vec::new();
    let mut queue = txns;
    let mut rest: Vec<Transaction> = Vec::new();
    // The transactions are taken from the end of the vector, so it is
    // turned round first.
    while queue.len() > 0
        invariant
            queue@.len() + rest@.len() == transactions.len(),
            forall|j: int|
                0 <= j < queue@.len() ==> (#[trigger] queue@[j])@ == transactions[j],
            forall|j: int|
                0 <= j < rest@.len() ==> (#[trigger] rest@[j])@ == transactions[
                    transactions.len() - 1 - j],
        decreases queue.len(),
    {
        match queue.pop() {
            Some(txn) => { rest.push(txn); },
            None => {},
        }
    }
    while rest.len() > 0
        invariant
            signs_all(sign),
            transactions == transactions_of(txns@),
            batches@.len() + rest@.len() == transactions.len(),
            forall|j: int|
                0 <= j < rest@.len() ==> (#[trigger] rest@[j])@ == transactions[
                    transactions.len() - 1 - j],
            forall|i: int|
                0 <= i < batches@.len() ==> assembles_batch(
                    Ok(#[trigger] batches@[i]),
                    sign,
                    public_key@,
                    seq![transactions[i]],
                ),
        decreases rest.len(),
    {
        let ghost at = batches@.len() as int;
        match rest.pop() {
            Some(txn) => {
                assert(txn@ == transactions[at]);
                match create_batch(txn, public_key, sign) {
                    Ok(batch) => {
                        batches.push(batch);
                    },
                    Err(e) => {
                        assert(assembles_batch(
                            Err(e),
                            sign,
                            public_key@,
                            seq![transactions[at]],
                        ));
                        assert forall|j: int| 0 <= j < at implies assembles_alone(
                            sign,
                            public_key@,
                            #[trigger] transactions[j],
                        ) by {
                            assert(assembles_batch(
                                Ok(batches@[j]),
                                sign,
                                public_key@,
                                seq![transactions[j]],
                            ));
                        }
                        return Err(e);
                    },
                }
            },
            None => {},
        }
    }
    Ok(batches)
}

/// Returns a batch list that holds `batches`, in their order.
pub fn create_batch_list(batches: Vec<Batch>) -> (batch_list: BatchList)
    ensures
        batch_list@ == batches_of(batches@),
        batch_list.batches == batches,
{
    BatchList { batches: batches }
}

/// Returns a batch list that holds the one batch `batch`.
pub fn create_batch_list_from_one(batch: Batch) -> (batch_list: BatchList)
    ensures
        batch_list@ == seq![batch@],
        batch_list.batches@ == seq![batch],
{
    let mut batches: Vec<Batch> = Vec::new();
    batches.push(batch);
    assert(batches_of(batches@) =~= seq![batch@]);
    assert(batches@ =~= seq![batch]);
    BatchList { batches: batches }
}

/// A message with one of its bits turned over; the bits are counted
/// from the lowest bit of the first byte.
pub open spec fn flip_bit(message: Seq<u8>, bit: int) -> Seq<u8> {
    message.update(bit / 8, message[bit / 8] ^ (1u8 << ((bit % 8) as u8)))
}

/// Whether `verify` is the check of the signatures that `sign` makes: it
/// accepts a signature for a message exactly when the signature is an
/// answer of `sign` to that message.
pub open spec fn checks_signatures<F: Fn(&Vec<u8>) -> Result<String, String>>(
    sign: &F,
    verify: spec_fn(Seq<char>, Seq<u8>) -> bool,
) -> bool {
    forall|signature: Seq<char>, message: Seq<u8>| #[trigger]
        verify(signature, message) <==> signed_by(sign, message, signature)
}

/// Turning one bit over changes the message.
pub proof fn lemma_flipped_bit_changes_message(message: Seq<u8>, bit: int)
    requires
        0 <= bit < 8 * message.len(),
    ensures
        flip_bit(message, bit) != message,
{
    let byte = message[bit / 8];
    let place = (bit % 8) as u8;
    assert(byte ^ (1u8 << place) != byte) by (bit_vector)
        requires
            place < 8,
    ;
    assert(flip_bit(message, bit)[bit / 8] != message[bit / 8]);
}

/// A signature stands for its message alone: under a signer that never
/// answers two messages alike, the check of its signatures accepts the
/// signature for the message that was signed, and refuses it for that
/// message with any one bit turned over.
pub proof fn lemma_signature_integrity<F: Fn(&Vec<u8>) -> Result<String, String>>(
    sign: &F,
    verify: spec_fn(Seq<char>, Seq<u8>) -> bool,
    message: Seq<u8>,
    signature: Seq<char>,
    bit: int,
)
    requires
        answers_apart(sign),
        checks_signatures(sign, verify),
        signed_by(sign, message, signature),
        0 <= bit < 8 * message.len(),
    ensures
        verify(signature, message),
        !verify(signature, flip_bit(message, bit)),
{
    lemma_flipped_bit_changes_message(message, bit);
    if verify(signature, flip_bit(message, bit)) {
        assert(signed_by(sign, flip_bit(message, bit), signature));
    }
}

/// The signature of a transaction is accepted for the header that the
/// transaction holds, and refused for that header with any one bit turned
/// over: under a signer that never answers two messages alike.
pub proof fn lemma_transaction_signature_integrity<F: Fn(&Vec<u8>) -> Result<String, String>>(
    sign: &F,
    verify: spec_fn(Seq<char>, Seq<u8>) -> bool,
    txn: Transaction,
    header: TransactionHeaderView,
    payload: Seq<u8>,
    bit: int,
)
    requires
        answers_apart(sign),
        checks_signatures(sign, verify),
        assembles_transaction(Ok(txn), sign, header, payload),
        0 <= bit < 8 * txn.header@.len(),
    ensures
        verify(txn.header_signature@, txn.header@),
        !verify(txn.header_signature@, flip_bit(txn.header@, bit)),
{
    lemma_signature_integrity(sign, verify, txn.header@, txn.header_signature@, bit);
}

/// The signature of a batch is accepted for the header that the batch
/// holds, and refused for that header with any one bit turned over: under
/// a signer that never answers two messages alike.
pub proof fn lemma_batch_signature_integrity<F: Fn(&Vec<u8>) -> Result<String, String>>(
    sign: &F,
    verify: spec_fn(Seq<char>, Seq<u8>) -> bool,
    batch: Batch,
    public_key: Seq<char>,
    transactions: Seq<TransactionView>,
    bit: int,
)
    requires
        answers_apart(sign),
        checks_signatures(sign, verify),
        assembles_batch(Ok(batch), sign, public_key, transactions),
        0 <= bit < 8 * batch.header@.len(),
    ensures
        verify(batch.header_signature@, batch.header@),
        !verify(batch.header_signature@, flip_bit(batch.header@, bit)),
{
    lemma_signature_integrity(sign, verify, batch.header@, batch.header_signature@, bit);
}

/// The nonce tells the headers of two transactions apart that agree in
/// everything else: their wire forms are equal if and only if the nonces
/// are. (A nonce is never empty; see [`lemma_nonce_is_not_empty`].)
pub proof fn lemma_nonce_separates_headers(
    public_key: Seq<char>,
    first_nonce: Seq<char>,
    second_nonce: Seq<char>,
    inputs: Seq<Seq<char>>,
    outputs: Seq<Seq<char>>,
    payload: Seq<u8>,
)
    requires
        first_nonce.len() > 0,
        second_nonce.len() > 0,
    ensures
        transaction_header_of(public_key, first_nonce, inputs, outputs, payload).wire()
            == transaction_header_of(public_key, second_nonce, inputs, outputs, payload).wire()
            <==> first_nonce == second_nonce,
{
    let first = transaction_header_of(public_key, first_nonce, inputs, outputs, payload);
    let second = transaction_header_of(public_key, second_nonce, inputs, outputs, payload);
    if first.wire() == second.wire() {
        let head = singular_field(1, encode_utf8(first.batcher_public_key)) + repeated_field(
            2,
            utf8_each(first.dependencies),
        ) + singular_field(3, encode_utf8(first.family_name)) + singular_field(
            4,
            encode_utf8(first.family_version),
        ) + repeated_field(5, utf8_each(first.inputs));
        let tail = repeated_field(7, utf8_each(first.outputs)) + singular_field(
            9,
            encode_utf8(first.payload_sha512),
        ) + singular_field(10, encode_utf8(first.signer_public_key));
        lemma_utf8_is_not_empty(first_nonce);
        lemma_utf8_is_not_empty(second_nonce);
        let first_field = length_delimited(6, encode_utf8(first_nonce));
        let second_field = length_delimited(6, encode_utf8(second_nonce));
        assert(first.wire() =~= head + (first_field + tail));
        assert(second.wire() =~= head + (second_field + tail));
        assert(first_field + tail =~= first.wire().subrange(
            head.len() as int,
            first.wire().len() as int,
        ));
        assert(second_field + tail =~= second.wire().subrange(
            head.len() as int,
            second.wire().len() as int,
        ));
        lemma_field_prefix_free(
            6,
            encode_utf8(first_nonce),
            tail,
            encode_utf8(second_nonce),
            tail,
        );
        vstd::utf8::encode_utf8_decode_utf8(first_nonce);
        vstd::utf8::encode_utf8_decode_utf8(second_nonce);
    }
}

/// The UTF-8 form of a text that is not empty is not empty.
pub proof fn lemma_utf8_is_not_empty(text: Seq<char>)
    requires
        text.len() > 0,
    ensures
        encode_utf8(text).len() > 0,
{
    assert(vstd::utf8::encode_scalar(text[0] as u32).len() > 0);
}

/// Whether `sign` has one answer to each message.
pub open spec fn answers_once<F: Fn(&Vec<u8>) -> Result<String, String>>(sign: &F) -> bool {
    forall|message: Seq<u8>, first: Seq<char>, second: Seq<char>|
        #[trigger] signed_by(sign, message, first) && #[trigger] signed_by(sign, message, second)
            ==> first == second
}

/// Whether `sign` never answers two messages with the same signature.
pub open spec fn answers_apart<F: Fn(&Vec<u8>) -> Result<String, String>>(sign: &F) -> bool {
    forall|first: Seq<u8>, second: Seq<u8>, signature: Seq<char>|
        #[trigger] signed_by(sign, first, signature) && #[trigger] signed_by(
            sign,
            second,
            signature,
        ) ==> first == second
}

/// The header of a signer's batch changes if and only if the ordered list
/// of the identifiers of its transactions changes.
pub proof fn lemma_batch_header_follows_transaction_ids(
    public_key: Seq<char>,
    first: Seq<TransactionView>,
    second: Seq<TransactionView>,
)
    ensures
        batch_header_of(public_key, first).wire() == batch_header_of(public_key, second).wire()
            <==> transaction_ids_of(first) == transaction_ids_of(second),
{
    let first_ids = utf8_each(transaction_ids_of(first));
    let second_ids = utf8_each(transaction_ids_of(second));
    let key = singular_field(1, encode_utf8(public_key));
    if batch_header_of(public_key, first).wire() == batch_header_of(public_key, second).wire() {
        let left = key + repeated_field(2, first_ids);
        let right = key + repeated_field(2, second_ids);
        assert(repeated_field(2, first_ids) =~= left.subrange(key.len() as int, left.len() as int));
        assert(repeated_field(2, second_ids) =~= right.subrange(
            key.len() as int,
            right.len() as int,
        ));
        lemma_repeated_field_injective(2, first_ids, second_ids);
        lemma_utf8_each_injective(transaction_ids_of(first), transaction_ids_of(second));
    }
}

/// The identifier of a batch, which is the signature of its header,
/// changes if and only if the ordered list of the identifiers of its
/// transactions changes: for one signer, whose `sign` has one answer to
/// each message and never the same answer to two messages.
pub proof fn lemma_batch_id_follows_transaction_ids<F: Fn(&Vec<u8>) -> Result<String, String>>(
    sign: &F,
    public_key: Seq<char>,
    first: Seq<TransactionView>,
    first_batch: Batch,
    second: Seq<TransactionView>,
    second_batch: Batch,
)
    requires
        answers_once(sign),
        answers_apart(sign),
        assembles_batch(Ok(first_batch), sign, public_key, first),
        assembles_batch(Ok(second_batch), sign, public_key, second),
    ensures
        first_batch@.header_signature == second_batch@.header_signature <==> transaction_ids_of(
            first,
        ) == transaction_ids_of(second),
{
    lemma_batch_header_follows_transaction_ids(public_key, first, second);
    let first_header = batch_header_of(public_key, first).wire();
    let second_header = batch_header_of(public_key, second).wire();
    assert(signed_by(sign, first_header, first_batch@.header_signature));
    assert(signed_by(sign, second_header, second_batch@.header_signature));
}

} // verus!
