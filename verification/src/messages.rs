//! The messages that the ledger accepts, and their wire form.
//!
//! A message is the concatenation of its fields in the order of their
//! numbers. A text or byte field that is empty is left out; a repeated
//! field is written once for each item.

use crate::error::CliError;
use crate::wire::{
    all_fit, fits, is_too_large, put_field, put_repeated_strings, put_singular_field,
    repeated_field, singular_field, texts_of, utf8_each,
};
use vstd::prelude::*;
use vstd::string::*;
use vstd::utf8::encode_utf8;

verus! {

/// What a transaction declares about itself; the signature of a
/// transaction is made over the wire form of this header.
#[derive(Clone, Debug, PartialEq, Eq)]
pub struct TransactionHeader {
    pub batcher_public_key: String,
    pub dependencies: Vec<String>,
    pub family_name: String,
    pub family_version: String,
    pub inputs: Vec<String>,
    pub nonce: String,
    pub outputs: Vec<String>,
    pub payload_sha512: String,
    pub signer_public_key: String,
}

/// The mathematical content of a [`TransactionHeader`].
pub ghost struct TransactionHeaderView {
    pub batcher_public_key: Seq<char>,
    pub dependencies: Seq<Seq<char>>,
    pub family_name: Seq<char>,
    pub family_version: Seq<char>,
    pub inputs: Seq<Seq<char>>,
    pub nonce: Seq<char>,
    pub outputs: Seq<Seq<char>>,
    pub payload_sha512: Seq<char>,
    pub signer_public_key: Seq<char>,
}

impl View for TransactionHeader {
    type V = TransactionHeaderView;

    open spec fn view(&self) -> TransactionHeaderView {
        TransactionHeaderView {
            batcher_public_key: self.batcher_public_key@,
            dependencies: texts_of(self.dependencies@),
            family_name: self.family_name@,
            family_version: self.family_version@,
            inputs: texts_of(self.inputs@),
            nonce: self.nonce@,
            outputs: texts_of(self.outputs@),
            payload_sha512: self.payload_sha512@,
            signer_public_key: self.signer_public_key@,
        }
    }
}

impl TransactionHeaderView {
    /// Whether every field is short enough to be written.
    pub open spec fn encodable(self) -> bool {
        &&& fits(encode_utf8(self.batcher_public_key))
        &&& all_fit(utf8_each(self.dependencies))
        &&& fits(encode_utf8(self.family_name))
        &&& fits(encode_utf8(self.family_version))
        &&& all_fit(utf8_each(self.inputs))
        &&& fits(encode_utf8(self.nonce))
        &&& all_fit(utf8_each(self.outputs))
        &&& fits(encode_utf8(self.payload_sha512))
        &&& fits(encode_utf8(self.signer_public_key))
    }

    /// The wire form of the header.
    pub open spec fn wire(self) -> Seq<u8> {
        singular_field(1, encode_utf8(self.batcher_public_key)) + repeated_field(
            2,
            utf8_each(self.dependencies),
        ) + singular_field(3, encode_utf8(self.family_name)) + singular_field(
            4,
            encode_utf8(self.family_version),
        ) + repeated_field(5, utf8_each(self.inputs)) + singular_field(
            6,
            encode_utf8(self.nonce),
        ) + repeated_field(7, utf8_each(self.outputs)) + singular_field(
            9,
            encode_utf8(self.payload_sha512),
        ) + singular_field(10, encode_utf8(self.signer_public_key))
    }
}

/// Whether `result` is the bytes `wire` when `encodable` holds, and the
/// error for a content that is too long when it does not.
pub open spec fn encodes(result: Result<Vec<u8>, CliError>, encodable: bool, wire: Seq<u8>) -> bool {
    match result {
        Ok(bytes) => encodable && bytes@ == wire,
        Err(CliError::ProtobufError(detail)) => !encodable && detail@ == crate::wire::TOO_LARGE@,
        Err(_) => false,
    }
}

impl TransactionHeader {
    /// The wire form of the header, or an error when a field is too long.
    pub fn write_to_bytes(&self) -> (result: Result<Vec<u8>, CliError>)
        ensures
            encodes(result, self@.encodable(), self@.wire()),
    {
        let mut out: Vec<u8> = Vec::new();
        assert(out@ =~= Seq::<u8>::empty());
        match put_singular_field(&mut out, 1, self.batcher_public_key.as_str().as_bytes()) {
            Ok(()) => {},
            Err(e) => { return Err(e); },
        }
        match put_repeated_strings(&mut out, 2, &self.dependencies) {
            Ok(()) => {},
            Err(e) => { return Err(e); },
        }
        match put_singular_field(&mut out, 3, self.family_name.as_str().as_bytes()) {
            Ok(()) => {},
            Err(e) => { return Err(e); },
        }
        match put_singular_field(&mut out, 4, self.family_version.as_str().as_bytes()) {
            Ok(()) => {},
            Err(e) => { return Err(e); },
        }
        match put_repeated_strings(&mut out, 5, &self.inputs) {
            Ok(()) => {},
            Err(e) => { return Err(e); },
        }
        match put_singular_field(&mut out, 6, self.nonce.as_str().as_bytes()) {
            Ok(()) => {},
            Err(e) => { return Err(e); },
        }
        match put_repeated_strings(&mut out, 7, &self.outputs) {
            Ok(()) => {},
            Err(e) => { return Err(e); },
        }
        match put_singular_field(&mut out, 9, self.payload_sha512.as_str().as_bytes()) {
            Ok(()) => {},
            Err(e) => { return Err(e); },
        }
        match put_singular_field(&mut out, 10, self.signer_public_key.as_str().as_bytes()) {
            Ok(()) => {},
            Err(e) => { return Err(e); },
        }
        assert(out@ =~= self@.wire());
        Ok(out)
    }
}

/// A signed transaction: the wire form of its header, the signature over
/// those bytes, which is also the identifier of the transaction, and the
/// payload.
#[derive(Clone, Debug, PartialEq, Eq)]
pub struct Transaction {
    pub header: Vec<u8>,
    pub header_signature: String,
    pub payload: Vec<u8>,
}

/// The mathematical content of a [`Transaction`].
pub ghost struct TransactionView {
    pub header: Seq<u8>,
    pub header_signature: Seq<char>,
    pub payload: Seq<u8>,
}

impl View for Transaction {
    type V = TransactionView;

    open spec fn view(&self) -> TransactionView {
        TransactionView {
            header: self.header@,
            header_signature: self.header_signature@,
            payload: self.payload@,
        }
    }
}

impl TransactionView {
    /// Whether every field is short enough to be written.
    pub open spec fn encodable(self) -> bool {
        &&& fits(self.header)
        &&& fits(encode_utf8(self.header_signature))
        &&& fits(self.payload)
    }

    /// The wire form of the transaction.
    pub open spec fn wire(self) -> Seq<u8> {
        singular_field(1, self.header) + singular_field(2, encode_utf8(self.header_signature))
            + singular_field(3, self.payload)
    }
}

impl Transaction {
    /// The wire form of the transaction, or an error when a field is too
    /// long.
    pub fn write_to_bytes(&self) -> (result: Result<Vec<u8>, CliError>)
        ensures
            encodes(result, self@.encodable(), self@.wire()),
    {
        let mut out: Vec<u8> = Vec::new();
        assert(out@ =~= Seq::<u8>::empty());
        match put_singular_field(&mut out, 1, self.header.as_slice()) {
            Ok(()) => {},
            Err(e) => { return Err(e); },
        }
        match put_singular_field(&mut out, 2, self.header_signature.as_str().as_bytes()) {
            Ok(()) => {},
            Err(e) => { return Err(e); },
        }
        match put_singular_field(&mut out, 3, self.payload.as_slice()) {
            Ok(()) => {},
            Err(e) => { return Err(e); },
        }
        assert(out@ =~= self@.wire());
        Ok(out)
    }
}

/// The views of the transactions that a vector holds.
pub open spec fn transactions_of(transactions: Seq<Transaction>) -> Seq<TransactionView> {
    Seq::new(transactions.len(), |i: int| transactions[i]@)
}

/// The identifiers of transactions, in their order.
pub open spec fn transaction_ids_of(transactions: Seq<TransactionView>) -> Seq<Seq<char>> {
    Seq::new(transactions.len(), |i: int| transactions[i].header_signature)
}

/// The wire forms of transactions, in their order.
pub open spec fn transaction_wires(transactions: Seq<TransactionView>) -> Seq<Seq<u8>> {
    Seq::new(transactions.len(), |i: int| transactions[i].wire())
}

/// Whether each transaction can be written, and is short enough to be a
/// field of a batch.
pub open spec fn transactions_encodable(transactions: Seq<TransactionView>) -> bool {
    forall|i: int|
        0 <= i < transactions.len() ==> (#[trigger] transactions[i]).encodable() && fits(
            transactions[i].wire(),
        )
}

/// What a batch declares about itself; the signature of a batch is made
/// over the wire form of this header.
#[derive(Clone, Debug, PartialEq, Eq)]
pub struct BatchHeader {
    pub signer_public_key: String,
    pub transaction_ids: Vec<String>,
}

/// The mathematical content of a [`BatchHeader`].
pub ghost struct BatchHeaderView {
    pub signer_public_key: Seq<char>,
    pub transaction_ids: Seq<Seq<char>>,
}

impl View for BatchHeader {
    type V = BatchHeaderView;

    open spec fn view(&self) -> BatchHeaderView {
        BatchHeaderView {
            signer_public_key: self.signer_public_key@,
            transaction_ids: texts_of(self.transaction_ids@),
        }
    }
}

impl BatchHeaderView {
    /// Whether every field is short enough to be written.
    pub open spec fn encodable(self) -> bool {
        &&& fits(encode_utf8(self.signer_public_key))
        &&& all_fit(utf8_each(self.transaction_ids))
    }

    /// The wire form of the header.
    pub open spec fn wire(self) -> Seq<u8> {
        singular_field(1, encode_utf8(self.signer_public_key)) + repeated_field(
            2,
            utf8_each(self.transaction_ids),
        )
    }
}

impl BatchHeader {
    /// The wire form of the header, or an error when a field is too long.
    pub fn write_to_bytes(&self) -> (result: Result<Vec<u8>, CliError>)
        ensures
            encodes(result, self@.encodable(), self@.wire()),
    {
        let mut out: Vec<u8> = Vec::new();
        assert(out@ =~= Seq::<u8>::empty());
        match put_singular_field(&mut out, 1, self.signer_public_key.as_str().as_bytes()) {
            Ok(()) => {},
            Err(e) => { return Err(e); },
        }
        match put_repeated_strings(&mut out, 2, &self.transaction_ids) {
            Ok(()) => {},
            Err(e) => { return Err(e); },
        }
        assert(out@ =~= self@.wire());
        Ok(out)
    }
}

/// A signed batch: the wire form of its header, the signature over those
/// bytes, which is also the identifier of the batch, and the transactions
/// that commit or fail together.
#[derive(Clone, Debug, PartialEq, Eq)]
pub struct Batch {
    pub header: Vec<u8>,
    pub header_signature: String,
    pub transactions: Vec<Transaction>,
}

/// The mathematical content of a [`Batch`].
pub ghost struct BatchView {
    pub header: Seq<u8>,
    pub header_signature: Seq<char>,
    pub transactions: Seq<TransactionView>,
}

impl View for Batch {
    type V = BatchView;

    open spec fn view(&self) -> BatchView {
        BatchView {
            header: self.header@,
            header_signature: self.header_signature@,
            transactions: transactions_of(self.transactions@),
        }
    }
}

impl BatchView {
    /// Whether every field is short enough to be written.
    pub open spec fn encodable(self) -> bool {
        &&& fits(self.header)
        &&& fits(encode_utf8(self.header_signature))
        &&& transactions_encodable(self.transactions)
    }

    /// The wire form of the batch.
    pub open spec fn wire(self) -> Seq<u8> {
        singular_field(1, self.header) + singular_field(2, encode_utf8(self.header_signature))
            + repeated_field(3, transaction_wires(self.transactions))
    }
}

impl Batch {
    /// The wire form of the batch, or an error when a field is too long.
    pub fn write_to_bytes(&self) -> (result: Result<Vec<u8>, CliError>)
        ensures
            encodes(result, self@.encodable(), self@.wire()),
    {
        let mut out: Vec<u8> = Vec::new();
        assert(out@ =~= Seq::<u8>::empty());
        match put_singular_field(&mut out, 1, self.header.as_slice()) {
            Ok(()) => {},
            Err(e) => { return Err(e); },
        }
        match put_singular_field(&mut out, 2, self.header_signature.as_str().as_bytes()) {
            Ok(()) => {},
            Err(e) => { return Err(e); },
        }
        let ghost head = out@;
        let ghost wires = transaction_wires(self@.transactions);
        let mut i: usize = 0;
        assert(wires.subrange(0, 0) =~= Seq::<Seq<u8>>::empty());
        assert(head + repeated_field(3, wires.subrange(0, 0)) =~= head);
        while i < self.transactions.len()
            invariant
                i <= self.transactions.len(),
                wires == transaction_wires(self@.transactions),
                fits(self.header@),
                fits(encode_utf8(self.header_signature@)),
                forall|j: int|
                    0 <= j < i ==> (#[trigger] self@.transactions[j]).encodable() && fits(
                        self@.transactions[j].wire(),
                    ),
                out@ == head + repeated_field(3, wires.subrange(0, i as int)),
            decreases self.transactions.len() - i,
        {
            assert(self@.transactions[i as int] == self.transactions[i as int]@);
            let inner = match self.transactions[i].write_to_bytes() {
                Ok(bytes) => bytes,
                Err(e) => { return Err(e); },
            };
            match put_field(&mut out, 3, inner.as_slice()) {
                Ok(()) => {},
                Err(e) => { return Err(e); },
            }
            proof {
                let next = wires.subrange(0, i as int + 1);
                assert(next.drop_last() =~= wires.subrange(0, i as int));
                assert(next.last() == wires[i as int]);
                assert(out@ =~= head + repeated_field(3, next));
            }
            i = i + 1;
        }
        assert(wires.subrange(0, i as int) =~= wires);
        assert(out@ =~= self@.wire());
        Ok(out)
    }
}

/// The views of the batches that a vector holds.
pub open spec fn batches_of(batches: Seq<Batch>) -> Seq<BatchView> {
    Seq::new(batches.len(), |i: int| batches[i]@)
}

/// The wire forms of batches, in their order.
pub open spec fn batch_wires(batches: Seq<BatchView>) -> Seq<Seq<u8>> {
    Seq::new(batches.len(), |i: int| batches[i].wire())
}

/// Whether each batch can be written, and is short enough to be a field
/// of a batch list.
pub open spec fn batches_encodable(batches: Seq<BatchView>) -> bool {
    forall|i: int|
        0 <= i < batches.len() ==> (#[trigger] batches[i]).encodable() && fits(batches[i].wire())
}

/// The batches that are sent to the gateway in one submission.
#[derive(Clone, Debug, PartialEq, Eq)]
pub struct BatchList {
    pub batches: Vec<Batch>,
}

impl View for BatchList {
    type V = Seq<BatchView>;

    open spec fn view(&self) -> Seq<BatchView> {
        batches_of(self.batches@)
    }
}

/// The wire form of a batch list.
pub open spec fn batch_list_wire(batches: Seq<BatchView>) -> Seq<u8> {
    repeated_field(1, batch_wires(batches))
}

impl BatchList {
    /// The batches of the list, in their order.
    pub fn get_batches(&self) -> (batches: &Vec<Batch>)
        ensures
            batches == self.batches,
    {
        &self.batches
    }

    /// The wire form of the batch list, or an error when a field is too
    /// long.
    pub fn write_to_bytes(&self) -> (result: Result<Vec<u8>, CliError>)
        ensures
            encodes(result, batches_encodable(self@), batch_list_wire(self@)),
    {
        let mut out: Vec<u8> = Vec::new();
        let ghost wires = batch_wires(self@);
        let mut i: usize = 0;
        assert(wires.subrange(0, 0) =~= Seq::<Seq<u8>>::empty());
        assert(out@ =~= repeated_field(1, wires.subrange(0, 0)));
        while i < self.batches.len()
            invariant
                i <= self.batches.len(),
                wires == batch_wires(self@),
                forall|j: int|
                    0 <= j < i ==> (#[trigger] self@[j]).encodable() && fits(self@[j].wire()),
                out@ == repeated_field(1, wires.subrange(0, i as int)),
            decreases self.batches.len() - i,
        {
            assert(self@[i as int] == self.batches[i as int]@);
            let inner = match self.batches[i].write_to_bytes() {
                Ok(bytes) => bytes,
                Err(e) => { return Err(e); },
            };
            match put_field(&mut out, 1, inner.as_slice()) {
                Ok(()) => {},
                Err(e) => { return Err(e); },
            }
            proof {
                let next = wires.subrange(0, i as int + 1);
                assert(next.drop_last() =~= wires.subrange(0, i as int));
                assert(next.last() == wires[i as int]);
                assert(out@ =~= repeated_field(1, next));
            }
            i = i + 1;
        }
        assert(wires.subrange(0, i as int) =~= wires);
        Ok(out)
    }
}

} // verus!
