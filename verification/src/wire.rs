//! Length-delimited fields of the ledger's wire format, written by the
//! `protobuf` crate.

use crate::error::CliError;
use protobuf::CodedOutputStream;
use vstd::prelude::*;
use vstd::string::*;
use vstd::utf8::encode_utf8;

verus! {

/// The largest field number of the wire format.
pub const FIELD_NUMBER_MAX: u32 = 0x1fff_ffff;

/// The largest number of bytes that one field can hold: its length is
/// written as a 32-bit number.
pub const FIELD_SIZE_MAX: usize = 0xffff_ffff;

/// The base-128 form of a number: seven bits per byte, the low bits first,
/// the top bit of a byte set when another byte follows.
pub open spec fn varint(n: nat) -> Seq<u8>
    decreases n,
{
    if n < 128 {
        seq![n as u8]
    } else {
        seq![(n % 128 + 128) as u8] + varint(n / 128)
    }
}

/// One length-delimited field: its key, the length of its content, and
/// the content.
pub open spec fn length_delimited(field_number: nat, data: Seq<u8>) -> Seq<u8> {
    varint(field_number * 8 + 2) + varint(data.len()) + data
}

/// Whether a content is short enough for one field.
pub open spec fn fits(data: Seq<u8>) -> bool {
    data.len() <= FIELD_SIZE_MAX
}

/// A field that occurs at most once: left out when its content is empty.
pub open spec fn singular_field(field_number: nat, data: Seq<u8>) -> Seq<u8> {
    if data.len() == 0 {
        Seq::empty()
    } else {
        length_delimited(field_number, data)
    }
}

/// A field that occurs once for each item, in the order of the items.
pub open spec fn repeated_field(field_number: nat, items: Seq<Seq<u8>>) -> Seq<u8>
    decreases items.len(),
{
    if items.len() == 0 {
        Seq::empty()
    } else {
        repeated_field(field_number, items.drop_last()) + length_delimited(
            field_number,
            items.last(),
        )
    }
}

/// Whether every item is short enough for one field.
pub open spec fn all_fit(items: Seq<Seq<u8>>) -> bool {
    forall|i: int| 0 <= i < items.len() ==> fits(#[trigger] items[i])
}

/// The UTF-8 form of each text.
pub open spec fn utf8_each(texts: Seq<Seq<char>>) -> Seq<Seq<u8>> {
    Seq::new(texts.len(), |i: int| encode_utf8(texts[i]))
}

/// The texts that a vector of strings holds.
pub open spec fn texts_of(strings: Seq<String>) -> Seq<Seq<char>> {
    Seq::new(strings.len(), |i: int| strings[i]@)
}

/// The detail of the error for a content that is too long for one field.
pub const TOO_LARGE: &'static str = "message is too large to serialize";

/// Whether `result` is the error for a content that is too long.
pub open spec fn is_too_large(result: Result<(), CliError>) -> bool {
    result matches Err(CliError::ProtobufError(detail)) && detail@ == TOO_LARGE@
}

/// Appends one length-delimited field to `out` with
/// `protobuf::CodedOutputStream::write_bytes` on a stream made by
/// `CodedOutputStream::vec`, and flushes the stream. Trusted: the stream
/// writes the key `field_number * 8 + 2` and the length of `data` as
/// base-128 numbers and then `data` itself, after what `out` held, and a
/// stream over a vector reports no error. The preconditions exclude the
/// field numbers on which `write_bytes` panics and the lengths that it
/// would cut to 32 bits.
#[verifier::external_body]
fn write_length_delimited(out: &mut Vec<u8>, field_number: u32, data: &[u8]) -> (written: Result<
    (),
    String,
>)
    requires
        1 <= field_number <= FIELD_NUMBER_MAX,
        fits(data@),
    ensures
        written is Ok,
        final(out)@ == old(out)@ + length_delimited(field_number as nat, data@),
{
    let mut stream = CodedOutputStream::vec(out);
    let written = match stream.write_bytes(field_number, data) {
        Ok(()) => stream.flush(),
        Err(e) => Err(e),
    };
    match written {
        Ok(()) => Ok(()),
        Err(e) => Err(e.to_string()),
    }
}

/// Appends the field `field_number` with the content `data` to `out`, or
/// reports that `data` is too long and leaves `out` as it was.
pub(crate) fn put_field(out: &mut Vec<u8>, field_number: u32, data: &[u8]) -> (result: Result<
    (),
    CliError,
>)
    requires
        1 <= field_number <= FIELD_NUMBER_MAX,
    ensures
        result is Ok <==> fits(data@),
        result is Ok ==> final(out)@ == old(out)@ + length_delimited(field_number as nat, data@),
        result is Err ==> is_too_large(result) && final(out)@ == old(out)@,
{
    if data.len() > FIELD_SIZE_MAX {
        return Err(CliError::ProtobufError(String::from_str(TOO_LARGE)));
    }
    match write_length_delimited(out, field_number, data) {
        Ok(()) => Ok(()),
        Err(detail) => Err(CliError::ProtobufError(detail)),
    }
}

/// Appends the field `field_number` to `out` unless `data` is empty.
pub(crate) fn put_singular_field(out: &mut Vec<u8>, field_number: u32, data: &[u8]) -> (result:
    Result<(), CliError>)
    requires
        1 <= field_number <= FIELD_NUMBER_MAX,
    ensures
        result is Ok <==> fits(data@),
        result is Ok ==> final(out)@ == old(out)@ + singular_field(field_number as nat, data@),
        result is Err ==> is_too_large(result) && final(out)@ == old(out)@,
{
    if data.len() == 0 {
        assert(out@ + Seq::<u8>::empty() =~= out@);
        Ok(())
    } else {
        put_field(out, field_number, data)
    }
}

/// Appends the field `field_number` to `out` once for each of `items`.
/// When one of them is too long, `out` is left as it was.
pub(crate) fn put_repeated_strings(out: &mut Vec<u8>, field_number: u32, items: &Vec<String>) -> (result:
    Result<(), CliError>)
    requires
        1 <= field_number <= FIELD_NUMBER_MAX,
    ensures
        result is Ok <==> all_fit(utf8_each(texts_of(items@))),
        result is Ok ==> final(out)@ == old(out)@ + repeated_field(
            field_number as nat,
            utf8_each(texts_of(items@)),
        ),
        result is Err ==> is_too_large(result) && final(out)@ == old(out)@,
{
    let ghost all = utf8_each(texts_of(items@));
    let mut k: usize = 0;
    while k < items.len()
        invariant
            k <= items.len(),
            all == utf8_each(texts_of(items@)),
            forall|i: int| 0 <= i < k ==> fits(#[trigger] all[i]),
        decreases items.len() - k,
    {
        if items[k].as_str().as_bytes().len() > FIELD_SIZE_MAX {
            assert(!fits(all[k as int]));
            return Err(CliError::ProtobufError(String::from_str(TOO_LARGE)));
        }
        assert(fits(all[k as int]));
        k = k + 1;
    }
    let mut i: usize = 0;
    assert(all.subrange(0, 0) =~= Seq::<Seq<u8>>::empty());
    assert(out@ + repeated_field(field_number as nat, all.subrange(0, 0)) =~= out@);
    while i < items.len()
        invariant
            i <= items.len(),
            1 <= field_number <= FIELD_NUMBER_MAX,
            all == utf8_each(texts_of(items@)),
            all_fit(all),
            out@ == old(out)@ + repeated_field(field_number as nat, all.subrange(0, i as int)),
        decreases items.len() - i,
    {
        assert(fits(all[i as int]));
        match put_field(out, field_number, items[i].as_str().as_bytes()) {
            Ok(()) => {},
            Err(e) => { return Err(e); },
        }
        proof {
            let next = all.subrange(0, i as int + 1);
            assert(next.drop_last() =~= all.subrange(0, i as int));
            assert(next.last() == all[i as int]);
            assert(out@ =~= old(out)@ + repeated_field(field_number as nat, next));
        }
        i = i + 1;
    }
    assert(all.subrange(0, i as int) =~= all);
    Ok(())
}

/// A base-128 number shows where it ends: when two of them, each followed
/// by more bytes, give the same bytes, the numbers are equal and so is
/// what follows them.
pub proof fn lemma_varint_prefix_free(a: nat, x: Seq<u8>, b: nat, y: Seq<u8>)
    requires
        varint(a) + x == varint(b) + y,
    ensures
        a == b,
        x == y,
    decreases a,
{
    let left = varint(a) + x;
    let right = varint(b) + y;
    assert(left[0] == varint(a)[0]);
    assert(right[0] == varint(b)[0]);
    if a < 128 {
        assert(varint(a)[0] < 128);
        assert(b < 128);
        assert(a == b);
        assert(x =~= left.subrange(1, left.len() as int));
        assert(y =~= right.subrange(1, right.len() as int));
    } else {
        assert(varint(a)[0] >= 128);
        assert(b >= 128);
        assert(a % 128 == b % 128);
        assert(varint(a / 128) + x =~= left.subrange(1, left.len() as int));
        assert(varint(b / 128) + y =~= right.subrange(1, right.len() as int));
        lemma_varint_prefix_free(a / 128, x, b / 128, y);
    }
}

/// A field shows where it ends: when two fields of one number, each
/// followed by more bytes, give the same bytes, their contents are equal
/// and so is what follows them.
pub proof fn lemma_field_prefix_free(
    field_number: nat,
    first: Seq<u8>,
    x: Seq<u8>,
    second: Seq<u8>,
    y: Seq<u8>,
)
    requires
        length_delimited(field_number, first) + x == length_delimited(field_number, second) + y,
    ensures
        first == second,
        x == y,
{
    let key = varint(field_number * 8 + 2);
    let left = length_delimited(field_number, first) + x;
    let right = length_delimited(field_number, second) + y;
    assert(left =~= key + (varint(first.len()) + (first + x)));
    assert(right =~= key + (varint(second.len()) + (second + y)));
    lemma_varint_prefix_free(
        field_number * 8 + 2,
        varint(first.len()) + (first + x),
        field_number * 8 + 2,
        varint(second.len()) + (second + y),
    );
    lemma_varint_prefix_free(first.len(), first + x, second.len(), second + y);
    assert(first =~= (first + x).subrange(0, first.len() as int));
    assert(second =~= (second + y).subrange(0, second.len() as int));
    assert(x =~= (first + x).subrange(first.len() as int, (first + x).len() as int));
    assert(y =~= (second + y).subrange(second.len() as int, (second + y).len() as int));
}

/// A repeated field begins with the field of its first item.
pub proof fn lemma_repeated_field_front(field_number: nat, items: Seq<Seq<u8>>)
    requires
        items.len() > 0,
    ensures
        repeated_field(field_number, items) == length_delimited(field_number, items.first())
            + repeated_field(field_number, items.drop_first()),
    decreases items.len(),
{
    if items.len() == 1 {
        assert(items.drop_last() =~= Seq::<Seq<u8>>::empty());
        assert(items.drop_first() =~= Seq::<Seq<u8>>::empty());
        assert(repeated_field(field_number, items) =~= length_delimited(
            field_number,
            items.first(),
        ) + repeated_field(field_number, items.drop_first()));
    } else {
        lemma_repeated_field_front(field_number, items.drop_last());
        assert(items.drop_last().drop_first() =~= items.drop_first().drop_last());
        assert(items.drop_last().first() == items.first());
        assert(items.drop_first().last() == items.last());
        assert(repeated_field(field_number, items) =~= length_delimited(
            field_number,
            items.first(),
        ) + repeated_field(field_number, items.drop_first()));
    }
}

/// The wire form of a repeated field determines its items and their
/// order.
pub proof fn lemma_repeated_field_injective(
    field_number: nat,
    first: Seq<Seq<u8>>,
    second: Seq<Seq<u8>>,
)
    requires
        repeated_field(field_number, first) == repeated_field(field_number, second),
    ensures
        first == second,
    decreases first.len(),
{
    if first.len() == 0 {
        if second.len() > 0 {
            lemma_repeated_field_front(field_number, second);
            assert(length_delimited(field_number, second.first()).len() > 0);
        }
        assert(first =~= second);
    } else {
        lemma_repeated_field_front(field_number, first);
        if second.len() == 0 {
            assert(length_delimited(field_number, first.first()).len() > 0);
        } else {
            lemma_repeated_field_front(field_number, second);
            lemma_field_prefix_free(
                field_number,
                first.first(),
                repeated_field(field_number, first.drop_first()),
                second.first(),
                repeated_field(field_number, second.drop_first()),
            );
            lemma_repeated_field_injective(field_number, first.drop_first(), second.drop_first());
            assert(first =~= seq![first.first()] + first.drop_first());
            assert(second =~= seq![second.first()] + second.drop_first());
        }
    }
}

/// Texts with the same UTF-8 forms are the same texts.
pub proof fn lemma_utf8_each_injective(first: Seq<Seq<char>>, second: Seq<Seq<char>>)
    requires
        utf8_each(first) == utf8_each(second),
    ensures
        first == second,
{
    assert(first.len() == utf8_each(first).len());
    assert(second.len() == utf8_each(second).len());
    assert forall|i: int| 0 <= i < first.len() implies first[i] == second[i] by {
        assert(utf8_each(first)[i] == encode_utf8(first[i]));
        assert(utf8_each(second)[i] == encode_utf8(second[i]));
        vstd::utf8::encode_utf8_decode_utf8(first[i]);
        vstd::utf8::encode_utf8_decode_utf8(second[i]);
    }
    assert(first =~= second);
}

} // verus!
