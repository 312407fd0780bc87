//! Record identifiers: 96-bit values, written as 24 hexadecimal digits.

use vstd::arithmetic::div_mod::{lemma_div_denominator, lemma_mod_breakdown, lemma_small_mod};
use vstd::prelude::*;

verus! {

/// Number of bytes in the raw form of an identifier.
pub const ID_BYTES: usize = 12;

/// Number of hexadecimal digits in the text form of an identifier.
pub const ID_DIGITS: usize = 24;

/// The identifier of a stored record.
///
/// The value is the identifier's twelve raw bytes read as one big-endian
/// number, so the numeric order of values is the byte-wise order of
/// identifiers.
#[derive(Clone, Copy, Debug, PartialEq, Eq, Structural, Hash)]
pub struct RecordId {
    pub value: u128,
}

/// What a hexadecimal digit stands for, in either case; `None` for any other
/// character.
pub open spec fn hex_digit_value(c: char) -> Option<int> {
    if '0' <= c && c <= '9' {
        Some(c as int - '0' as int)
    } else if 'a' <= c && c <= 'f' {
        Some(c as int - 'a' as int + 10)
    } else if 'A' <= c && c <= 'F' {
        Some(c as int - 'A' as int + 10)
    } else {
        None
    }
}

/// Whether `text` is the text form of an identifier: exactly twenty-four
/// hexadecimal digits.
pub open spec fn is_id_text(text: Seq<char>) -> bool {
    &&& text.len() == ID_DIGITS
    &&& forall|i: int| 0 <= i < text.len() ==> (#[trigger] hex_digit_value(text[i])) is Some
}

/// The raw bytes that the text form `text` spells: one byte for each pair of
/// digits, the first digit of a pair being the high half.
pub open spec fn id_text_bytes(text: Seq<char>) -> Seq<u8> {
    Seq::new(
        ID_BYTES as nat,
        |i: int|
            (16 * hex_digit_value(text[2 * i]).unwrap() + hex_digit_value(
                text[2 * i + 1],
            ).unwrap()) as u8,
    )
}

/// The number that `bytes` spell when read big-endian.
pub open spec fn be_value(bytes: Seq<u8>) -> nat
    decreases bytes.len(),
{
    if bytes.len() == 0 {
        0
    } else {
        256 * be_value(bytes.drop_last()) + bytes.last() as nat
    }
}

/// The number of values that `n` bytes can spell.
pub open spec fn byte_range(n: nat) -> nat
    decreases n,
{
    if n == 0 {
        1
    } else {
        256 * byte_range((n - 1) as nat)
    }
}

/// The identifier that `text` spells, if it spells one.
pub open spec fn parsed_id(text: Seq<char>) -> Option<RecordId> {
    if is_id_text(text) {
        Some(RecordId { value: be_value(id_text_bytes(text)) as u128 })
    } else {
        None
    }
}

/// A big-endian number of `n` bytes is below `byte_range(n)`.
pub proof fn lemma_be_value_bound(bytes: Seq<u8>)
    ensures
        be_value(bytes) < byte_range(bytes.len()),
    decreases bytes.len(),
{
    if bytes.len() > 0 {
        lemma_be_value_bound(bytes.drop_last());
    }
}

/// Twelve bytes spell the numbers below 2^96.
pub proof fn lemma_byte_range_of_id()
    ensures
        byte_range(ID_BYTES as nat) == 0x1_0000_0000_0000_0000_0000_0000,
{
    reveal_with_fuel(byte_range, 13);
}

/// Parses the text form with `bson::oid::ObjectId::parse_str` and hands back
/// the raw bytes of the identifier it built.
///
/// Trusted: the parser accepts exactly the texts of twenty-four hexadecimal
/// digits, upper or lower case, and decodes each pair of digits into one
/// byte, high half first.
#[verifier::external_body]
fn object_id_bytes(text: &str) -> (r: Option<[u8; 12]>)
    ensures
        r is Some <==> is_id_text(text@),
        r matches Some(bytes) ==> bytes@ == id_text_bytes(text@),
{
    match bson::oid::ObjectId::parse_str(text) {
        Ok(oid) => Some(oid.bytes()),
        Err(_) => None,
    }
}

impl RecordId {
    /// Whether the value fits the twelve bytes of an identifier.
    pub open spec fn wf(&self) -> bool {
        self.value < byte_range(ID_BYTES as nat)
    }

    /// The identifier with the given raw bytes.
    pub fn from_bytes(bytes: [u8; 12]) -> (id: RecordId)
        ensures
            id.value == be_value(bytes@),
            id.wf(),
    {
        let mut value: u128 = 0;
        let mut i: usize = 0;
        while i < 12
            invariant
                i <= 12,
                value == be_value(bytes@.take(i as int)),
            decreases 12 - i,
        {
            proof {
                lemma_be_value_bound(bytes@.take(i as int));
                lemma_byte_range_of_id();
                lemma_byte_range_grows(i as nat, 11);
                assert(bytes@.take(i + 1).drop_last() =~= bytes@.take(i as int));
            }
            value = value * 256 + bytes[i] as u128;
            i += 1;
        }
        proof {
            assert(bytes@.take(12) =~= bytes@);
            lemma_be_value_bound(bytes@);
        }
        RecordId { value }
    }

    /// The raw bytes of the identifier, most significant first.
    ///
    /// A value too large for an identifier is cut to its low twelve bytes.
    pub fn to_bytes(&self) -> (bytes: [u8; 12])
        ensures
            be_value(bytes@) == self.value as int % byte_range(ID_BYTES as nat) as int,
            self.wf() ==> be_value(bytes@) == self.value,
    {
        let mut bytes: [u8; 12] = [0u8; 12];
        let mut rest: u128 = self.value;
        let mut k: usize = 0;
        proof {
            assert(bytes@.subrange(12, 12) =~= Seq::<u8>::empty());
            assert(byte_range(0) == 1);
        }
        while k < 12
            invariant
                k <= 12,
                rest == self.value as int / byte_range(k as nat) as int,
                be_value(bytes@.subrange(12 - k, 12)) == self.value as int % byte_range(
                    k as nat,
                ) as int,
            decreases 12 - k,
        {
            let low: u8 = (rest % 256) as u8;
            let ghost before = bytes@;
            bytes[11 - k] = low;
            proof {
                let range = byte_range(k as nat) as int;
                let value = self.value as int;
                lemma_byte_range_grows(0, k as nat);
                assert(byte_range((k + 1) as nat) == 256 * byte_range(k as nat));
                assert(range * 256 == 256 * range);
                assert(bytes@.subrange(12 - k, 12) =~= before.subrange(12 - k, 12));
                assert(bytes@.subrange(11 - k, 12) =~= seq![low] + bytes@.subrange(12 - k, 12));
                lemma_be_value_prepend(low, bytes@.subrange(12 - k, 12));
                lemma_mod_breakdown(value, range, 256);
                lemma_div_denominator(value, range, 256);
            }
            rest = rest / 256;
            k += 1;
        }
        proof {
            assert(bytes@.subrange(0, 12) =~= bytes@);
            if self.wf() {
                lemma_small_mod(self.value as nat, byte_range(ID_BYTES as nat));
            }
        }
        bytes
    }

    /// Reads the text form of an identifier: twenty-four hexadecimal digits.
    pub fn parse(text: &str) -> (r: Option<RecordId>)
        ensures
            r == parsed_id(text@),
            r matches Some(id) ==> id.wf(),
    {
        match object_id_bytes(text) {
            Some(bytes) => Some(RecordId::from_bytes(bytes)),
            None => None,
        }
    }
}

/// Putting a byte in front of `rest` adds it above the digits of `rest`.
pub proof fn lemma_be_value_prepend(first: u8, rest: Seq<u8>)
    ensures
        be_value(seq![first] + rest) == first * byte_range(rest.len()) + be_value(rest),
    decreases rest.len(),
{
    let whole = seq![first] + rest;
    if rest.len() == 0 {
        assert(whole.drop_last() =~= Seq::<u8>::empty());
        assert(be_value(whole.drop_last()) == 0);
        assert(whole.last() == first);
        assert(byte_range(0) == 1);
    } else {
        let shorter = rest.drop_last();
        let range = byte_range(shorter.len());
        assert(whole.drop_last() =~= seq![first] + shorter);
        assert(whole.last() == rest.last());
        lemma_be_value_prepend(first, shorter);
        assert(byte_range(rest.len()) == 256 * range);
        assert(first * (256 * range) == 256 * (first * range)) by (nonlinear_arith);
    }
}

/// Two byte sequences of one length that spell one number are the same
/// sequence: an identifier's value and its raw bytes stand for each other.
pub proof fn lemma_be_value_injective(a: Seq<u8>, b: Seq<u8>)
    requires
        a.len() == b.len(),
        be_value(a) == be_value(b),
    ensures
        a == b,
    decreases a.len(),
{
    if a.len() > 0 {
        lemma_be_value_injective(a.drop_last(), b.drop_last());
        assert(a =~= a.drop_last().push(a.last()));
        assert(b =~= b.drop_last().push(b.last()));
    } else {
        assert(a =~= b);
    }
}

/// More bytes spell more values.
pub proof fn lemma_byte_range_grows(m: nat, n: nat)
    requires
        m <= n,
    ensures
        byte_range(m) <= byte_range(n),
    decreases n,
{
    if m < n {
        lemma_byte_range_grows(m, (n - 1) as nat);
    }
}

} // verus!
