//! Base58, the text form in which a password hash is kept in a text column.
//!
//! Base58 writes the number that the bytes write in radix 256 as a number in
//! radix 58, in the characters of an alphabet; each zero byte in front becomes
//! one zero digit in front. The text is made and read by the `bs58` crate;
//! that a text has one reading only, and bytes one text, is proved here.

use crate::radix::{
    digits_below, digits_of, leading_zeros, lemma_digits_of, lemma_padded, lemma_radix_unique,
    lemma_value_bounds, radix_value,
};
use vstd::prelude::*;

verus! {

/// Why text could not be read as Base58.
#[verifier::external_type_specification]
pub struct ExDecodeError(bs58::decode::Error);

/// The error of writing Base58 into a buffer that cannot grow.
#[verifier::external_type_specification]
pub struct ExEncodeError(bs58::encode::Error);

/// The digits of Base58 in the order of their values: the Bitcoin alphabet.
pub open spec fn alphabet() -> Seq<char> {
    "123456789ABCDEFGHJKLMNPQRSTUVWXYZabcdefghijkmnopqrstuvwxyz"@
}

/// Whether the character is a digit of Base58.
pub open spec fn is_base58_char(c: char) -> bool {
    alphabet().contains(c)
}

/// The value of a digit of Base58: its place in the alphabet.
pub open spec fn digit_of(c: char) -> int {
    alphabet().index_of(c)
}

/// Whether the text is made of digits of Base58 alone.
pub open spec fn is_base58_text(text: Seq<char>) -> bool {
    forall|i: int| 0 <= i < text.len() ==> is_base58_char(#[trigger] text[i])
}

/// The values of the digits of a text.
pub open spec fn text_digits(text: Seq<char>) -> Seq<int> {
    Seq::new(text.len(), |i: int| digit_of(text[i]))
}

/// The bytes as digits of radix 256.
pub open spec fn byte_digits(bytes: Seq<u8>) -> Seq<int> {
    Seq::new(bytes.len(), |i: int| bytes[i] as int)
}

/// Whether `text` is the Base58 of `bytes`: it is made of Base58 digits, it
/// begins with as many zero digits as the bytes begin with zero bytes, and it
/// writes in radix 58 the number that the bytes write in radix 256.
pub open spec fn base58_encodes(text: Seq<char>, bytes: Seq<u8>) -> bool {
    &&& is_base58_text(text)
    &&& leading_zeros(text_digits(text)) == leading_zeros(byte_digits(bytes))
    &&& radix_value(text_digits(text), 58) == radix_value(byte_digits(bytes), 256)
}

/// Whether `index` is the place of the first character of `text` that is no
/// digit of Base58.
pub open spec fn is_first_foreign(text: Seq<char>, index: int) -> bool {
    &&& 0 <= index < text.len()
    &&& !is_base58_char(text[index])
    &&& forall|j: int| 0 <= j < index ==> is_base58_char(#[trigger] text[j])
}

/// The error that stands for a foreign character at `index`: beyond ASCII it
/// is reported by its place alone, within ASCII by its place and itself.
pub open spec fn foreign_character(text: Seq<char>, index: int) -> bs58::decode::Error {
    if text[index] as u32 > 127 {
        bs58::decode::Error::NonAsciiCharacter { index: index as usize }
    } else {
        bs58::decode::Error::InvalidCharacter { character: text[index], index: index as usize }
    }
}

/// The Base58 of the bytes.
pub open spec fn base58_text(bytes: Seq<u8>) -> Seq<char> {
    choose|text: Seq<char>| base58_encodes(text, bytes)
}

/// The bytes of which the text is the Base58.
pub open spec fn base58_bytes(text: Seq<char>) -> Seq<u8> {
    choose|bytes: Seq<u8>| base58_encodes(text, bytes)
}

/// The place of the first character of the text that is no digit of Base58.
pub open spec fn first_foreign(text: Seq<char>) -> int {
    choose|index: int| is_first_foreign(text, index)
}

/// The error with which text that is not Base58 is turned down.
pub open spec fn base58_failure(text: Seq<char>) -> bs58::decode::Error {
    foreign_character(text, first_foreign(text))
}

/// What reading the text as Base58 gives: its bytes, or the error for its
/// first foreign character.
pub open spec fn base58_decoded(text: Seq<char>) -> Result<Seq<u8>, bs58::decode::Error> {
    if is_base58_text(text) {
        Ok(base58_bytes(text))
    } else {
        Err(base58_failure(text))
    }
}

/// The alphabet has 58 characters.
pub proof fn lemma_alphabet_len()
    ensures
        alphabet().len() == 58,
{
    reveal_strlit("123456789ABCDEFGHJKLMNPQRSTUVWXYZabcdefghijkmnopqrstuvwxyz");
}

/// The digits of a Base58 text are digits of radix 58, and those of bytes
/// are digits of radix 256.
pub proof fn lemma_digits_in_range(text: Seq<char>, bytes: Seq<u8>)
    ensures
        is_base58_text(text) ==> digits_below(text_digits(text), 58),
        digits_below(byte_digits(bytes), 256),
{
    lemma_alphabet_len();
    if is_base58_text(text) {
        assert forall|i: int| 0 <= i < text_digits(text).len() implies 0
            <= #[trigger] text_digits(text)[i] < 58 by {
            assert(is_base58_char(text[i]));
        }
    }
}

/// Text has at most one reading: the same Base58 text stands for the same
/// bytes.
pub proof fn lemma_decoding_unique(text: Seq<char>, a: Seq<u8>, b: Seq<u8>)
    requires
        base58_encodes(text, a),
        base58_encodes(text, b),
    ensures
        a == b,
{
    lemma_digits_in_range(text, a);
    lemma_digits_in_range(text, b);
    lemma_radix_unique(byte_digits(a), byte_digits(b), 256);
    assert(a.len() == byte_digits(a).len());
    assert(b.len() == byte_digits(b).len());
    assert forall|i: int| 0 <= i < a.len() implies a[i] == b[i] by {
        assert(byte_digits(a)[i] == a[i] as int);
        assert(byte_digits(b)[i] == b[i] as int);
    }
    assert(a =~= b);
}

/// Bytes have at most one Base58 text.
pub proof fn lemma_encoding_unique(bytes: Seq<u8>, s: Seq<char>, t: Seq<char>)
    requires
        base58_encodes(s, bytes),
        base58_encodes(t, bytes),
    ensures
        s == t,
{
    lemma_digits_in_range(s, bytes);
    lemma_digits_in_range(t, bytes);
    lemma_radix_unique(text_digits(s), text_digits(t), 58);
    assert(s.len() == text_digits(s).len());
    assert(t.len() == text_digits(t).len());
    assert forall|i: int| 0 <= i < s.len() implies s[i] == t[i] by {
        assert(text_digits(s)[i] == digit_of(s[i]));
        assert(text_digits(t)[i] == digit_of(t[i]));
        assert(is_base58_char(s[i]));
        assert(is_base58_char(t[i]));
    }
    assert(s =~= t);
}

/// Reading the Base58 of bytes gives the bytes back.
pub proof fn lemma_base58_round_trip(bytes: Seq<u8>, text: Seq<char>)
    requires
        base58_encodes(text, bytes),
    ensures
        text == base58_text(bytes),
        base58_bytes(text) == bytes,
        base58_decoded(text) == Ok::<Seq<u8>, bs58::decode::Error>(bytes),
{
    lemma_encoding_unique(bytes, text, base58_text(bytes));
    lemma_decoding_unique(text, bytes, base58_bytes(text));
}

/// A text has one first foreign character at most.
pub proof fn lemma_first_foreign_unique(text: Seq<char>, index: int)
    requires
        is_first_foreign(text, index),
    ensures
        first_foreign(text) == index,
        !is_base58_text(text),
        base58_failure(text) == foreign_character(text, index),
{
    let other = first_foreign(text);
    assert(is_first_foreign(text, other));
    if other < index {
        assert(is_base58_char(text[other]));
    } else if index < other {
        assert(is_base58_char(text[index]));
    }
}

/// No character stands twice in the alphabet, so that a digit has one value.
pub proof fn lemma_alphabet_distinct()
    ensures
        alphabet().len() == 58,
        alphabet().no_duplicates(),
        forall|d: int| 0 <= d < 58 ==> is_base58_char(#[trigger] alphabet()[d]),
        forall|d: int| 0 <= d < 58 ==> digit_of(#[trigger] alphabet()[d]) == d,
{
    reveal_strlit("123456789ABCDEFGHJKLMNPQRSTUVWXYZabcdefghijkmnopqrstuvwxyz");
    assert(alphabet().no_duplicates());
}

/// Every sequence of bytes has a Base58 text.
pub proof fn lemma_base58_exists(bytes: Seq<u8>)
    ensures
        base58_encodes(base58_text(bytes), bytes),
        base58_bytes(base58_text(bytes)) == bytes,
        base58_decoded(base58_text(bytes)) == Ok::<Seq<u8>, bs58::decode::Error>(bytes),
{
    lemma_alphabet_distinct();
    lemma_digits_in_range(Seq::empty(), bytes);
    lemma_value_bounds(byte_digits(bytes), 256);
    let number = radix_value(byte_digits(bytes), 256) as nat;
    let zeros = leading_zeros(byte_digits(bytes));
    lemma_digits_of(number, 58);
    lemma_padded(zeros, digits_of(number, 58), 58);
    let digits = Seq::new(zeros, |i: int| 0int) + digits_of(number, 58);
    assert(digits_below(digits, 58)) by {
        assert forall|i: int| 0 <= i < digits.len() implies 0 <= #[trigger] digits[i] < 58 by {
            if i >= zeros {
                assert(digits[i] == digits_of(number, 58)[i - zeros]);
            }
        }
    }
    let text = Seq::new(digits.len(), |i: int| alphabet()[digits[i]]);
    assert(is_base58_text(text));
    assert(text_digits(text) =~= digits);
    assert(base58_encodes(text, bytes));
    lemma_base58_round_trip(bytes, base58_text(bytes));
}

/// `bs58::encode(..).into_string()` writes the Base58 of the bytes in the
/// Bitcoin alphabet: one `'1'` for each zero byte in front, then the number
/// of the bytes in radix 58 without further zeros in front. Into a string
/// that it makes itself it never fails.
#[verifier::external_body]
fn bs58_encode(bytes: &[u8]) -> (text: String)
    ensures
        base58_encodes(text@, bytes@),
{
    bs58::encode(bytes).into_string()
}

/// `bs58::decode(..).into_vec()` reads Base58 in the Bitcoin alphabet. It
/// stops at the first character that is no digit of the alphabet, with
/// `NonAsciiCharacter` if that character lies beyond ASCII and with
/// `InvalidCharacter` otherwise, each with the place of the character. Text
/// of digits alone gives one zero byte for each `'1'` in front, then the
/// number of the text in radix 256 without further zeros in front.
#[verifier::external_body]
fn bs58_decode(text: &str) -> (r: Result<Vec<u8>, bs58::decode::Error>)
    ensures
        match r {
            Ok(bytes) => base58_encodes(text@, bytes@),
            Err(e) => exists|index: int|
                is_first_foreign(text@, index) && e == foreign_character(text@, index),
        },
{
    bs58::decode(text).into_vec()
}

/// Writes bytes as Base58 text.
pub fn encode(bytes: &[u8]) -> (text: String)
    ensures
        base58_encodes(text@, bytes@),
        text@ == base58_text(bytes@),
        base58_decoded(text@) == Ok::<Seq<u8>, bs58::decode::Error>(bytes@),
{
    let text = bs58_encode(bytes);
    proof {
        lemma_base58_round_trip(bytes@, text@);
    }
    text
}

/// Reads Base58 text: text made of Base58 digits alone gives its bytes, and
/// any other text the error for its first foreign character.
pub fn decode(text: &str) -> (r: Result<Vec<u8>, bs58::decode::Error>)
    ensures
        r is Ok <==> is_base58_text(text@),
        match r {
            Ok(bytes) => base58_encodes(text@, bytes@) && base58_decoded(text@) == Ok::<
                Seq<u8>,
                bs58::decode::Error,
            >(bytes@),
            Err(e) => base58_decoded(text@) == Err::<Seq<u8>, bs58::decode::Error>(e),
        },
{
    let r = bs58_decode(text);
    proof {
        if r is Ok {
            lemma_base58_round_trip(r->Ok_0@, text@);
        } else {
            let e = r->Err_0;
            let index = choose|index: int|
                is_first_foreign(text@, index) && e == foreign_character(text@, index);
            lemma_first_foreign_unique(text@, index);
        }
    }
    r
}

} // verus!
