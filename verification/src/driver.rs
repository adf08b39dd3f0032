//! Column values as the database driver sends them: the bytes of each value
//! on the wire. The driver makes the bytes; what they are is stated here, and
//! with it why a timestamp comes back to the millisecond only.

use crate::column::{Cell, ColumnValue, QueryValues};
use crate::provider::IdentityProvider;
use crate::text::lemma_utf8_injective;
use crate::timestamp::whole_millis;
use cdrs::types::value::{Bytes, Value, ValueType};
use time::Timespec;
use vstd::prelude::*;
use vstd::std_specs::convert::FromSpecImpl;
use vstd::string::StringSliceAdditionalSpecFns;
use vstd::utf8::encode_utf8;

verus! {

/// Whether the driver sends bytes, a null, or nothing at all.
#[verifier::external_type_specification]
pub struct ExValueType(ValueType);

/// A value as the driver sends it: the bytes and their kind.
#[verifier::external_type_specification]
pub struct ExValue(Value);

/// The bytes of one value, as the driver holds them before it sends them.
#[verifier::external_type_specification]
#[verifier::external_body]
pub struct ExBytes(Bytes);

/// The bytes that the driver holds in a `Bytes`.
pub uninterp spec fn bytes_held(bytes: Bytes) -> Seq<u8>;

/// The `count` bytes that write `number` in radix 256, most significant byte
/// first.
pub open spec fn be_bytes(number: nat, count: nat) -> Seq<u8>
    decreases count,
{
    if count == 0 {
        Seq::empty()
    } else {
        be_bytes(number / 256, (count - 1) as nat).push((number % 256) as u8)
    }
}

/// The milliseconds since the epoch of a native timestamp: what lies below
/// the millisecond is dropped.
pub open spec fn millis(timestamp: Timespec) -> int {
    timestamp.sec * 1000 + whole_millis(timestamp.nsec)
}

/// Whether the milliseconds of the timestamp can be had in 64 bits.
pub open spec fn millis_fit(timestamp: Timespec) -> bool {
    &&& i64::MIN <= timestamp.sec * 1000 <= i64::MAX
    &&& i64::MIN <= millis(timestamp) <= i64::MAX
}

/// A signed number of 64 bits read as the unsigned number of the same bits.
pub open spec fn unsigned64(number: int) -> nat {
    if number >= 0 {
        number as nat
    } else {
        (number + 0x1_0000_0000_0000_0000) as nat
    }
}

/// Whether the driver can send the value: every value but a timestamp whose
/// milliseconds do not fit.
pub open spec fn sendable(cell: Cell) -> bool {
    cell matches Cell::Timestamp(timestamp) ==> millis_fit(timestamp)
}

/// The bytes that the driver sends for a value: the 16 bytes of a unique
/// identifier, the UTF-8 of a text, and the 8 bytes of the milliseconds of a
/// timestamp.
pub open spec fn sent_body(cell: Cell) -> Seq<u8> {
    match cell {
        Cell::Uuid(id) => be_bytes(id as nat, 16),
        Cell::Text(text) => encode_utf8(text),
        Cell::Timestamp(timestamp) => be_bytes(unsigned64(millis(timestamp)), 8),
        Cell::Null => Seq::empty(),
    }
}

/// The kind of what the driver sends for a value: a null for no value, and
/// otherwise bytes under their count.
pub open spec fn sent_type(cell: Cell) -> ValueType {
    match cell {
        Cell::Null => ValueType::Null,
        _ => ValueType::Normal(sent_body(cell).len() as i32),
    }
}

/// Whether `value` is what the driver sends for the column value.
pub open spec fn is_sent_as(cell: Cell, value: Value) -> bool {
    value.body@ == sent_body(cell) && value.value_type == sent_type(cell)
}

/// Big-endian bytes are as many as were asked for.
pub proof fn lemma_be_bytes_len(number: nat, count: nat)
    ensures
        be_bytes(number, count).len() == count,
    decreases count,
{
    if count > 0 {
        lemma_be_bytes_len(number / 256, (count - 1) as nat);
    }
}

/// Timestamps of one second and one millisecond are sent as the same bytes:
/// the table cannot tell them apart.
pub proof fn lemma_sent_to_the_millisecond(a: Timespec, b: Timespec)
    requires
        a.sec == b.sec,
        whole_millis(a.nsec) == whole_millis(b.nsec),
    ensures
        sent_body(Cell::Timestamp(a)) == sent_body(Cell::Timestamp(b)),
        sent_type(Cell::Timestamp(a)) == sent_type(Cell::Timestamp(b)),
{
}

/// What is left of a number above its `count` lowest bytes.
pub open spec fn above(number: nat, count: nat) -> nat
    decreases count,
{
    if count == 0 {
        number
    } else {
        above(number / 256, (count - 1) as nat)
    }
}

/// Numbers with the same bytes, and the same left above them, are the same
/// number.
pub proof fn lemma_be_bytes_injective(a: nat, b: nat, count: nat)
    requires
        be_bytes(a, count) == be_bytes(b, count),
        above(a, count) == above(b, count),
    ensures
        a == b,
    decreases count,
{
    if count > 0 {
        let fewer = (count - 1) as nat;
        let x = be_bytes(a / 256, fewer);
        let y = be_bytes(b / 256, fewer);
        assert(be_bytes(a, count) == x.push((a % 256) as u8));
        assert(be_bytes(b, count) == y.push((b % 256) as u8));
        assert(x.push((a % 256) as u8).last() == (a % 256) as u8);
        assert(y.push((b % 256) as u8).last() == (b % 256) as u8);
        assert(x =~= x.push((a % 256) as u8).drop_last());
        assert(y =~= y.push((b % 256) as u8).drop_last());
        lemma_be_bytes_injective(a / 256, b / 256, fewer);
    }
}

/// Nothing is left of a number of 128 bits above its 16 bytes, nor of a
/// number of 64 bits above its 8 bytes.
pub proof fn lemma_nothing_above(wide: u128, narrow: u64)
    ensures
        above(wide as nat, 16) == 0,
        above(narrow as nat, 8) == 0,
{
    reveal_with_fuel(above, 17);
}

/// Whether a native timestamp has less than a second of nanoseconds, and none
/// of them negative.
pub open spec fn is_normal(timestamp: Timespec) -> bool {
    0 <= timestamp.nsec < 1_000_000_000
}

/// Whether the table may give `read` back for the value `written`: a value
/// of the same type that the driver sends as the same bytes, with a
/// timestamp in its normal form.
pub open spec fn reads_as(written: Cell, read: Cell) -> bool {
    match written {
        Cell::Uuid(_) => read is Uuid && sent_body(read) == sent_body(written),
        Cell::Text(_) => read is Text && sent_body(read) == sent_body(written),
        Cell::Timestamp(_) => read matches Cell::Timestamp(timestamp) && is_normal(timestamp)
            && sendable(read) && sent_body(read) == sent_body(written),
        Cell::Null => read is Null,
    }
}

/// What the table gives back for a value is that value, but for a timestamp:
/// of a timestamp in its normal form it is the second and the millisecond.
pub proof fn lemma_reads_as(written: Cell, read: Cell)
    requires
        reads_as(written, read),
        sendable(written),
        written matches Cell::Timestamp(timestamp) ==> is_normal(timestamp),
    ensures
        match written {
            Cell::Timestamp(w) => read matches Cell::Timestamp(r) && r.sec == w.sec
                && whole_millis(r.nsec) == whole_millis(w.nsec),
            _ => read == written,
        },
{
    match written {
        Cell::Uuid(w) => {
            let r = read->Uuid_0;
            lemma_nothing_above(w, 0);
            lemma_nothing_above(r, 0);
            lemma_be_bytes_injective(w as nat, r as nat, 16);
        },
        Cell::Text(w) => {
            lemma_utf8_injective(w, read->Text_0);
        },
        Cell::Timestamp(w) => {
            let r = read->Timestamp_0;
            let x = unsigned64(millis(w));
            let y = unsigned64(millis(r));
            lemma_nothing_above(0, x as u64);
            lemma_nothing_above(0, y as u64);
            lemma_be_bytes_injective(x, y, 8);
            assert(millis(w) == millis(r));
        },
        Cell::Null => {},
    }
}

/// A string slice turned into `Bytes` holds the bytes of the text.
#[verifier::external_body]
fn text_bytes(text: &str) -> (bytes: Bytes)
    ensures
        bytes_held(bytes) == text.spec_bytes(),
{
    text.into()
}

impl From<IdentityProvider> for Bytes {
    /// The bytes of the provider's wire name, as the driver holds them.
    fn from(id: IdentityProvider) -> (bytes: Self)
        ensures
            bytes_held(bytes) == encode_utf8(id.wire_name()),
    {
        let name: &str = id.into();
        text_bytes(name)
    }
}

impl FromSpecImpl<IdentityProvider> for Bytes {
    open spec fn obeys_from_spec() -> bool {
        false
    }

    open spec fn from_spec(id: IdentityProvider) -> Self {
        choose|bytes: Bytes| bytes_held(bytes) == encode_utf8(id.wire_name())
    }
}

/// `Value::new_normal` on a `Uuid` sends the 16 bytes of the identifier,
/// which `Uuid::from_u128` takes from the number most significant byte
/// first, under the count 16.
#[verifier::external_body]
fn uuid_value(id: u128) -> (value: Value)
    ensures
        value.body@ == be_bytes(id as nat, 16),
        value.value_type == ValueType::Normal(16),
{
    Value::new_normal(uuid::Uuid::from_u128(id))
}

/// `Value::new_normal` on a string slice sends the bytes of the text under
/// their count, which it takes as a signed number of 32 bits.
#[verifier::external_body]
fn text_value(text: &str) -> (value: Value)
    ensures
        value.body@ == text.spec_bytes(),
        value.value_type == ValueType::Normal(text.spec_bytes().len() as i32),
{
    Value::new_normal(text)
}

/// `Value::new_normal` on a `Timespec` sends the milliseconds since the
/// epoch, `sec * 1000 + nsec / 1_000_000` with the division rounding towards
/// zero, as a signed number of 64 bits, most significant byte first, under
/// the count 8. The sum is left out where it overflows.
#[verifier::external_body]
fn timestamp_value(timestamp: Timespec) -> (value: Value)
    requires
        millis_fit(timestamp),
    ensures
        value.body@ == be_bytes(unsigned64(millis(timestamp)), 8),
        value.value_type == ValueType::Normal(8),
{
    Value::new_normal(timestamp)
}

/// `Value::new_null` sends a null: no bytes.
#[verifier::external_body]
fn null_value() -> (value: Value)
    ensures
        value.body@ == Seq::<u8>::empty(),
        value.value_type == ValueType::Null,
{
    Value::new_null()
}

/// Whether the milliseconds of the timestamp can be had in 64 bits.
fn fits(timestamp: &Timespec) -> (fit: bool)
    ensures
        fit == millis_fit(*timestamp),
{
    match timestamp.sec.checked_mul(1000) {
        Some(whole) => {
            let rest: i64 = (timestamp.nsec / 1_000_000) as i64;
            whole.checked_add(rest).is_some()
        },
        None => false,
    }
}

impl ColumnValue {
    /// The value as the driver sends it, or nothing for a timestamp whose
    /// milliseconds do not fit in 64 bits.
    pub fn to_driver(&self) -> (sent: Option<Value>)
        ensures
            sent is Some <==> sendable(self@),
            sent matches Some(value) ==> is_sent_as(self@, value),
    {
        match self {
            ColumnValue::Uuid(id) => {
                proof {
                    lemma_be_bytes_len(*id as nat, 16);
                }
                Some(uuid_value(*id))
            },
            ColumnValue::Text(text) => Some(text_value(text.as_str())),
            ColumnValue::Timestamp(timestamp) => {
                if fits(timestamp) {
                    proof {
                        lemma_be_bytes_len(unsigned64(millis(*timestamp)), 8);
                    }
                    Some(timestamp_value(*timestamp))
                } else {
                    None
                }
            },
            ColumnValue::Null => Some(null_value()),
        }
    }
}

impl QueryValues {
    /// The values as the driver sends them, in the order of the parameters,
    /// or nothing if one of them cannot be sent.
    pub fn to_driver(&self) -> (sent: Option<Vec<Value>>)
        ensures
            sent is Some <==> forall|i: int|
                0 <= i < self@.len() ==> sendable(#[trigger] self@[i].1),
            sent matches Some(values) ==> values@.len() == self@.len() && forall|i: int|
                0 <= i < self@.len() ==> is_sent_as(self@[i].1, #[trigger] values@[i]),
    {
        let mut values: Vec<Value> = Vec::new();
        let mut i: usize = 0;
        while i < self.columns.len()
            invariant
                i <= self.columns.len(),
                self@.len() == self.columns.len(),
                values@.len() == i,
                forall|j: int| 0 <= j < i ==> sendable(#[trigger] self@[j].1),
                forall|j: int| 0 <= j < i ==> is_sent_as(self@[j].1, #[trigger] values@[j]),
            decreases self.columns.len() - i,
        {
            assert(self@[i as int] == self.columns@[i as int]@);
            match self.columns[i].value.to_driver() {
                Some(value) => {
                    values.push(value);
                },
                None => {
                    assert(!sendable(self@[i as int].1));
                    return None;
                },
            }
            i += 1;
        }
        Some(values)
    }
}

} // verus!
