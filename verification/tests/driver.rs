use cdrs::types::value::{Bytes, Value, ValueType};
use swaply_identity::column::{Column, ColumnValue, QueryValues};
use swaply_identity::provider::IdentityProvider;
use swaply_identity::timestamp::CalendarTime;
use swaply_identity::user::User;
use time::Timespec;

#[test]
fn driver_sends_a_uuid_as_its_16_bytes() {
    let sent = ColumnValue::Uuid(0x936DA01F9ABD4D9D80C702AF85C822A8).to_driver().unwrap();
    assert_eq!(
        sent.body,
        vec![
            0x93, 0x6D, 0xA0, 0x1F, 0x9A, 0xBD, 0x4D, 0x9D, 0x80, 0xC7, 0x02, 0xAF, 0x85, 0xC8,
            0x22, 0xA8
        ]
    );
    assert_eq!(sent.value_type, ValueType::Normal(16));
    let small = ColumnValue::Uuid(1).to_driver().unwrap();
    assert_eq!(small.body, vec![0, 0, 0, 0, 0, 0, 0, 0, 0, 0, 0, 0, 0, 0, 0, 1]);
}

#[test]
fn driver_sends_text_as_its_utf8() {
    let sent = ColumnValue::Text("test".to_string()).to_driver().unwrap();
    assert_eq!(sent.body, b"test".to_vec());
    assert_eq!(sent.value_type, ValueType::Normal(4));
    let sent = ColumnValue::Text("\u{e9}".to_string()).to_driver().unwrap();
    assert_eq!(sent.body, vec![0xc3, 0xa9]);
    assert_eq!(sent.value_type, ValueType::Normal(2));
    let sent = ColumnValue::Text(String::new()).to_driver().unwrap();
    assert_eq!(sent.body, Vec::<u8>::new());
    assert_eq!(sent.value_type, ValueType::Normal(0));
}

#[test]
fn driver_sends_a_timestamp_as_its_milliseconds() {
    let sent = ColumnValue::Timestamp(Timespec { sec: 1_600_000_000, nsec: 123_456_789 })
        .to_driver()
        .unwrap();
    assert_eq!(sent.body, 1_600_000_000_123i64.to_be_bytes().to_vec());
    assert_eq!(sent.value_type, ValueType::Normal(8));
    let sent = ColumnValue::Timestamp(Timespec { sec: 0, nsec: 999_999 }).to_driver().unwrap();
    assert_eq!(sent.body, vec![0, 0, 0, 0, 0, 0, 0, 0]);
    let sent = ColumnValue::Timestamp(Timespec { sec: 0, nsec: 1_000_000 }).to_driver().unwrap();
    assert_eq!(sent.body, vec![0, 0, 0, 0, 0, 0, 0, 1]);
}

#[test]
fn driver_sends_a_timestamp_before_the_epoch_in_twos_complement() {
    let sent = ColumnValue::Timestamp(Timespec { sec: -1, nsec: 0 }).to_driver().unwrap();
    assert_eq!(sent.body, (-1000i64).to_be_bytes().to_vec());
    let sent = ColumnValue::Timestamp(Timespec { sec: -1, nsec: 999_000_000 }).to_driver().unwrap();
    assert_eq!(sent.body, (-1i64).to_be_bytes().to_vec());
    let sent = ColumnValue::Timestamp(Timespec { sec: 0, nsec: -1 }).to_driver().unwrap();
    assert_eq!(sent.body, 0i64.to_be_bytes().to_vec());
    let sent = ColumnValue::Timestamp(Timespec { sec: 0, nsec: -1_000_000 }).to_driver().unwrap();
    assert_eq!(sent.body, (-1i64).to_be_bytes().to_vec());
}

#[test]
fn driver_sends_timestamps_of_one_millisecond_alike() {
    let a = ColumnValue::Timestamp(Timespec { sec: 5, nsec: 123_000_000 }).to_driver().unwrap();
    let b = ColumnValue::Timestamp(Timespec { sec: 5, nsec: 123_999_999 }).to_driver().unwrap();
    let c = ColumnValue::Timestamp(Timespec { sec: 5, nsec: 124_000_000 }).to_driver().unwrap();
    assert_eq!(a, b);
    assert_ne!(a, c);
}

#[test]
fn driver_cannot_send_a_timestamp_whose_milliseconds_overflow() {
    assert_eq!(ColumnValue::Timestamp(Timespec { sec: i64::MAX, nsec: 0 }).to_driver(), None);
    assert_eq!(ColumnValue::Timestamp(Timespec { sec: i64::MIN, nsec: 0 }).to_driver(), None);
    let most = i64::MAX / 1000;
    assert_eq!(
        ColumnValue::Timestamp(Timespec { sec: most, nsec: 807_000_000 }).to_driver().unwrap().body,
        i64::MAX.to_be_bytes().to_vec()
    );
    assert_eq!(ColumnValue::Timestamp(Timespec { sec: most, nsec: 808_000_000 }).to_driver(), None);
    assert_eq!(ColumnValue::Timestamp(Timespec { sec: most + 1, nsec: 0 }).to_driver(), None);
}

#[test]
fn driver_sends_no_value_as_a_null() {
    let sent = ColumnValue::Null.to_driver().unwrap();
    assert_eq!(sent.body, Vec::<u8>::new());
    assert_eq!(sent.value_type, ValueType::Null);
    assert_eq!(sent, Value::new_null());
}

#[test]
fn driver_sends_the_values_of_an_insert_in_the_order_of_the_table() {
    let u = User::new(
        Some(2),
        "test",
        "test@test.com",
        [0u8; 32],
        Some(CalendarTime { seconds: 1, subsec_nanos: 2_000_000 }),
    );
    let sent = User::try_into(&u).unwrap().to_driver().unwrap();
    assert_eq!(sent.len(), 5);
    assert_eq!(sent[0], Value::new_normal(uuid::Uuid::from_u128(2)));
    assert_eq!(sent[1].body, b"test".to_vec());
    assert_eq!(sent[2].body, b"test@test.com".to_vec());
    assert_eq!(sent[3].body, "1".repeat(32).into_bytes());
    assert_eq!(sent[4].body, 1002i64.to_be_bytes().to_vec());
}

#[test]
fn driver_sends_nothing_if_one_value_cannot_be_sent() {
    let values = QueryValues {
        columns: vec![
            Column { name: "id".to_string(), value: ColumnValue::Uuid(1) },
            Column {
                name: "registered_at".to_string(),
                value: ColumnValue::Timestamp(Timespec { sec: i64::MAX, nsec: 0 }),
            },
        ],
    };
    assert_eq!(values.to_driver(), None);
    assert_eq!(QueryValues { columns: vec![] }.to_driver(), Some(vec![]));
}

#[test]
fn driver_bytes_of_a_provider_are_those_of_its_wire_name() {
    assert_eq!(Value::new_normal(Bytes::from(IdentityProvider::Google)).body, b"google".to_vec());
    assert_eq!(Value::new_normal(Bytes::from(IdentityProvider::Reddit)).body, b"reddit".to_vec());
    assert_eq!(
        Value::new_normal(Bytes::from(IdentityProvider::Facebook)).body,
        b"facebook".to_vec()
    );
}
