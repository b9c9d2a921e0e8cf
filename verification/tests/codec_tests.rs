use bolt_driver::decode::decode;
use bolt_driver::encode::encode;
use bolt_driver::errors::Error;
use bolt_driver::message::{decode_message, encode_message, Message};
use bolt_driver::value::{bytes_eq, dict_get, Value};

fn round_trip(v: Value) -> Vec<u8> {
    let bytes = encode(&v).unwrap();
    let (back, used) = decode(&bytes).unwrap();
    assert_eq!(used, bytes.len());
    let again = encode(&back).unwrap();
    assert_eq!(again, bytes);
    bytes
}

#[test]
fn encodes_scalars_exactly() {
    assert_eq!(round_trip(Value::Null), vec![0xC0]);
    assert_eq!(round_trip(Value::Bool(false)), vec![0xC2]);
    assert_eq!(round_trip(Value::Bool(true)), vec![0xC3]);
}

#[test]
fn encodes_integers_in_narrowest_form() {
    assert_eq!(round_trip(Value::Int(0)), vec![0x00]);
    assert_eq!(round_trip(Value::Int(127)), vec![0x7F]);
    assert_eq!(round_trip(Value::Int(-1)), vec![0xFF]);
    assert_eq!(round_trip(Value::Int(-16)), vec![0xF0]);
    assert_eq!(round_trip(Value::Int(-17)), vec![0xC8, 0xEF]);
    assert_eq!(round_trip(Value::Int(-128)), vec![0xC8, 0x80]);
    assert_eq!(round_trip(Value::Int(128)), vec![0xC9, 0x00, 0x80]);
    assert_eq!(round_trip(Value::Int(32767)), vec![0xC9, 0x7F, 0xFF]);
    assert_eq!(round_trip(Value::Int(-32768)), vec![0xC9, 0x80, 0x00]);
    assert_eq!(round_trip(Value::Int(32768)), vec![0xCA, 0x00, 0x00, 0x80, 0x00]);
    assert_eq!(
        round_trip(Value::Int(-2147483648)),
        vec![0xCA, 0x80, 0x00, 0x00, 0x00]
    );
    assert_eq!(
        round_trip(Value::Int(2147483648)),
        vec![0xCB, 0x00, 0x00, 0x00, 0x00, 0x80, 0x00, 0x00, 0x00]
    );
    assert_eq!(
        round_trip(Value::Int(i64::MIN)),
        vec![0xCB, 0x80, 0x00, 0x00, 0x00, 0x00, 0x00, 0x00, 0x00]
    );
    assert_eq!(
        round_trip(Value::Int(i64::MAX)),
        vec![0xCB, 0x7F, 0xFF, 0xFF, 0xFF, 0xFF, 0xFF, 0xFF, 0xFF]
    );
}

#[test]
fn encodes_strings_with_length_headers() {
    assert_eq!(round_trip(Value::Str(vec![])), vec![0x80]);
    assert_eq!(round_trip(Value::Str(b"hi".to_vec())), vec![0x82, 104, 105]);
    // sixteen bytes need the one-byte length form
    let s16 = Value::Str(vec![97; 16]);
    let bytes = round_trip(s16);
    assert_eq!(bytes[0], 0xD0);
    assert_eq!(bytes[1], 16);
    assert_eq!(bytes.len(), 18);
    // three hundred bytes need the two-byte length form
    let s300 = Value::Str(vec![98; 300]);
    let bytes = round_trip(s300);
    assert_eq!(&bytes[0..3], &[0xD1, 0x01, 0x2C]);
    assert_eq!(bytes.len(), 303);
}

#[test]
fn encodes_byte_strings() {
    let b = Value::Bytes(vec![1, 2, 3]);
    assert_eq!(round_trip(b), vec![0xCC, 3, 1, 2, 3]);
}

#[test]
fn encodes_collections() {
    let l = Value::List(vec![Value::Int(1), Value::Str(b"a".to_vec())]);
    assert_eq!(round_trip(l), vec![0x92, 0x01, 0x81, 97]);

    let d = Value::Dictionary(vec![(b"one".to_vec(), Value::Int(1))]);
    assert_eq!(round_trip(d), vec![0xA1, 0x83, 111, 110, 101, 0x01]);

    let s = Value::Struct(0x4E, vec![Value::Int(7)]);
    assert_eq!(round_trip(s), vec![0xB1, 0x4E, 0x07]);
}

#[test]
fn round_trips_nested_values() {
    let v = Value::Dictionary(vec![
        (
            b"rows".to_vec(),
            Value::List(vec![
                Value::Struct(0x4E, vec![Value::Int(-300), Value::Null]),
                Value::Bytes(vec![0xFF, 0x00]),
            ]),
        ),
        (b"done".to_vec(), Value::Bool(true)),
    ]);
    round_trip(v);
}

#[test]
fn rejects_bad_input() {
    assert!(matches!(
        decode(&vec![]),
        Err(Error::DeserializationError(_))
    ));
    // the marker of a kind this driver does not carry
    assert!(matches!(decode(&vec![0xC1]), Err(Error::UnknownType(_))));
    // a byte that is no marker at all
    assert!(matches!(
        decode(&vec![0xC7]),
        Err(Error::InvalidTypeMarker(_))
    ));
    // a string header announcing more bytes than follow
    assert!(matches!(
        decode(&vec![0x85, 97]),
        Err(Error::DeserializationError(_))
    ));
    // a list whose second element is missing
    assert!(matches!(
        decode(&vec![0x92, 0x01]),
        Err(Error::DeserializationError(_))
    ));
}

#[test]
fn rejects_oversize_structures() {
    let fields: Vec<Value> = (0..16).map(|_| Value::Null).collect();
    assert!(matches!(
        encode(&Value::Struct(0x4E, fields)),
        Err(Error::ListTooLong)
    ));
}

fn message_round_trip(m: Message) -> Vec<u8> {
    let bytes = encode_message(&m).unwrap();
    let back = decode_message(&bytes).unwrap();
    let again = encode_message(&back).unwrap();
    assert_eq!(again, bytes);
    bytes
}

#[test]
fn encodes_messages_exactly() {
    assert_eq!(message_round_trip(Message::Commit), vec![0xB0, 0x12]);
    assert_eq!(message_round_trip(Message::Rollback), vec![0xB0, 0x13]);
    assert_eq!(message_round_trip(Message::Reset), vec![0xB0, 0x0F]);
    assert_eq!(message_round_trip(Message::Ignored), vec![0xB0, 0x7E]);
    assert_eq!(
        message_round_trip(Message::Pull(vec![(b"n".to_vec(), Value::Int(1))])),
        vec![0xB1, 0x3F, 0xA1, 0x81, 110, 0x01]
    );
}

#[test]
fn round_trips_every_message_kind() {
    fn md() -> Vec<(Vec<u8>, Value)> {
        vec![(b"k".to_vec(), Value::Int(5))]
    }
    message_round_trip(Message::Hello(md()));
    message_round_trip(Message::Run(
        b"RETURN 1".to_vec(),
        vec![(b"p".to_vec(), Value::Str(b"v".to_vec()))],
        md(),
    ));
    message_round_trip(Message::Pull(md()));
    message_round_trip(Message::Discard(md()));
    message_round_trip(Message::Begin(md()));
    message_round_trip(Message::Success(md()));
    message_round_trip(Message::Failure(md()));
    message_round_trip(Message::Record(vec![Value::Int(1), Value::Null]));
}

#[test]
fn rejects_foreign_frames() {
    // an unknown structure tag
    assert!(matches!(
        decode_message(&vec![0xB0, 0x60]),
        Err(Error::UnknownMessage(_))
    ));
    // a known tag with fields of the wrong shape
    assert!(matches!(
        decode_message(&vec![0xB1, 0x12, 0xC0]),
        Err(Error::ConversionError)
    ));
    // trailing bytes after the message
    assert!(matches!(
        decode_message(&vec![0xB0, 0x12, 0x00]),
        Err(Error::DeserializationError(_))
    ));
    // a bare value that is no structure
    assert!(matches!(
        decode_message(&vec![0xC0]),
        Err(Error::ConversionError)
    ));
}

#[test]
fn dictionary_lookup_finds_the_first_match() {
    let pairs = vec![
        (b"k".to_vec(), Value::Int(1)),
        (b"k".to_vec(), Value::Int(2)),
    ];
    match dict_get(&pairs, b"k") {
        Some(Value::Int(1)) => {}
        _ => panic!("wanted the first entry under the key"),
    }
    assert!(dict_get(&pairs, b"missing").is_none());
    assert!(bytes_eq(b"abc", b"abc"));
    assert!(!bytes_eq(b"abc", b"abd"));
    assert!(!bytes_eq(b"abc", b"ab"));
}
