use binson_ser::wire::{
    BEGIN, BEGIN_ARRAY, DOUBLE, END, END_ARRAY, FALSE, INT16, INT32, INT64, INT8, STRING_LEN,
    STRING_LEN_16, STRING_LEN_32, TRUE, UNIT,
};
use binson_ser::{to_binson, Compound, Error, Serializer, Value};

fn s(text: &str) -> String {
    text.to_string()
}

fn encode(v: &Value) -> Vec<u8> {
    to_binson(v).unwrap()
}

#[test]
fn test_struct() {
    let test = Value::Struct(vec![(s("a"), Value::U8(2)), (s("b"), Value::Bool(false))]);
    let expected = vec![BEGIN, STRING_LEN, 0x1, 0x61, INT8, 0x2, STRING_LEN, 0x1, 0x62, FALSE, END];
    assert_eq!(to_binson(&test).unwrap(), expected);
}

#[test]
fn test_struct_u32_and_seq_of_str() {
    let test = Value::Struct(vec![
        (s("int"), Value::U32(1)),
        (s("seq"), Value::Array(vec![Value::Str(s("a")), Value::Str(s("b"))])),
    ]);
    let expected = vec![
        BEGIN, STRING_LEN, 0x3, 0x69, 0x6e, 0x74, INT32, 0x1, 0, 0, 0, STRING_LEN, 0x3, 0x73, 0x65,
        0x71, BEGIN_ARRAY, STRING_LEN, 0x1, 0x61, STRING_LEN, 0x1, 0x62, END_ARRAY, END,
    ];
    assert_eq!(to_binson(&test).unwrap(), expected);
}

#[test]
fn test_enum() {
    let u = Value::UnitVariant(s("E"), s("Unit"));
    let expected = vec![STRING_LEN, 0x6, 0x45, 0x3A, 0x55, 0x6E, 0x69, 0x74];
    assert_eq!(to_binson(&u).unwrap(), expected);

    let n = Value::NewtypeVariant(s("Newtype"), Box::new(Value::U32(3)));
    let expected = vec![STRING_LEN, 0x7, 78, 101, 119, 116, 121, 112, 101, INT32, 3, 0, 0, 0];
    assert_eq!(to_binson(&n).unwrap(), expected);

    let t = Value::TupleVariant(s("Tuple"), vec![Value::U32(4), Value::U32(5)]);
    let expected = vec![
        STRING_LEN, 0x5, 84, 117, 112, 108, 101, BEGIN_ARRAY, INT32, 4, 0, 0, 0, INT32, 5, 0, 0,
        0, END_ARRAY,
    ];
    assert_eq!(to_binson(&t).unwrap(), expected);

    let st = Value::StructVariant(s("Struct"), vec![(s("a"), Value::U32(1))]);
    let expected = vec![
        BEGIN, STRING_LEN, 0x6, 83, 116, 114, 117, 99, 116, BEGIN, STRING_LEN, 0x1, 97, INT32, 1,
        0, 0, 0, END, END,
    ];
    assert_eq!(to_binson(&st).unwrap(), expected);
}

#[test]
fn tag_values() {
    assert_eq!(
        [BEGIN, END, BEGIN_ARRAY, END_ARRAY, TRUE, FALSE, DOUBLE],
        [0x40, 0x41, 0x42, 0x43, 0x44, 0x45, 0x46]
    );
    assert_eq!([INT8, INT16, INT32, INT64], [0x10, 0x11, 0x12, 0x13]);
    assert_eq!([STRING_LEN, STRING_LEN_16, STRING_LEN_32, UNIT], [0x14, 0x15, 0x16, 0x00]);
}

#[test]
fn booleans() {
    assert_eq!(encode(&Value::Bool(true)), vec![0x44]);
    assert_eq!(encode(&Value::Bool(false)), vec![0x45]);
}

#[test]
fn signed_integers_are_twos_complement_little_endian() {
    assert_eq!(encode(&Value::I8(-2)), vec![0x10, 0xFE]);
    assert_eq!(encode(&Value::I8(127)), vec![0x10, 0x7F]);
    assert_eq!(encode(&Value::I16(-1000)), vec![0x11, 0x18, 0xFC]);
    assert_eq!(encode(&Value::I32(-2)), vec![0x12, 0xFE, 0xFF, 0xFF, 0xFF]);
    assert_eq!(encode(&Value::I32(0x01020304)), vec![0x12, 0x04, 0x03, 0x02, 0x01]);
    assert_eq!(
        encode(&Value::I64(-1)),
        vec![0x13, 0xFF, 0xFF, 0xFF, 0xFF, 0xFF, 0xFF, 0xFF, 0xFF]
    );
    assert_eq!(
        encode(&Value::I64(0x0102030405060708)),
        vec![0x13, 8, 7, 6, 5, 4, 3, 2, 1]
    );
}

#[test]
fn unsigned_integers_share_the_signed_tags() {
    assert_eq!(encode(&Value::U8(0xAB)), vec![0x10, 0xAB]);
    assert_eq!(encode(&Value::U16(0x1234)), vec![0x11, 0x34, 0x12]);
    assert_eq!(encode(&Value::U32(0xDEADBEEF)), vec![0x12, 0xEF, 0xBE, 0xAD, 0xDE]);
    assert_eq!(
        encode(&Value::U64(0x0102030405060708)),
        vec![0x13, 8, 7, 6, 5, 4, 3, 2, 1]
    );
    assert_eq!(encode(&Value::U8(0xFE)), encode(&Value::I8(-2)));
}

#[test]
fn doubles_are_written_as_little_endian_bits() {
    let bits = 1.5f64.to_bits();
    assert_eq!(encode(&Value::Double(bits)), vec![0x46, 0, 0, 0, 0, 0, 0, 0xF8, 0x3F]);
    let mut ser = Serializer::new();
    ser.serialize_f64((0.5f32 as f64).to_bits());
    assert_eq!(ser.into_output(), vec![0x46, 0, 0, 0, 0, 0, 0, 0xE0, 0x3F]);
}

#[test]
fn chars_are_one_character_strings() {
    assert_eq!(encode(&Value::Char('x')), vec![0x14, 1, b'x']);
    assert_eq!(encode(&Value::Char('é')), vec![0x14, 2, 0xC3, 0xA9]);
    assert_eq!(encode(&Value::Char('x')), encode(&Value::Str(s("x"))));
}

#[test]
fn strings_use_utf8_byte_length() {
    assert_eq!(encode(&Value::Str(s(""))), vec![0x14, 0]);
    assert_eq!(encode(&Value::Str(s("héllo"))), vec![0x14, 6, b'h', 0xC3, 0xA9, b'l', b'l', b'o']);
}

#[test]
fn string_of_127_bytes_uses_one_byte_length() {
    let text = "a".repeat(127);
    let out = encode(&Value::Str(text.clone()));
    assert_eq!(&out[..2], &[STRING_LEN, 127]);
    assert_eq!(&out[2..], text.as_bytes());
}

#[test]
fn string_of_128_bytes_uses_two_byte_length() {
    let text = "b".repeat(128);
    let out = encode(&Value::Str(text.clone()));
    assert_eq!(&out[..3], &[STRING_LEN_16, 128, 0]);
    assert_eq!(&out[3..], text.as_bytes());
}

#[test]
fn string_of_32767_bytes_uses_two_byte_length() {
    let out = encode(&Value::Str("c".repeat(32767)));
    assert_eq!(&out[..3], &[STRING_LEN_16, 0xFF, 0x7F]);
    assert_eq!(out.len(), 3 + 32767);
}

#[test]
fn string_of_32768_bytes_uses_four_byte_length() {
    let text = "d".repeat(32768);
    let out = encode(&Value::Str(text.clone()));
    assert_eq!(&out[..5], &[STRING_LEN_32, 0x00, 0x80, 0, 0]);
    assert_eq!(&out[5..], text.as_bytes());
}

#[test]
fn bytes_have_no_tag_and_no_length() {
    assert_eq!(encode(&Value::Bytes(vec![1, 2, 0x42])), vec![1, 2, 0x42]);
    assert_eq!(encode(&Value::Bytes(vec![])), Vec::<u8>::new());
}

#[test]
fn unit_and_none() {
    assert_eq!(encode(&Value::Unit), vec![0x00]);
    let mut ser = Serializer::new();
    ser.serialize_none();
    ser.serialize_unit_struct();
    ser.serialize_unit();
    assert_eq!(ser.into_output(), vec![0, 0, 0]);
}

#[test]
fn newtype_is_transparent() {
    let inner = Value::I16(7);
    let wrapped = Value::Newtype(Box::new(Value::I16(7)));
    assert_eq!(encode(&wrapped), encode(&inner));
    let mut ser = Serializer::new();
    ser.serialize_some(&Value::U8(9));
    ser.serialize_newtype_struct(&Value::U8(9));
    assert_eq!(ser.into_output(), vec![0x10, 9, 0x10, 9]);
}

#[test]
fn map_keeps_insertion_order() {
    let m = Value::Entries(vec![
        (Value::Str(s("z")), Value::U8(1)),
        (Value::Str(s("a")), Value::U8(2)),
        (Value::Str(s("z")), Value::U8(3)),
    ]);
    let expected = vec![
        BEGIN, 0x14, 1, b'z', 0x10, 1, 0x14, 1, b'a', 0x10, 2, 0x14, 1, b'z', 0x10, 3, END,
    ];
    assert_eq!(encode(&m), expected);
}

#[test]
fn struct_fields_are_not_sorted() {
    let st = Value::Struct(vec![(s("b"), Value::Unit), (s("a"), Value::Unit)]);
    assert_eq!(encode(&st), vec![BEGIN, 0x14, 1, b'b', 0, 0x14, 1, b'a', 0, END]);
}

#[test]
fn empty_containers() {
    assert_eq!(encode(&Value::Array(vec![])), vec![BEGIN_ARRAY, END_ARRAY]);
    assert_eq!(encode(&Value::Entries(vec![])), vec![BEGIN, END]);
    assert_eq!(encode(&Value::Struct(vec![])), vec![BEGIN, END]);
}

#[test]
fn nested_containers_are_balanced() {
    let v = Value::Array(vec![
        Value::Array(vec![Value::Array(vec![])]),
        Value::Struct(vec![(s("k"), Value::Entries(vec![(Value::U8(1), Value::Array(vec![]))]))]),
        Value::StructVariant(s("V"), vec![]),
    ]);
    let expected = vec![
        BEGIN_ARRAY, BEGIN_ARRAY, BEGIN_ARRAY, END_ARRAY, END_ARRAY, BEGIN, 0x14, 1, b'k', BEGIN,
        0x10, 1, BEGIN_ARRAY, END_ARRAY, END, END, BEGIN, 0x14, 1, b'V', BEGIN, END, END,
        END_ARRAY,
    ];
    let out = encode(&v);
    assert_eq!(out, expected);
    let count = |b: u8| out.iter().filter(|x| **x == b).count();
    assert_eq!(count(BEGIN_ARRAY), count(END_ARRAY));
    assert_eq!(count(BEGIN), count(END));
}

#[test]
fn encoding_is_deterministic() {
    let build = || {
        Value::Struct(vec![
            (s("n"), Value::I64(-5)),
            (s("xs"), Value::Array(vec![Value::Char('q'), Value::Double(7)])),
        ])
    };
    let v = build();
    assert_eq!(encode(&v), encode(&v));
    assert_eq!(encode(&v), encode(&build()));
}

#[test]
fn protocol_calls_by_hand() {
    let mut ser = Serializer::new();
    let outer = ser.serialize_struct_variant("V");
    assert_eq!(outer, Compound::StructVariant);
    ser.serialize_field("x", &Value::Bool(true));
    ser.end(outer);
    let seq = ser.serialize_tuple();
    ser.serialize_element(&Value::U8(1));
    ser.end(seq);
    let tv = ser.serialize_tuple_struct();
    ser.end(tv);
    let m = ser.serialize_map();
    assert_eq!(m, Compound::Object);
    ser.serialize_key(&Value::U8(2));
    ser.serialize_value(&Value::U8(3));
    ser.end(m);
    let st = ser.serialize_struct();
    ser.end(st);
    let a = ser.serialize_seq();
    assert_eq!(a, Compound::Array);
    ser.end(a);
    ser.serialize_unit_variant("T", "U");
    ser.serialize_newtype_variant("N", &Value::U8(4));
    let t = ser.serialize_tuple_variant("P");
    ser.end(t);
    ser.serialize_char('c');
    ser.serialize_bytes(&[9, 9]);
    let expected = vec![
        BEGIN, 0x14, 1, b'V', BEGIN, 0x14, 1, b'x', TRUE, END, END, BEGIN_ARRAY, 0x10, 1,
        END_ARRAY, BEGIN_ARRAY, END_ARRAY, BEGIN, 0x10, 2, 0x10, 3, END, BEGIN, END, BEGIN_ARRAY,
        END_ARRAY, 0x14, 3, b'T', b':', b'U', 0x14, 1, b'N', 0x10, 4, 0x14, 1, b'P', BEGIN_ARRAY,
        END_ARRAY, 0x14, 1, b'c', 9, 9,
    ];
    assert_eq!(ser.into_output(), expected);
}

#[test]
fn integer_methods_write_tag_and_payload() {
    let mut ser = Serializer::new();
    ser.serialize_i8(-128);
    ser.serialize_i16(-2);
    ser.serialize_i32(i32::MIN);
    ser.serialize_i64(256);
    ser.serialize_u8(255);
    ser.serialize_u16(513);
    ser.serialize_u32(65536);
    ser.serialize_u64(u64::MAX);
    ser.serialize_bool(true);
    ser.serialize_str("ok");
    let expected = vec![
        0x10, 0x80, 0x11, 0xFE, 0xFF, 0x12, 0, 0, 0, 0x80, 0x13, 0, 1, 0, 0, 0, 0, 0, 0, 0x10,
        0xFF, 0x11, 1, 2, 0x12, 0, 0, 1, 0, 0x13, 0xFF, 0xFF, 0xFF, 0xFF, 0xFF, 0xFF, 0xFF, 0xFF,
        0x44, 0x14, 2, b'o', b'k',
    ];
    assert_eq!(ser.into_output(), expected);
}

#[test]
fn error_texts() {
    let e = Error::custom(s("bad value"));
    assert!(matches!(&e, Error::Message(m) if m == "bad value"));
    assert_eq!(e.description(), "bad value");
    assert_eq!(Error::Eof.description(), "unexpected end of input");
    assert_eq!(Error::Syntax.description(), "unexpected end of input");
    assert_eq!(Error::ExpectedBoolean.description(), "unexpected end of input");
    let io = Error::IoError(std::io::Error::new(std::io::ErrorKind::Other, "sink closed"));
    assert_eq!(io.description(), "sink closed");
}
