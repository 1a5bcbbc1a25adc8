use cor::{Entries, Error, FieldEncoder, Kind, List, Value};

fn parse_all(buf: &[u8]) -> Entries {
    let mut pos = 0;
    let e = Entries::parse(buf, &mut pos).unwrap();
    assert_eq!(pos, buf.len());
    e
}

#[test]
fn bool_field_bytes() {
    // one field, key 1, bool true
    let mut buf = Vec::new();
    FieldEncoder::encode(&true, &mut buf, 1);
    buf.push(0x0A);
    assert_eq!(buf, vec![0x11, 0x0A]);
    let e = parse_all(&buf);
    assert_eq!(e.get_and_convert::<bool>(1), Ok(true));
}

#[test]
fn uint_field_bytes() {
    // one field, key 2, unsigned 300
    let mut buf = Vec::new();
    FieldEncoder::encode(&300u64, &mut buf, 2);
    buf.push(0x0A);
    assert_eq!(buf, vec![0x25, 0xAC, 0x02, 0x0A]);
    let e = parse_all(&buf);
    assert_eq!(e.get_and_convert::<u64>(2), Ok(300));
}

#[test]
fn sint_field_bytes() {
    // one field, key 3, signed -1: zigzag(-1) == 1
    let mut buf = Vec::new();
    FieldEncoder::encode(&(-1i64), &mut buf, 3);
    buf.push(0x0A);
    assert_eq!(buf, vec![0x34, 0x01, 0x0A]);
    let e = parse_all(&buf);
    assert_eq!(e.get_and_convert::<i64>(3), Ok(-1));
}

#[test]
fn escaped_id_field_bytes() {
    // one field, key 20, unsigned 5: escape nibble, varint(20 - 15)
    let mut buf = Vec::new();
    FieldEncoder::encode(&5u64, &mut buf, 20);
    buf.push(0x0A);
    assert_eq!(buf, vec![0xF5, 0x05, 0x05, 0x0A]);
    let e = parse_all(&buf);
    assert_eq!(e.get_and_convert::<u64>(20), Ok(5));
}

#[test]
fn bool_list_field_bytes() {
    // a list field, key 1, of [true, false]
    let mut buf = Vec::new();
    FieldEncoder::encode(&List::Bool(vec![true, false]), &mut buf, 1);
    buf.push(0x0A);
    assert_eq!(buf, vec![0x18, 0x21, 0x01, 0x00, 0x0A]);
    let e = parse_all(&buf);
    match e.get(1) {
        Some(Value::List(List::Bool(v))) => assert_eq!(v, &vec![true, false]),
        other => panic!("unexpected {:?}", other),
    }
}

#[test]
fn absent_optional_field() {
    // an absent optional contributes zero bytes; decoding resolves it
    // as None for an optional target and MissingField for a required one
    let mut buf = Vec::new();
    FieldEncoder::encode(&None::<String>, &mut buf, 5);
    assert!(buf.is_empty());
    buf.push(0x0A);
    let e = parse_all(&buf);
    assert_eq!(e.get_and_convert::<Option<String>>(5), Ok(None));
    let err = e.get_and_convert::<String>(5).unwrap_err();
    assert_eq!(err.kind, Error::MissingField);
    assert_eq!(err.key, Some(5));
}

#[test]
fn header_escape_boundary_ids() {
    for id in [14u32, 15, 16, 270] {
        let mut buf = Vec::new();
        FieldEncoder::encode(&7u64, &mut buf, id);
        buf.push(0x0A);
        if id < 15 {
            assert_eq!(buf.len(), 3);
            assert_eq!(buf[0], (id as u8) << 4 | 5);
        } else {
            assert_eq!(buf[0], 0xF5);
        }
        let e = parse_all(&buf);
        assert_eq!(e.get_and_convert::<u64>(id), Ok(7));
    }
    // id 270 escapes as varint(255) = [0xFF, 0x01]
    let mut buf = Vec::new();
    FieldEncoder::encode(&7u64, &mut buf, 270);
    buf.push(0x0A);
    assert_eq!(buf, vec![0xF5, 0xFF, 0x01, 0x07, 0x0A]);
}

#[test]
fn three_records() {
    // records are self-terminating: concatenated records decode
    // independently in sequence, each stopping at its own terminator
    let mut buf = Vec::new();
    FieldEncoder::encode(&1u64, &mut buf, 1);
    buf.push(0x0A);
    FieldEncoder::encode(&2u64, &mut buf, 1);
    buf.push(0x0A);
    FieldEncoder::encode(&"third".to_string(), &mut buf, 2);
    buf.push(0x0A);

    let mut pos = 0;
    let a = Entries::parse(&buf, &mut pos).unwrap();
    let b = Entries::parse(&buf, &mut pos).unwrap();
    let c = Entries::parse(&buf, &mut pos).unwrap();
    assert_eq!(pos, buf.len());
    assert_eq!(a.get_and_convert::<u64>(1), Ok(1));
    assert_eq!(b.get_and_convert::<u64>(1), Ok(2));
    assert_eq!(c.get_and_convert::<String>(2), Ok("third".to_string()));
}

#[test]
fn duplicate_keys_first_wins() {
    // two entries under key 1: the stream decodes, lookup returns the first
    let buf = vec![0x15, 0x01, 0x15, 0x02, 0x0A];
    let e = parse_all(&buf);
    assert_eq!(e.len(), 2);
    assert_eq!(e.get_and_convert::<u64>(1), Ok(1));
}

#[test]
fn terminator_id_not_load_bearing() {
    // a terminator whose id slot is nonzero still closes the record
    let buf = vec![0x15, 0x07, 0x3A];
    let mut pos = 0;
    let e = Entries::parse(&buf, &mut pos).unwrap();
    assert_eq!(pos, buf.len());
    assert_eq!(e.get_and_convert::<u64>(1), Ok(7));
}

#[test]
fn nested_records_roundtrip() {
    // nesting at depth 2: a record inside a record inside a record
    let inner = Value::Struct(Entries(vec![(1, Value::UInt(9))]));
    let middle = Value::Struct(Entries(vec![(2, inner), (3, Value::Bool(true))]));
    let mut buf = Vec::new();
    FieldEncoder::encode(&middle, &mut buf, 4);
    buf.push(0x0A);

    let e = parse_all(&buf);
    match e.get(4) {
        Some(Value::Struct(en)) => {
            assert_eq!(en.get_and_convert::<bool>(3), Ok(true));
            assert_eq!(Value::try_get::<bool>(3, &en.0), Ok(Some(true)));
            match &en.0[0] {
                (2, Value::Struct(inner_en)) => {
                    assert_eq!(inner_en.get_and_convert::<u64>(1), Ok(9));
                },
                other => panic!("unexpected {:?}", other),
            }
        },
        other => panic!("unexpected {:?}", other),
    }
}

#[test]
fn lists_of_every_kind_roundtrip() {
    let lists: Vec<List> = vec![
        List::Bool(vec![true, false, true]),
        List::F32(vec![1.5f32.to_bits(), 0.0f32.to_bits()]),
        List::F64(vec![2.25f64.to_bits()]),
        List::Int(vec![-1, 0, 63, -64, i64::MIN, i64::MAX]),
        List::UInt(vec![0, 127, 128, u64::MAX]),
        List::Str(vec!["a".to_string(), "".to_string(), "héllo".to_string()]),
        List::Bytes(vec![vec![1, 2], vec![], vec![255]]),
        List::List(vec![List::UInt(vec![1]), List::Bool(vec![false])]),
        List::Struct(vec![vec![(1, Value::Int(-5))], vec![]]),
    ];
    let mut buf = Vec::new();
    let mut id = 1u32;
    for l in &lists {
        FieldEncoder::encode(l, &mut buf, id);
        id += 1;
    }
    buf.push(0x0A);

    let e = parse_all(&buf);
    for (i, l) in lists.iter().enumerate() {
        match e.get(1 + i as u32) {
            Some(Value::List(got)) => assert_eq!(got, l),
            other => panic!("unexpected {:?}", other),
        }
    }
}

#[test]
fn string_payload_is_utf8_checked() {
    // a valid multi-byte string survives the trip
    let mut buf = Vec::new();
    FieldEncoder::encode(&"héllo ✓".to_string(), &mut buf, 1);
    buf.push(0x0A);
    let e = parse_all(&buf);
    assert_eq!(e.get_and_convert::<String>(1), Ok("héllo ✓".to_string()));

    // an invalid byte in a string payload aborts the parse
    let bad = vec![0x16, 0x01, 0xFF, 0x0A];
    let mut pos = 0;
    assert_eq!(Entries::parse(&bad, &mut pos), Err(Error::InvalidUtf8));
}

#[test]
fn unknown_opcode_is_fatal() {
    let buf = vec![0x1B, 0x0A];
    let mut pos = 0;
    assert_eq!(Entries::parse(&buf, &mut pos), Err(Error::UnknownOpcode(11)));

    let buf = vec![0x1F, 0x0A];
    let mut pos = 0;
    assert_eq!(Entries::parse(&buf, &mut pos), Err(Error::UnknownOpcode(15)));
}

#[test]
fn truncation_is_fatal() {
    // empty input: no header byte at all
    let mut pos = 0;
    assert_eq!(Entries::parse(&[], &mut pos), Err(Error::UnexpectedEof));

    // a record that never terminates
    let buf = vec![0x15, 0x07];
    let mut pos = 0;
    assert_eq!(Entries::parse(&buf, &mut pos), Err(Error::UnexpectedEof));

    // a string payload shorter than its announced length
    let buf = vec![0x16, 0x05, 0x61];
    let mut pos = 0;
    assert_eq!(Entries::parse(&buf, &mut pos), Err(Error::UnexpectedEof));

    // a fixed-width payload cut short
    let buf = vec![0x12, 0x01, 0x02];
    let mut pos = 0;
    assert_eq!(Entries::parse(&buf, &mut pos), Err(Error::UnexpectedEof));
}

#[test]
fn escaped_id_out_of_range() {
    // escape varint pushing the id past u32::MAX is out of range
    let mut buf = vec![0xF5];
    // varint of 2^36
    buf.extend_from_slice(&[0x80, 0x80, 0x80, 0x80, 0x80, 0x02]);
    buf.push(0x07);
    buf.push(0x0A);
    let mut pos = 0;
    assert_eq!(Entries::parse(&buf, &mut pos), Err(Error::NumericOverflow));
}

#[test]
fn conversion_errors_carry_context() {
    let mut buf = Vec::new();
    FieldEncoder::encode(&300u64, &mut buf, 1);
    buf.push(0x0A);
    let e = parse_all(&buf);

    // wrong kind: both sides of the mismatch are named
    let err = e.get_and_convert::<bool>(1).unwrap_err();
    assert_eq!(err.kind, Error::TypeMismatch(Kind::Bool, Kind::UInt));
    assert_eq!(err.key, Some(1));

    // narrowing failure: 300 does not fit u8
    let err = e.get_and_convert::<u8>(1).unwrap_err();
    assert_eq!(err.kind, Error::NumericOverflow);
    assert_eq!(err.key, Some(1));

    // but it fits u16
    assert_eq!(e.get_and_convert::<u16>(1), Ok(300));
}

#[test]
fn narrowing_bounds() {
    let mut buf = Vec::new();
    FieldEncoder::encode(&(-129i64), &mut buf, 1);
    FieldEncoder::encode(&(-128i64), &mut buf, 2);
    FieldEncoder::encode(&127i64, &mut buf, 3);
    FieldEncoder::encode(&128i64, &mut buf, 4);
    buf.push(0x0A);
    let e = parse_all(&buf);
    assert_eq!(e.get_and_convert::<i8>(1).unwrap_err().kind, Error::NumericOverflow);
    assert_eq!(e.get_and_convert::<i8>(2), Ok(-128));
    assert_eq!(e.get_and_convert::<i8>(3), Ok(127));
    assert_eq!(e.get_and_convert::<i8>(4).unwrap_err().kind, Error::NumericOverflow);
}

#[test]
fn float_bits_roundtrip_exactly() {
    let mut buf = Vec::new();
    FieldEncoder::encode(&cor::F32Bits(1.5f32.to_bits()), &mut buf, 1);
    FieldEncoder::encode(&cor::F64Bits(f64::NEG_INFINITY.to_bits()), &mut buf, 2);
    buf.push(0x0A);
    // 1.5f32 is 0x3FC00000, little-endian on the wire
    assert_eq!(&buf[0..5], &[0x12, 0x00, 0x00, 0xC0, 0x3F]);
    let e = parse_all(&buf);
    assert_eq!(f32::from_bits(e.get_and_convert::<cor::F32Bits>(1).unwrap().0), 1.5);
    assert_eq!(
        f64::from_bits(e.get_and_convert::<cor::F64Bits>(2).unwrap().0),
        f64::NEG_INFINITY
    );
}

#[test]
fn store_insert_and_lookup() {
    let mut e = Entries::new();
    assert!(e.is_empty());
    e.insert(3, Value::UInt(8));
    e.insert(3, Value::Bool(true));
    assert_eq!(e.len(), 2);
    assert!(!e.is_empty());
    // first insertion wins on lookup
    assert_eq!(e.get_and_convert::<u64>(3), Ok(8));
    assert_eq!(e.get(4), None);
}

#[test]
fn optional_field_present() {
    let mut buf = Vec::new();
    FieldEncoder::encode(&Some("carol".to_string()), &mut buf, 2);
    buf.push(0x0A);
    // a present optional writes exactly what the bare value writes
    let mut direct = Vec::new();
    FieldEncoder::encode(&"carol".to_string(), &mut direct, 2);
    direct.push(0x0A);
    assert_eq!(buf, direct);
    let e = parse_all(&buf);
    assert_eq!(
        e.get_and_convert::<Option<String>>(2),
        Ok(Some("carol".to_string()))
    );
}

#[test]
fn parse_struct_directly() {
    let mut buf = Vec::new();
    FieldEncoder::encode(&true, &mut buf, 1);
    buf.push(0x0A);
    let mut pos = 0;
    let fields = cor::parse_struct(&buf, &mut pos).unwrap();
    assert_eq!(pos, buf.len());
    assert_eq!(fields, vec![(1, Value::Bool(true))]);
}

#[test]
fn parse_string_and_bytes_directly() {
    // varint length 3, then the raw payload
    let buf = [0x03, 0x61, 0x62, 0x63, 0xFF];
    let mut pos = 0;
    assert_eq!(cor::decoder::parse_string(&buf, &mut pos), Ok("abc".to_string()));
    assert_eq!(pos, 4);
    let mut pos = 0;
    assert_eq!(cor::decoder::parse_bytes(&buf, &mut pos), Ok(vec![0x61, 0x62, 0x63]));
}

#[test]
fn value_tree_roundtrip() {
    // a record encoded from the untyped tree parses back to the same tree
    let fields = vec![
        (1, Value::Bool(true)),
        (2, Value::Int(-300)),
        (3, Value::UInt(300)),
        (4, Value::Str("wire".to_string())),
        (5, Value::Bytes(vec![0, 255])),
        (6, Value::List(List::Int(vec![-1, 1]))),
        (7, Value::Struct(Entries(vec![(1, Value::Str("inner".to_string()))]))),
        (260, Value::F64(3.5f64.to_bits())),
    ];
    let mut buf = Vec::new();
    cor::encode_struct(&fields, &mut buf);
    let mut pos = 0;
    let parsed = cor::parse_struct(&buf, &mut pos).unwrap();
    assert_eq!(pos, buf.len());
    assert_eq!(parsed, fields);
}

#[test]
fn convert_record_checks_the_kind() {
    #[derive(Debug, PartialEq)]
    struct Pair {
        a: u64,
        b: bool,
    }
    impl cor::Decoder for Pair {
        fn decode(e: &Entries) -> Result<Pair, cor::ConvertError> {
            Ok(Pair { a: e.get_and_convert(1)?, b: e.get_and_convert(2)? })
        }
    }

    let record = Value::Struct(Entries(vec![(1, Value::UInt(4)), (2, Value::Bool(true))]));
    assert_eq!(
        cor::convert_record::<Pair>(&record),
        Ok(Pair { a: 4, b: true })
    );

    // a non-record value is a type mismatch naming what was found
    let err = cor::convert_record::<Pair>(&Value::UInt(4)).unwrap_err();
    assert_eq!(err.kind, Error::TypeMismatch(Kind::Struct, Kind::UInt));
    assert_eq!(err.key, None);
}

#[test]
fn decoder_parse_runs_the_whole_read_side() {
    #[derive(Debug, PartialEq)]
    struct One {
        n: u64,
    }
    impl cor::Decoder for One {
        fn decode(e: &Entries) -> Result<One, cor::ConvertError> {
            Ok(One { n: e.get_and_convert(1)? })
        }
    }

    let mut buf = Vec::new();
    FieldEncoder::encode(&44u64, &mut buf, 1);
    buf.push(0x0A);
    let mut pos = 0;
    assert_eq!(<One as cor::Decoder>::parse(&buf, &mut pos), Ok(One { n: 44 }));
    assert_eq!(pos, buf.len());

    // a framing error surfaces with no key attached
    let mut pos = 0;
    let err = <One as cor::Decoder>::parse(&[0x1B, 0x0A], &mut pos).unwrap_err();
    assert_eq!(err.kind, Error::UnknownOpcode(11));
    assert_eq!(err.key, None);
}
