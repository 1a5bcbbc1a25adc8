use cor::errors::Error;
use cor::leb128::{read_unsigned, write_unsigned};
use cor::utils::{read_buf, read_byte, read_bytes};
use cor::zig_zag;

fn varint(v: u64) -> Vec<u8> {
    let mut w = Vec::new();
    write_unsigned(&mut w, v);
    w
}

#[test]
fn varint_minimal_encodings() {
    assert_eq!(varint(0), vec![0x00]);
    assert_eq!(varint(1), vec![0x01]);
    assert_eq!(varint(127), vec![0x7F]);
    assert_eq!(varint(128), vec![0x80, 0x01]);
    assert_eq!(varint(300), vec![0xAC, 0x02]);
    assert_eq!(varint(16384), vec![0x80, 0x80, 0x01]);
    assert_eq!(
        varint(u64::MAX),
        vec![0xFF, 0xFF, 0xFF, 0xFF, 0xFF, 0xFF, 0xFF, 0xFF, 0xFF, 0x01]
    );
}

#[test]
fn varint_roundtrip_values() {
    for v in [0u64, 1, 127, 128, 129, 300, 16383, 16384, 1 << 35, u64::MAX - 1, u64::MAX] {
        let w = varint(v);
        let mut pos = 0;
        assert_eq!(read_unsigned(&w, &mut pos), Ok(v));
        assert_eq!(pos, w.len());
    }
}

#[test]
fn varint_accepts_padded_form() {
    // a non-minimal but in-budget encoding still reads back
    let w = vec![0x80, 0x00];
    let mut pos = 0;
    assert_eq!(read_unsigned(&w, &mut pos), Ok(0));
    assert_eq!(pos, 2);
}

#[test]
fn varint_overflow_and_eof() {
    // ten continuation groups ask for more than 64 bits of payload
    let w = vec![0x80; 10];
    let mut pos = 0;
    assert_eq!(read_unsigned(&w, &mut pos), Err(Error::VarintOverflow));

    // the tenth group may only carry one payload bit
    let mut w = vec![0xFF; 9];
    w.push(0x02);
    let mut pos = 0;
    assert_eq!(read_unsigned(&w, &mut pos), Err(Error::VarintOverflow));
    let mut w = vec![0xFF; 9];
    w.push(0x01);
    let mut pos = 0;
    assert_eq!(read_unsigned(&w, &mut pos), Ok(u64::MAX));

    // a sequence cut off mid-continuation runs out of bytes
    let w = vec![0x80, 0x80];
    let mut pos = 0;
    assert_eq!(read_unsigned(&w, &mut pos), Err(Error::UnexpectedEof));
}

#[test]
fn zigzag_small_magnitudes_stay_small() {
    assert_eq!(zig_zag::into(0), 0);
    assert_eq!(zig_zag::into(-1), 1);
    assert_eq!(zig_zag::into(1), 2);
    assert_eq!(zig_zag::into(-2), 3);
    assert_eq!(zig_zag::into(2), 4);
    assert_eq!(zig_zag::into(i64::MAX), u64::MAX - 1);
    assert_eq!(zig_zag::into(i64::MIN), u64::MAX);
}

#[test]
fn zigzag_inverse_on_samples() {
    for n in [0i64, 1, -1, 2, -2, 63, -64, 1 << 40, -(1 << 40), i64::MIN, i64::MAX] {
        assert_eq!(zig_zag::from(zig_zag::into(n)), n);
    }
    for u in [0u64, 1, 2, 3, 4, 1 << 33, u64::MAX - 1, u64::MAX] {
        assert_eq!(zig_zag::into(zig_zag::from(u)), u);
    }
}

#[test]
fn cursor_reads_forward_only() {
    let buf = [10u8, 20, 30, 40, 50];
    let mut pos = 0;
    assert_eq!(read_byte(&buf, &mut pos), Ok(10));
    assert_eq!(read_bytes(&buf, &mut pos, 2), Ok(&buf[1..3]));
    assert_eq!(read_buf(&buf, &mut pos, 2), Ok(vec![40, 50]));
    assert_eq!(pos, 5);
    assert_eq!(read_byte(&buf, &mut pos), Err(Error::UnexpectedEof));
    assert_eq!(read_bytes(&buf, &mut pos, 1), Err(Error::UnexpectedEof));
    // a failed read leaves the cursor where it was
    assert_eq!(pos, 5);
}

#[test]
fn error_constructors() {
    assert_eq!(cor::errors::eof(), Error::UnexpectedEof);
    assert_eq!(cor::errors::leb128_err(), Error::VarintOverflow);
    assert_eq!(cor::errors::unknown_opcode(12), Error::UnknownOpcode(12));
    assert_eq!(cor::errors::invalid_input(), Error::NumericOverflow);
}

#[test]
fn header_codec_boundary() {
    // decode_field_ty undoes encode_field_ty at the escape boundary
    for id in [0u32, 1, 14, 15, 16, 270, u32::MAX] {
        let mut w = Vec::new();
        cor::field::encode_field_ty(&mut w, id, 5);
        let mut pos = 0;
        assert_eq!(cor::decoder::decode_field_ty(&w, &mut pos), Ok((id, 5)));
        assert_eq!(pos, w.len());
        assert_eq!(w.len() == 1, id < 15);
    }
}

#[test]
fn try_into_u32_range() {
    assert_eq!(cor::decoder::try_into_u32(0), Ok(0));
    assert_eq!(cor::decoder::try_into_u32(u32::MAX as u64), Ok(u32::MAX));
    assert_eq!(
        cor::decoder::try_into_u32(u32::MAX as u64 + 1),
        Err(Error::NumericOverflow)
    );
}
