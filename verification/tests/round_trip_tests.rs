use gd_codec::order::ByteOrder;
use gd_codec::reader::Reader;
use gd_codec::stream::MemoryStream;
use gd_codec::writer::Writer;

const ORDERS: [ByteOrder; 2] = [ByteOrder::Little, ByteOrder::Big];

fn replay(w: Writer<MemoryStream>, order: ByteOrder) -> Reader<MemoryStream> {
    Reader::new(MemoryStream::new(w.stream.output), Some(order))
}

#[test]
fn u8_round_trips() {
    for order in ORDERS {
        for v in [0u8, 1, 0x7F, 0x80, 0xFF] {
            let mut w = Writer::new(MemoryStream::new(Vec::new()), Some(order));
            assert_eq!(w.write_u8(v), Ok(()));
            assert_eq!(replay(w, order).read_u8(), Ok(v));
        }
    }
}

#[test]
fn u16_round_trips() {
    for order in ORDERS {
        for v in [0u16, 1, 0x1234, 0x8000, u16::MAX] {
            let mut w = Writer::new(MemoryStream::new(Vec::new()), Some(order));
            assert_eq!(w.write_u16(v), Ok(()));
            assert_eq!(replay(w, order).read_u16(), Ok(v));
        }
    }
}

#[test]
fn u32_round_trips() {
    for order in ORDERS {
        for v in [0u32, 1, 0xDEAD_BEEF, u32::MAX] {
            let mut w = Writer::new(MemoryStream::new(Vec::new()), Some(order));
            assert_eq!(w.write_u32(v), Ok(()));
            assert_eq!(replay(w, order).read_u32(), Ok(v));
        }
    }
}

#[test]
fn u64_round_trips() {
    for order in ORDERS {
        for v in [0u64, 1, 0x0123_4567_89AB_CDEF, u64::MAX] {
            let mut w = Writer::new(MemoryStream::new(Vec::new()), Some(order));
            assert_eq!(w.write_u64(v), Ok(()));
            assert_eq!(replay(w, order).read_u64(), Ok(v));
        }
    }
}

#[test]
fn i8_round_trips() {
    for order in ORDERS {
        for v in [i8::MIN, -1, 0, 1, i8::MAX] {
            let mut w = Writer::new(MemoryStream::new(Vec::new()), Some(order));
            assert_eq!(w.write_i8(v), Ok(()));
            assert_eq!(replay(w, order).read_i8(), Ok(v));
        }
    }
}

#[test]
fn i16_round_trips() {
    for order in ORDERS {
        for v in [i16::MIN, -1, 0, 1, 0x1234, i16::MAX] {
            let mut w = Writer::new(MemoryStream::new(Vec::new()), Some(order));
            assert_eq!(w.write_i16(v), Ok(()));
            assert_eq!(replay(w, order).read_i16(), Ok(v));
        }
    }
}

#[test]
fn i32_round_trips() {
    for order in ORDERS {
        for v in [i32::MIN, -1, 0, 1, -0x1234_5678, i32::MAX] {
            let mut w = Writer::new(MemoryStream::new(Vec::new()), Some(order));
            assert_eq!(w.write_i32(v), Ok(()));
            assert_eq!(replay(w, order).read_i32(), Ok(v));
        }
    }
}

#[test]
fn i64_round_trips() {
    for order in ORDERS {
        for v in [i64::MIN, -1, 0, 1, -0x0123_4567_89AB_CDEF, i64::MAX] {
            let mut w = Writer::new(MemoryStream::new(Vec::new()), Some(order));
            assert_eq!(w.write_i64(v), Ok(()));
            assert_eq!(replay(w, order).read_i64(), Ok(v));
        }
    }
}

#[test]
fn bytes_round_trip_through_decode_then_encode() {
    let bytes: Vec<u8> = vec![0x00, 0xFF, 0x12, 0x34];
    for order in ORDERS {
        let value = gd_codec::codec::decode_unsigned(&bytes, order);
        let encoded = gd_codec::codec::encode_unsigned(value, bytes.len(), order);
        assert_eq!(encoded, bytes);
    }
}

#[test]
fn encode_unsigned_concrete_bytes() {
    assert_eq!(
        gd_codec::codec::encode_unsigned(0x0201, 2, ByteOrder::Little),
        vec![0x01, 0x02]
    );
    assert_eq!(
        gd_codec::codec::encode_unsigned(0x0201, 2, ByteOrder::Big),
        vec![0x02, 0x01]
    );
    assert_eq!(
        gd_codec::codec::decode_unsigned(&[0x01, 0x02], ByteOrder::Little),
        0x0201
    );
    assert_eq!(
        gd_codec::codec::decode_unsigned(&[0x01, 0x02], ByteOrder::Big),
        0x0102
    );
}
