use gd_codec::error::{CodecError, StreamError};
use gd_codec::order::ByteOrder;
use gd_codec::stream::{FaultyStream, MemoryStream};
use gd_codec::writer::Writer;

fn fresh_writer(order: Option<ByteOrder>) -> Writer<MemoryStream> {
    Writer::new(MemoryStream::new(Vec::new()), order)
}

#[test]
fn write_i8_minus_one_emits_ff_either_order() {
    let mut w = fresh_writer(Some(ByteOrder::Little));
    assert_eq!(w.write_i8(-1), Ok(()));
    assert_eq!(w.stream.output, vec![0xFF]);

    let mut w = fresh_writer(Some(ByteOrder::Big));
    assert_eq!(w.write_i8(-1), Ok(()));
    assert_eq!(w.stream.output, vec![0xFF]);
}

#[test]
fn write_u16_little_puts_low_byte_first() {
    let mut w = fresh_writer(Some(ByteOrder::Little));
    assert_eq!(w.write_u16(0x0201), Ok(()));
    assert_eq!(w.stream.output, vec![0x01, 0x02]);
}

#[test]
fn write_u16_big_puts_high_byte_first() {
    let mut w = fresh_writer(Some(ByteOrder::Big));
    assert_eq!(w.write_u16(0x0201), Ok(()));
    assert_eq!(w.stream.output, vec![0x02, 0x01]);
}

#[test]
fn default_order_writes_little() {
    let mut w = fresh_writer(None);
    assert_eq!(w.write_u32(0x0403_0201), Ok(()));
    assert_eq!(w.stream.output, vec![0x01, 0x02, 0x03, 0x04]);
}

#[test]
fn write_u64_both_orders() {
    let mut w = fresh_writer(Some(ByteOrder::Little));
    assert_eq!(w.write_u64(0x0807_0605_0403_0201), Ok(()));
    assert_eq!(
        w.stream.output,
        vec![0x01, 0x02, 0x03, 0x04, 0x05, 0x06, 0x07, 0x08]
    );

    let mut w = fresh_writer(Some(ByteOrder::Big));
    assert_eq!(w.write_u64(0x0807_0605_0403_0201), Ok(()));
    assert_eq!(
        w.stream.output,
        vec![0x08, 0x07, 0x06, 0x05, 0x04, 0x03, 0x02, 0x01]
    );
}

#[test]
fn write_i16_min_both_orders() {
    let mut w = fresh_writer(Some(ByteOrder::Little));
    assert_eq!(w.write_i16(i16::MIN), Ok(()));
    assert_eq!(w.stream.output, vec![0x00, 0x80]);

    let mut w = fresh_writer(Some(ByteOrder::Big));
    assert_eq!(w.write_i16(i16::MIN), Ok(()));
    assert_eq!(w.stream.output, vec![0x80, 0x00]);
}

#[test]
fn writes_append_in_order() {
    let mut w = fresh_writer(Some(ByteOrder::Big));
    assert_eq!(w.write_u8(0xAA), Ok(()));
    assert_eq!(w.write_u16(0x0102), Ok(()));
    assert_eq!(w.write_i8(-2), Ok(()));
    assert_eq!(w.stream.output, vec![0xAA, 0x01, 0x02, 0xFE]);
}

#[test]
fn write_slice_forwards_bytes_unchanged() {
    let mut w = fresh_writer(None);
    assert_eq!(w.write_slice(&[0x01, 0x02, 0x03]), Ok(()));
    assert_eq!(w.stream.output, vec![0x01, 0x02, 0x03]);
}

#[test]
fn faulty_stream_write_error_passes_through() {
    let mut w = Writer::new(FaultyStream { code: 42 }, None);
    assert_eq!(
        w.write_u32(5),
        Err(CodecError::Stream(StreamError { code: 42 }))
    );
}
