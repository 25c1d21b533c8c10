use nrf24_driver::bridge::{line_step, pad_line, read_by_chunks, u64_from_be_bytes, LineEvent};

#[test]
fn be_bytes_decode_exact_value() {
    assert_eq!(u64_from_be_bytes(&vec![0, 0, 0, 0, 0, 0, 1, 2]), 258);
    assert_eq!(
        u64_from_be_bytes(&vec![0xFF; 8]),
        u64::MAX,
    );
    assert_eq!(
        u64_from_be_bytes(&vec![0x01, 0x02, 0x03, 0x04, 0x05, 0x06, 0x07, 0x08]),
        0x0102030405060708,
    );
}

#[test]
fn chunks_split_big_endian_words() {
    let mut buf = vec![0u8; 256];
    buf[7] = 1;
    buf[15] = 2;
    buf[16] = 0x10;
    buf[31] = 0xFF;
    let words = read_by_chunks(&buf);
    assert_eq!(words, vec![1, 2, 0x1000000000000000, 0xFF]);
}

#[test]
fn line_reader_collects_until_line_end() {
    let mut buf = vec![0u8; 4];
    let (len, done) = line_step(&mut buf, 0, LineEvent::Byte(b'h'));
    assert_eq!((len, done), (1, false));
    let (len, done) = line_step(&mut buf, len, LineEvent::Byte(b'i'));
    assert_eq!((len, done), (2, false));
    let (len, done) = line_step(&mut buf, len, LineEvent::Byte(b'\r'));
    assert_eq!((len, done), (2, true));
    pad_line(&mut buf, len);
    assert_eq!(buf, vec![b'h', b'i', 0, 0]);
}

#[test]
fn line_reader_stops_on_full_buffer() {
    let mut buf = vec![0u8; 2];
    let (len, _) = line_step(&mut buf, 0, LineEvent::Byte(b'a'));
    let (len, _) = line_step(&mut buf, len, LineEvent::Byte(b'b'));
    let (len, done) = line_step(&mut buf, len, LineEvent::Byte(b'c'));
    assert_eq!((len, done), (2, true));
    assert_eq!(buf, vec![b'a', b'b']);
}

#[test]
fn line_reader_stops_on_silence() {
    let mut buf = vec![0u8; 4];
    let (len, _) = line_step(&mut buf, 0, LineEvent::Byte(b'x'));
    let (len, done) = line_step(&mut buf, len, LineEvent::Silence);
    assert_eq!((len, done), (1, true));
    pad_line(&mut buf, len);
    assert_eq!(buf, vec![b'x', 0, 0, 0]);
}
