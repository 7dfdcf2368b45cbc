use fib_swallow::codec::{read_u64, write_u64};

#[test]
fn read_u64_least_significant_byte_first() {
    let bytes = [1u8, 2, 0, 0, 0, 0, 0, 0];
    assert_eq!(read_u64(&bytes, 0), 513);
}

#[test]
fn read_u64_at_an_offset() {
    let bytes = [9u8, 9, 9, 0x08, 0x07, 0x06, 0x05, 0x04, 0x03, 0x02, 0x01, 9];
    assert_eq!(read_u64(&bytes, 3), 0x0102_0304_0506_0708);
}

#[test]
fn read_u64_largest_value() {
    let bytes = [0xffu8; 8];
    assert_eq!(read_u64(&bytes, 0), u64::MAX);
}

#[test]
fn write_u64_exact_bytes_and_rest_untouched() {
    let mut buffer = [0xaau8; 12];
    write_u64(&mut buffer, 2, 0x0102_0304_0506_0708);
    assert_eq!(
        buffer,
        [0xaa, 0xaa, 0x08, 0x07, 0x06, 0x05, 0x04, 0x03, 0x02, 0x01, 0xaa, 0xaa]
    );
}

#[test]
fn write_u64_agrees_with_std() {
    let values = [0u64, 1, 255, 256, 1_002_240, u64::MAX - 1, u64::MAX];
    for value in values {
        let mut buffer = [0u8; 8];
        write_u64(&mut buffer, 0, value);
        assert_eq!(buffer, value.to_le_bytes());
        assert_eq!(read_u64(&buffer, 0), value);
    }
}
