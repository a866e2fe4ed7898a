use heh::label::{digit_to_char, fill_slice, power_of_two, read_unsigned, Endianness, Handler};

#[test]
fn test_binary_label() {
    // Given a label handler with the content 'hello' and offset of 0
    let content = "hello".as_bytes();
    let mut label_handler = Handler::new(content, 0);
    // The binary label should contain the binary veresion of the first character
    assert!(label_handler.binary.eq("01101000"));

    // When the stream_length is changed to include 8 more binary digits,
    label_handler.stream_length = 16;
    label_handler.update_binary(content);

    // The second character should also be represented
    assert!(label_handler.binary.eq("0110100001100101"));
}

#[test]
fn numbers_are_read_little_end_first() {
    let labels = Handler::new(&[0x01, 0x02, 0x03, 0x04, 0x05, 0x06, 0x07, 0x88], 0);
    assert_eq!(labels.unsigned_eight, 0x01);
    assert_eq!(labels.unsigned_sixteen, 0x0201);
    assert_eq!(labels.unsigned_thirtytwo, 0x0403_0201);
    assert_eq!(labels.unsigned_sixtyfour, 0x8807_0605_0403_0201);
    assert_eq!(labels.signed_eight, 1);
    assert_eq!(labels.signed_sixteen, 0x0201);
    assert_eq!(labels.signed_thirtytwo, 0x0403_0201);
    assert_eq!(labels.signed_sixtyfour, i64::from_le_bytes([1, 2, 3, 4, 5, 6, 7, 0x88]));
    assert_eq!(labels.float_thirtytwo, 0x0403_0201);
    assert_eq!(labels.float_sixtyfour, 0x8807_0605_0403_0201);
}

#[test]
fn numbers_are_read_big_end_first() {
    let bytes = [0xfe, 0x02, 0x03, 0x04, 0x05, 0x06, 0x07, 0x08, 0x09];
    let mut labels = Handler::new(&bytes, 0);
    labels.switch_endianness();
    labels.update_all(&bytes);
    assert_eq!(labels.endianness, Endianness::BigEndian);
    assert_eq!(labels.unsigned_eight, 0xfe);
    assert_eq!(labels.unsigned_sixteen, 0xfe02);
    assert_eq!(labels.unsigned_thirtytwo, 0xfe02_0304);
    assert_eq!(labels.unsigned_sixtyfour, 0xfe02_0304_0506_0708);
    assert_eq!(labels.signed_eight, -2);
    assert_eq!(labels.signed_sixteen, i16::from_be_bytes([0xfe, 0x02]));
    assert_eq!(labels.signed_thirtytwo, i32::from_be_bytes([0xfe, 2, 3, 4]));
    assert_eq!(labels.signed_sixtyfour, i64::from_be_bytes([0xfe, 2, 3, 4, 5, 6, 7, 8]));
    assert_eq!(f32::from_bits(labels.float_thirtytwo), f32::from_be_bytes([0xfe, 2, 3, 4]));
    assert_eq!(
        f64::from_bits(labels.float_sixtyfour),
        f64::from_be_bytes([0xfe, 2, 3, 4, 5, 6, 7, 8])
    );
}

#[test]
fn the_smallest_and_the_largest_numbers() {
    let labels = Handler::new(&[0xff; 8], 0);
    assert_eq!(labels.unsigned_sixtyfour, u64::MAX);
    assert_eq!(labels.signed_sixtyfour, -1);
    assert_eq!(labels.signed_eight, -1);
    let labels = Handler::new(&[0, 0, 0, 0, 0, 0, 0, 0x80], 0);
    assert_eq!(labels.signed_sixtyfour, i64::MIN);
    assert_eq!(labels.signed_thirtytwo, 0);
    let labels = Handler::new(&[0, 0x80, 0, 0x80], 0);
    assert_eq!(labels.signed_sixteen, i16::MIN);
    assert_eq!(labels.signed_thirtytwo, i32::MIN + 0x8000);
    let labels = Handler::new(&[0xff, 0x7f], 0);
    assert_eq!(labels.signed_sixteen, i16::MAX);
    assert_eq!(labels.signed_eight, -1);
    assert_eq!(labels.unsigned_thirtytwo, 0x7fff);
}

#[test]
fn numbers_past_the_end_are_filled_with_zeros() {
    let labels = Handler::new(&[9, 9, 0xab], 2);
    assert_eq!(labels.unsigned_eight, 0xab);
    assert_eq!(labels.unsigned_sixtyfour, 0xab);
    assert_eq!(labels.hexadecimal, "AB");
    let labels = Handler::new(&[9, 9], 2);
    assert_eq!(labels.unsigned_sixtyfour, 0);
    assert_eq!(labels.binary, "00000000");
    assert_eq!(labels.hexadecimal, "00");
    assert_eq!(labels.octal, "000");
}

#[test]
fn streams_show_the_digits_of_the_bytes() {
    let mut labels = Handler::new(&[0xff, 0xff], 0);
    assert_eq!(labels.get_stream_length(), 8);
    assert_eq!(labels.binary, "11111111");
    assert_eq!(labels.octal, "377");
    assert_eq!(labels.hexadecimal, "FF");
    // a stream that ends inside a byte is filled with zeros to its end
    labels.update_stream_length(9);
    labels.update_streams(&[0xff, 0xff]);
    assert_eq!(labels.binary, "111111111");
    assert_eq!(labels.octal, "377 200");
    assert_eq!(labels.hexadecimal, "FF 80");
    labels.update_stream_length(20);
    labels.update_streams(&[0x12, 0xa5, 0xff]);
    assert_eq!(labels.binary, "00010010101001011111");
    assert_eq!(labels.octal, "022 245 360");
    assert_eq!(labels.hexadecimal, "12 A5 F0");
    labels.update_stream_length(0);
    labels.update_streams(&[0x12]);
    assert_eq!(labels.binary, "");
    assert_eq!(labels.octal, "");
    assert_eq!(labels.hexadecimal, "");
    labels.update_stream_length(12);
    labels.update_streams(&[0x12]);
    assert_eq!(labels.binary, "000100100000");
    assert_eq!(labels.hexadecimal, "12 00");
}

#[test]
fn octal_and_hexadecimal_digits() {
    let mut labels = Handler::new(&[], 0);
    labels.update_octal(&[0, 7, 8, 64, 255]);
    assert_eq!(labels.octal, "000 007 010 100 377");
    labels.update_hexadecimal(&[0, 9, 10, 0xbc, 255]);
    assert_eq!(labels.hexadecimal, "00 09 0A BC FF");
    assert_eq!(digit_to_char(0), '0');
    assert_eq!(digit_to_char(9), '9');
    assert_eq!(digit_to_char(10), 'A');
    assert_eq!(digit_to_char(15), 'F');
    assert_eq!(power_of_two(0), 1);
    assert_eq!(power_of_two(7), 128);
    assert_eq!(power_of_two(8), 256);
}

#[test]
fn unsigned_numbers_of_each_width() {
    let bytes = fill_slice(&[0x10, 0x20, 0x30], 8);
    assert_eq!(read_unsigned(&bytes, 1, Endianness::LittleEndian), 0x10);
    assert_eq!(read_unsigned(&bytes, 2, Endianness::BigEndian), 0x1020);
    assert_eq!(read_unsigned(&bytes, 4, Endianness::LittleEndian), 0x0030_2010);
    assert_eq!(read_unsigned(&bytes, 4, Endianness::BigEndian), 0x1020_3000);
    assert_eq!(read_unsigned(&bytes, 8, Endianness::BigEndian), 0x1020_3000_0000_0000);
}

#[test]
fn single_updates_leave_the_rest() {
    let mut labels = Handler::new(&[1, 2, 3, 4, 5, 6, 7, 8], 0);
    let eight = [0xff, 0xfe, 0xfd, 0xfc, 0xfb, 0xfa, 0xf9, 0xf8];
    labels.update_unsigned_eight(&eight);
    assert_eq!(labels.unsigned_eight, 0xff);
    assert_eq!(labels.signed_eight, 1);
    labels.update_signed_eight();
    assert_eq!(labels.signed_eight, -1);
    labels.update_unsigned_sixteen(&eight);
    labels.update_signed_sixteen();
    assert_eq!(labels.signed_sixteen, -257);
    labels.update_unsigned_thirtytwo(&eight);
    labels.update_signed_thirtytwo();
    labels.update_float_thirtytwo();
    assert_eq!(labels.signed_thirtytwo, i32::from_le_bytes([0xff, 0xfe, 0xfd, 0xfc]));
    assert_eq!(labels.float_thirtytwo, 0xfcfd_feff);
    assert_eq!(labels.unsigned_sixtyfour, 0x0807_0605_0403_0201);
    labels.update_unsigned_sixtyfour(&eight);
    labels.update_signed_sixtyfour();
    labels.update_float_sixtyfour();
    assert_eq!(labels.signed_sixtyfour, i64::from_le_bytes(eight));
    assert_eq!(labels.float_sixtyfour, u64::from_le_bytes(eight));
}
