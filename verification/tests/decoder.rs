use heh::byte::{as_str, category, ByteCategory};
use heh::character::{Category, RichChar, Type, CHARACTER_FILL, CHARACTER_UNKNOWN};
use heh::chunk::OverlappingChunks;
use heh::decoder::{decode, ByteAlignedDecoder, Encoding, LossyASCIIDecoder, LossyUTF8Decoder};

const TEST_BYTES: &[u8] = b"text, controls \n \r\n, space \t, unicode \xC3\xA4h \xC3\xA0 la \xF0\x9F\x92\xA9, null \x00, invalid \xC0\xF8\xEE";

#[test]
fn test_decoder_ascii() {
    let characters: Vec<_> = decode(TEST_BYTES, Encoding::Ascii);

    assert_eq!(TEST_BYTES.len(), characters.len());
    assert_eq!(
        characters.iter().map(RichChar::escape).collect::<String>(),
        "text, controls _ __, space _, unicode ��h �� la ����, null 0, invalid ���"
    );
}

#[test]
fn test_decoder_utf8() {
    let characters: Vec<_> = decode(TEST_BYTES, Encoding::Utf8);

    assert_eq!(TEST_BYTES.len(), characters.len());
    assert_eq!(
        characters.iter().map(RichChar::escape).collect::<String>(),
        "text, controls _ __, space _, unicode ä•h à• la 💩•••, null 0, invalid ���"
    );
}

#[test]
fn byte_aligned_decoder_gives_fillers_after_a_wide_character() {
    let bytes = "a\u{e4}".as_bytes();
    let mut decoder = ByteAlignedDecoder::new(bytes, Encoding::Utf8);
    assert_eq!(decoder.next(), Some(RichChar::new('a', Category::Ascii)));
    assert_eq!(decoder.next(), Some(RichChar::new('\u{e4}', Category::Unicode)));
    assert_eq!(decoder.next(), Some(RichChar::new(CHARACTER_FILL, Category::Fill)));
    assert_eq!(decoder.next(), None);
    assert_eq!(decoder.next(), None);
}

#[test]
fn ascii_decoder_reads_byte_by_byte() {
    let mut decoder = LossyASCIIDecoder::from(&[0x41, 0x80, 0x7f][..]);
    assert_eq!(decoder.next(), Some(('A', Type::Ascii)));
    assert_eq!(decoder.next(), Some((CHARACTER_UNKNOWN, Type::Unknown)));
    assert_eq!(decoder.next(), Some(('\u{7f}', Type::Ascii)));
    assert_eq!(decoder.next(), None);
}

#[test]
fn utf8_decoder_reads_whole_characters() {
    let mut decoder = LossyUTF8Decoder::from("x\u{20ac}\u{1f4a9}".as_bytes());
    assert_eq!(decoder.next(), Some(('x', Type::Ascii)));
    assert_eq!(decoder.next(), Some(('\u{20ac}', Type::Unicode(3))));
    assert_eq!(decoder.next(), Some(('\u{1f4a9}', Type::Unicode(4))));
    assert_eq!(decoder.next(), None);
}

#[test]
fn utf8_decoder_gives_a_stand_in_for_what_is_no_character() {
    // a character cut off by the end, a byte that continues nothing, an
    // encoding longer than needed, and a byte that begins nothing
    let mut decoder = LossyUTF8Decoder::from(&[0xe2, 0x82][..]);
    assert_eq!(decoder.next(), Some((CHARACTER_UNKNOWN, Type::Unknown)));
    assert_eq!(decoder.next(), Some((CHARACTER_UNKNOWN, Type::Unknown)));
    assert_eq!(decoder.next(), None);
    let mut decoder = LossyUTF8Decoder::from(&[0xc0, 0x80, 0xff, 0x41][..]);
    assert_eq!(decoder.next(), Some((CHARACTER_UNKNOWN, Type::Unknown)));
    assert_eq!(decoder.next(), Some((CHARACTER_UNKNOWN, Type::Unknown)));
    assert_eq!(decoder.next(), Some((CHARACTER_UNKNOWN, Type::Unknown)));
    assert_eq!(decoder.next(), Some(('A', Type::Ascii)));
    assert_eq!(decoder.next(), None);
}

#[test]
fn decoding_nothing_gives_nothing() {
    assert_eq!(decode(b"", Encoding::Utf8), Vec::new());
    assert_eq!(decode(b"", Encoding::Ascii), Vec::new());
}

#[test]
fn characters_have_kinds() {
    assert_eq!(Category::from(&'\0'), Category::Null);
    assert_eq!(Category::from(&' '), Category::Whitespace);
    assert_eq!(Category::from(&'\n'), Category::Whitespace);
    assert_eq!(Category::from(&'\u{3000}'), Category::Whitespace);
    assert_eq!(Category::from(&'\u{1b}'), Category::Control);
    assert_eq!(Category::from(&'\u{9f}'), Category::Control);
    assert_eq!(Category::from(&'a'), Category::Ascii);
    assert_eq!(Category::from(&'~'), Category::Ascii);
    assert_eq!(Category::from(&'\u{e4}'), Category::Unicode);
    assert_eq!(Category::classify('a', true, true), Category::Whitespace);
    assert_eq!(Category::classify('a', false, true), Category::Control);
    assert_eq!(Category::classify('\0', true, true), Category::Null);
    assert_eq!(Category::classify('\u{80}', false, false), Category::Unicode);
    assert_eq!(Category::classify('\u{7f}', false, false), Category::Ascii);
}

#[test]
fn characters_are_shown_by_their_kind() {
    assert_eq!(Category::Null.escape('\0'), '0');
    assert_eq!(Category::Ascii.escape('q'), 'q');
    assert_eq!(Category::Unicode.escape('\u{e4}'), '\u{e4}');
    assert_eq!(Category::Whitespace.escape(' '), ' ');
    assert_eq!(Category::Whitespace.escape('\t'), '_');
    assert_eq!(Category::Control.escape('\u{1b}'), '\u{237e}');
    assert_eq!(Category::Fill.escape('x'), '\u{2022}');
    assert_eq!(Category::Unknown.escape('x'), '\u{fffd}');
    assert_eq!(RichChar::new('\t', Category::Whitespace).escape(), '_');
}

#[test]
fn types_have_sizes() {
    assert_eq!(Type::Ascii.size(), 1);
    assert_eq!(Type::Unknown.size(), 1);
    assert_eq!(Type::Unicode(3).size(), 3);
}

#[test]
fn chunks_overlap() {
    let items = [0, 1, 2, 3, 4, 5, 6, 7, 8, 9];
    let mut chunks = OverlappingChunks::new(&items[..], 4, 2);
    assert_eq!(chunks.next(), Some(&items[0..6]));
    assert_eq!(chunks.next(), Some(&items[4..10]));
    assert_eq!(chunks.next(), Some(&items[8..10]));
    assert_eq!(chunks.next(), None);
    assert_eq!(chunks.next(), None);
    let mut none = OverlappingChunks::new(&items[..0], 4, 2);
    assert_eq!(none.next(), None);
    let mut huge = OverlappingChunks::new(&items[..], usize::MAX, 1);
    assert_eq!(huge.next(), Some(&items[..]));
    assert_eq!(huge.next(), None);
}

#[test]
fn bytes_have_kinds() {
    assert_eq!(category(0x00), ByteCategory::Null);
    assert_eq!(category(b'a'), ByteCategory::AsciiPrintable);
    assert_eq!(category(b'~'), ByteCategory::AsciiPrintable);
    assert_eq!(category(b' '), ByteCategory::AsciiWhitespace);
    assert_eq!(category(b'\n'), ByteCategory::AsciiWhitespace);
    assert_eq!(category(0x0b), ByteCategory::AsciiOther);
    assert_eq!(category(0x7f), ByteCategory::AsciiOther);
    assert_eq!(category(0x80), ByteCategory::NonAscii);
    for byte in 0..=255u8 {
        let expected = if byte == 0 {
            ByteCategory::Null
        } else if byte.is_ascii_graphic() {
            ByteCategory::AsciiPrintable
        } else if byte.is_ascii_whitespace() {
            ByteCategory::AsciiWhitespace
        } else if byte.is_ascii() {
            ByteCategory::AsciiOther
        } else {
            ByteCategory::NonAscii
        };
        assert_eq!(category(byte), expected);
    }
}

#[test]
fn bytes_are_shown_by_their_kind() {
    assert_eq!(as_str(0x00), "0");
    assert_eq!(as_str(b'a'), "a");
    assert_eq!(as_str(b' '), " ");
    assert_eq!(as_str(b'\t'), "_");
    assert_eq!(as_str(0x01), "\u{2022}");
    assert_eq!(as_str(0xff), "\u{d7}");
}
