//! The kinds of bytes, by which a byte is shown and coloured.

use crate::text::push_char;
use vstd::prelude::*;

verus! {

/// The kind of a byte.
#[derive(Clone, Copy, Debug, PartialEq, Eq, Structural)]
pub enum ByteCategory {
    Null,
    AsciiPrintable,
    AsciiWhitespace,
    AsciiOther,
    NonAscii,
}

/// The kind of a byte: zero, a character that can be seen, white space,
/// another character below 128, or none of these.
pub open spec fn category_of(byte: u8) -> ByteCategory {
    if byte == 0x00 {
        ByteCategory::Null
    } else if 0x21 <= byte <= 0x7e {
        ByteCategory::AsciiPrintable
    } else if byte == 0x09 || byte == 0x0a || byte == 0x0c || byte == 0x0d || byte == 0x20 {
        ByteCategory::AsciiWhitespace
    } else if byte <= 0x7f {
        ByteCategory::AsciiOther
    } else {
        ByteCategory::NonAscii
    }
}

/// The kind of a byte.
pub fn category(byte: u8) -> (kind: ByteCategory)
    ensures
        kind == category_of(byte),
{
    if byte == 0x00 {
        ByteCategory::Null
    } else if 0x21 <= byte && byte <= 0x7e {
        ByteCategory::AsciiPrintable
    } else if byte == 0x09 || byte == 0x0a || byte == 0x0c || byte == 0x0d || byte == 0x20 {
        ByteCategory::AsciiWhitespace
    } else if byte <= 0x7f {
        ByteCategory::AsciiOther
    } else {
        ByteCategory::NonAscii
    }
}

/// The character that is shown for a byte.
pub open spec fn shown_as(byte: u8) -> char {
    match category_of(byte) {
        ByteCategory::Null => '0',
        ByteCategory::AsciiPrintable => byte as char,
        ByteCategory::AsciiWhitespace => if byte == 0x20 {
            ' '
        } else {
            '_'
        },
        ByteCategory::AsciiOther => '•',
        ByteCategory::NonAscii => '×',
    }
}

/// The text that is shown for a byte: one character.
pub fn as_str(byte: u8) -> (text: String)
    ensures
        text@ == seq![shown_as(byte)],
{
    let shown = match category(byte) {
        ByteCategory::Null => '0',
        ByteCategory::AsciiPrintable => byte as char,
        ByteCategory::AsciiWhitespace => if byte == 0x20 {
            ' '
        } else {
            '_'
        },
        ByteCategory::AsciiOther => '•',
        ByteCategory::NonAscii => '×',
    };
    let mut text = String::new();
    push_char(&mut text, shown);
    assert(text@ =~= seq![shown]);
    text
}

} // verus!
