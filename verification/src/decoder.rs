//! How the bytes of the contents are read as text.
//!
//! A decoder walks through bytes and gives one character for each step, with
//! the number of bytes that it was read from. Bytes that are no character give
//! a stand-in, one byte at a time. The byte-aligned decoder gives one
//! character for each byte: after a character that was read from several
//! bytes it gives a filler for each byte but the first.

use crate::character::{Category, RichChar, Type, CHARACTER_FILL, CHARACTER_UNKNOWN};
use vstd::prelude::*;
use vstd::string::StrSliceExecFns;
use vstd::utf8::{decode_utf8, valid_utf8};

verus! {

/// The encoding in which the text side of the editor reads the bytes.
#[derive(Copy, Clone, Debug, PartialEq, Eq, Structural)]
pub enum Encoding {
    Ascii,
    Utf8,
}

/// The encoding as it is chosen on the command line.
#[derive(Copy, Clone, Debug, PartialEq, Eq, PartialOrd, Ord, Structural)]
pub enum EncodingOption {
    Ascii,
    Utf8,
}

impl Encoding {
    /// The encoding that was chosen.
    pub fn from(encoding: EncodingOption) -> (chosen: Encoding)
        ensures
            chosen == match encoding {
                EncodingOption::Ascii => Encoding::Ascii,
                EncodingOption::Utf8 => Encoding::Utf8,
            },
    {
        match encoding {
            EncodingOption::Ascii => Encoding::Ascii,
            EncodingOption::Utf8 => Encoding::Utf8,
        }
    }
}

/// What the decoder for ASCII gives for a byte.
pub open spec fn ascii_item(byte: u8) -> (char, Type) {
    if byte <= 0x7f {
        (byte as char, Type::Ascii)
    } else {
        (CHARACTER_UNKNOWN, Type::Unknown)
    }
}

/// A decoder that reads each byte below 128 as the character with that code.
pub struct LossyASCIIDecoder<'a> {
    pub bytes: &'a [u8],
    pub cursor: usize,
}

impl<'a> LossyASCIIDecoder<'a> {
    /// A decoder at the start of the bytes.
    pub fn from(bytes: &'a [u8]) -> (decoder: Self)
        ensures
            decoder.bytes == bytes,
            decoder.cursor == 0,
    {
        Self { bytes, cursor: 0 }
    }

    /// The character at the cursor, if the bytes have not ended, and the
    /// cursor moved behind it.
    pub fn next(&mut self) -> (item: Option<(char, Type)>)
        ensures
            final(self).bytes == old(self).bytes,
            old(self).cursor < old(self).bytes@.len() ==> {
                &&& item == Some(ascii_item(old(self).bytes@[old(self).cursor as int]))
                &&& final(self).cursor == old(self).cursor + 1
            },
            old(self).cursor >= old(self).bytes@.len() ==> {
                &&& item is None
                &&& final(self).cursor == old(self).cursor
            },
    {
        if self.cursor < self.bytes.len() {
            let byte = self.bytes[self.cursor];
            self.cursor += 1;
            if byte <= 0x7f {
                Some((byte as char, Type::Ascii))
            } else {
                Some((CHARACTER_UNKNOWN, Type::Unknown))
            }
        } else {
            None
        }
    }
}

/// The number of bytes that a character takes whose first byte is `lead`, if
/// a character can begin with it.
pub open spec fn width_of(lead: u8) -> Option<usize> {
    if lead <= 0x7f {
        Some(1)
    } else if 0xc0 <= lead <= 0xdf {
        Some(2)
    } else if 0xe0 <= lead <= 0xef {
        Some(3)
    } else if 0xf0 <= lead <= 0xf7 {
        Some(4)
    } else {
        None
    }
}

/// What the decoder for UTF-8 gives at `cursor`. Where a character can begin
/// with the byte there, and the bytes that it would take are there and are
/// UTF-8, it is that character. Otherwise it is the stand-in for one byte.
pub open spec fn utf8_item(bytes: Seq<u8>, cursor: int) -> (char, Type) {
    match width_of(bytes[cursor]) {
        Some(width) => {
            let end = if cursor + width <= bytes.len() {
                cursor + width
            } else {
                bytes.len() as int
            };
            let chunk = bytes.subrange(cursor, end);
            if valid_utf8(chunk) {
                (
                    decode_utf8(chunk)[0],
                    if width == 1 {
                        Type::Ascii
                    } else {
                        Type::Unicode(width)
                    },
                )
            } else {
                (CHARACTER_UNKNOWN, Type::Unknown)
            }
        },
        None => (CHARACTER_UNKNOWN, Type::Unknown),
    }
}

/// Calls `core::str::from_utf8` and drops the reason of a failure. The call
/// succeeds on bytes that are UTF-8 and on no others, and the text that it
/// returns is made of the characters that the bytes encode.
#[verifier::external_body]
fn text_of(bytes: &[u8]) -> (text: Option<&str>)
    ensures
        text is Some <==> valid_utf8(bytes@),
        text is Some ==> text.unwrap()@ == decode_utf8(bytes@),
{
    core::str::from_utf8(bytes).ok()
}

/// A decoder that reads the bytes as UTF-8.
pub struct LossyUTF8Decoder<'a> {
    pub bytes: &'a [u8],
    pub cursor: usize,
}

impl<'a> LossyUTF8Decoder<'a> {
    /// A decoder at the start of the bytes.
    pub fn from(bytes: &'a [u8]) -> (decoder: Self)
        ensures
            decoder.bytes == bytes,
            decoder.cursor == 0,
    {
        LossyUTF8Decoder { bytes, cursor: 0 }
    }

    /// The character at the cursor, if the bytes have not ended, and the
    /// cursor moved behind the bytes that the character was read from.
    pub fn next(&mut self) -> (item: Option<(char, Type)>)
        ensures
            final(self).bytes == old(self).bytes,
            old(self).cursor < old(self).bytes@.len() ==> {
                &&& item == Some(utf8_item(old(self).bytes@, old(self).cursor as int))
                &&& final(self).cursor == old(self).cursor + item.unwrap().1.spec_size()
                &&& final(self).cursor <= old(self).bytes@.len()
            },
            old(self).cursor >= old(self).bytes@.len() ==> {
                &&& item is None
                &&& final(self).cursor == old(self).cursor
            },
    {
        if self.cursor < self.bytes.len() {
            let lead = self.bytes[self.cursor];
            let typ = if lead <= 0x7f {
                Type::Ascii
            } else if 0xc0 <= lead && lead <= 0xdf {
                Type::Unicode(2)
            } else if 0xe0 <= lead && lead <= 0xef {
                Type::Unicode(3)
            } else if 0xf0 <= lead && lead <= 0xf7 {
                Type::Unicode(4)
            } else {
                self.cursor += 1;
                return Some((CHARACTER_UNKNOWN, Type::Unknown));
            };
            let len = self.bytes.len();
            let new_cursor = if typ.size() <= len - self.cursor {
                self.cursor + typ.size()
            } else {
                len
            };
            let chunk = vstd::slice::slice_subrange(self.bytes, self.cursor, new_cursor);
            match text_of(chunk) {
                Some(text) => {
                    proof {
                        lemma_whole_character(chunk@);
                    }
                    let character = text.get_char(0);
                    self.cursor += typ.size();
                    Some((character, typ))
                },
                None => {
                    self.cursor += 1;
                    Some((CHARACTER_UNKNOWN, Type::Unknown))
                },
            }
        } else {
            None
        }
    }
}

/// Bytes that are UTF-8 and begin with the first byte of a character hold all
/// the bytes of that character, and encode at least that character.
pub proof fn lemma_whole_character(chunk: Seq<u8>)
    requires
        chunk.len() > 0,
        valid_utf8(chunk),
    ensures
        decode_utf8(chunk).len() > 0,
        width_of(chunk[0]) is Some,
        width_of(chunk[0]).unwrap() <= chunk.len(),
{
    let lead = chunk[0];
    assert(vstd::utf8::valid_first_scalar(chunk));
    assert(vstd::utf8::is_leading_byte_width_1(lead) <==> lead <= 0x7f) by (bit_vector);
    assert(vstd::utf8::is_leading_byte_width_2(lead) <==> 0xc0 <= lead <= 0xdf) by (bit_vector);
    assert(vstd::utf8::is_leading_byte_width_3(lead) <==> 0xe0 <= lead <= 0xef) by (bit_vector);
    assert(vstd::utf8::is_leading_byte_width_4(lead) <==> 0xf0 <= lead <= 0xf7) by (bit_vector);
}

/// One of the two decoders.
pub enum Decoder<'a> {
    Ascii(LossyASCIIDecoder<'a>),
    Utf8(LossyUTF8Decoder<'a>),
}

impl<'a> Decoder<'a> {
    /// The bytes that the decoder walks through.
    pub open spec fn bytes(&self) -> Seq<u8> {
        match self {
            Decoder::Ascii(decoder) => decoder.bytes@,
            Decoder::Utf8(decoder) => decoder.bytes@,
        }
    }

    /// Where the decoder stands.
    pub open spec fn cursor(&self) -> int {
        match self {
            Decoder::Ascii(decoder) => decoder.cursor as int,
            Decoder::Utf8(decoder) => decoder.cursor as int,
        }
    }

    /// The encoding that the decoder reads.
    pub open spec fn encoding(&self) -> Encoding {
        match self {
            Decoder::Ascii(_) => Encoding::Ascii,
            Decoder::Utf8(_) => Encoding::Utf8,
        }
    }
}

/// What a decoder for the given encoding gives at `cursor`.
pub open spec fn item_at(encoding: Encoding, bytes: Seq<u8>, cursor: int) -> (char, Type) {
    match encoding {
        Encoding::Ascii => ascii_item(bytes[cursor]),
        Encoding::Utf8 => utf8_item(bytes, cursor),
    }
}

/// The character with its kind that is shown for what a decoder gave.
pub open spec fn rich_item(item: (char, Type)) -> RichChar {
    RichChar {
        character: item.0,
        category: match item.1 {
            Type::Unknown => Category::Unknown,
            _ => crate::character::category_of(
                item.0,
                crate::character::is_whitespace_char(item.0),
                crate::character::is_control_char(item.0),
            ),
        },
    }
}

/// A decoder that gives one character for each byte.
pub struct ByteAlignedDecoder<'a> {
    pub decoder: Decoder<'a>,
    pub to_fill: usize,
}

impl<'a> ByteAlignedDecoder<'a> {
    /// A decoder for the given encoding at the start of the bytes.
    pub fn new(bytes: &'a [u8], encoding: Encoding) -> (decoder: Self)
        ensures
            decoder.decoder.bytes() == bytes@,
            decoder.decoder.cursor() == 0,
            decoder.decoder.encoding() == encoding,
            decoder.to_fill == 0,
    {
        let decoder = match encoding {
            Encoding::Ascii => Decoder::Ascii(LossyASCIIDecoder::from(bytes)),
            Encoding::Utf8 => Decoder::Utf8(LossyUTF8Decoder::from(bytes)),
        };
        Self { decoder, to_fill: 0 }
    }

    /// The next character. After a character that was read from several
    /// bytes, this is a filler for each byte but the first. Nothing is given
    /// once the bytes have ended.
    pub fn next(&mut self) -> (rich: Option<RichChar>)
        ensures
            final(self).decoder.bytes() == old(self).decoder.bytes(),
            final(self).decoder.encoding() == old(self).decoder.encoding(),
            old(self).to_fill > 0 ==> {
                &&& rich == Some(
                    RichChar { character: CHARACTER_FILL, category: Category::Fill },
                )
                &&& final(self).to_fill == old(self).to_fill - 1
                &&& final(self).decoder.cursor() == old(self).decoder.cursor()
            },
            old(self).to_fill == 0 && old(self).decoder.cursor() < old(self).decoder.bytes().len()
                ==> {
                let item = item_at(
                    old(self).decoder.encoding(),
                    old(self).decoder.bytes(),
                    old(self).decoder.cursor(),
                );
                &&& rich == Some(rich_item(item))
                &&& final(self).to_fill == item.1.spec_size() - 1
                &&& final(self).decoder.cursor() == old(self).decoder.cursor()
                    + item.1.spec_size()
                &&& final(self).decoder.cursor() <= old(self).decoder.bytes().len()
            },
            old(self).to_fill == 0 && old(self).decoder.cursor() >= old(self).decoder.bytes().len()
                ==> {
                &&& rich is None
                &&& final(self).to_fill == 0
                &&& final(self).decoder.cursor() == old(self).decoder.cursor()
            },
    {
        if self.to_fill == 0 {
            let item = match &mut self.decoder {
                Decoder::Ascii(decoder) => decoder.next(),
                Decoder::Utf8(decoder) => decoder.next(),
            };
            match item {
                Some((character, typ)) => {
                    let category = match typ {
                        Type::Unknown => Category::Unknown,
                        _ => Category::from(&character),
                    };
                    self.to_fill = typ.size() - 1;
                    Some(RichChar::new(character, category))
                },
                None => None,
            }
        } else {
            self.to_fill -= 1;
            Some(RichChar::new(CHARACTER_FILL, Category::Fill))
        }
    }
}

/// The filler that stands for a byte that belongs to the character before it.
pub open spec fn filler() -> RichChar {
    RichChar { character: CHARACTER_FILL, category: Category::Fill }
}

/// What the byte-aligned decoder gives for the bytes from `cursor` on: for
/// each character that the decoder of the encoding reads, the character and
/// then a filler for each byte but the first that it was read from.
pub open spec fn aligned_from(encoding: Encoding, bytes: Seq<u8>, cursor: int) -> Seq<RichChar>
    decreases bytes.len() - cursor,
{
    if cursor < 0 || cursor >= bytes.len() {
        Seq::empty()
    } else {
        let item = item_at(encoding, bytes, cursor);
        let width = if item.1.spec_size() > 1 {
            item.1.spec_size() as int
        } else {
            1
        };
        seq![rich_item(item)] + Seq::new((width - 1) as nat, |i: int| filler()) + aligned_from(
            encoding,
            bytes,
            cursor + width,
        )
    }
}

/// Reads all the bytes in the given encoding. There is one character for
/// each byte.
pub fn decode(bytes: &[u8], encoding: Encoding) -> (characters: Vec<RichChar>)
    ensures
        characters@ == aligned_from(encoding, bytes@, 0),
        characters.len() == bytes.len(),
{
    let mut decoder = ByteAlignedDecoder::new(bytes, encoding);
    let mut characters: Vec<RichChar> = Vec::new();
    proof {
        assert(characters@ + Seq::new(0, |i: int| filler()) + aligned_from(encoding, bytes@, 0)
            =~= aligned_from(encoding, bytes@, 0));
    }
    loop
        invariant
            decoder.decoder.bytes() == bytes@,
            decoder.decoder.encoding() == encoding,
            0 <= decoder.decoder.cursor() <= bytes@.len(),
            characters.len() + decoder.to_fill == decoder.decoder.cursor(),
            aligned_from(encoding, bytes@, 0) == characters@ + Seq::new(
                decoder.to_fill as nat,
                |i: int| filler(),
            ) + aligned_from(encoding, bytes@, decoder.decoder.cursor()),
        ensures
            characters@ == aligned_from(encoding, bytes@, 0),
            characters.len() == bytes.len(),
        decreases bytes@.len() - characters.len(),
    {
        let ghost before = characters@;
        let ghost to_fill = decoder.to_fill as nat;
        let ghost cursor = decoder.decoder.cursor();
        match decoder.next() {
            Some(rich) => {
                characters.push(rich);
                proof {
                    let rest = aligned_from(encoding, bytes@, decoder.decoder.cursor());
                    if to_fill > 0 {
                        assert(before + Seq::new(to_fill, |i: int| filler()) + rest
                            =~= characters@ + Seq::new((to_fill - 1) as nat, |i: int| filler())
                            + rest);
                    } else {
                        assert(before + Seq::new(0, |i: int| filler()) + aligned_from(
                            encoding,
                            bytes@,
                            cursor,
                        ) =~= characters@ + Seq::new(decoder.to_fill as nat, |i: int| filler())
                            + rest);
                    }
                }
            },
            None => {
                proof {
                    assert(before + Seq::new(0, |i: int| filler()) + aligned_from(
                        encoding,
                        bytes@,
                        cursor,
                    ) =~= before);
                }
                break ;
            },
        }
    }
    characters
}

} // verus!
