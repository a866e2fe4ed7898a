//! The labels below the editors: the numbers and the streams of digits that
//! the bytes at the cursor are read as, and what the user is told.
//!
//! The numbers are kept as numbers, and the two floating-point labels as the
//! bit patterns of their numbers. Turning them into text is left to whoever
//! shows them.

use crate::text::push_char;
use vstd::prelude::*;

verus! {

/// The byte order in which the labels read numbers.
#[derive(Copy, Clone, Debug, PartialEq, Eq, Structural)]
pub enum Endianness {
    LittleEndian,
    BigEndian,
}

/// What the user is told after an action.
#[derive(Copy, Clone, Debug, PartialEq, Eq, Structural)]
pub enum Notification {
    /// Nothing to tell.
    Nothing,
    /// A search was asked for with an empty query.
    EmptySearchQuery,
    /// The query occurs nowhere in the contents.
    QueryNotFound,
    /// The cursor was moved to a match: its position in the list of matches,
    /// counted from one, and the number of matches.
    SearchMatch { position: usize, total: usize },
    /// A jump was asked for to an offset that the contents do not have.
    InvalidRange,
    /// A jump was asked for with something that is no number.
    InvalidNumber(crate::windows::jump_to_byte::ParseFailure),
    /// A character was typed into the hexadecimal editor that is no
    /// hexadecimal digit.
    InvalidHex(char),
    /// The contents were written back to the file.
    Saved,
    /// The byte order of the number labels was turned round, to the one given.
    EndiannessSwitched(Endianness),
    /// The label with the given number was copied to the clipboard.
    Copied(usize),
    /// There is no clipboard to copy a label to.
    NoClipboard,
}

/// Two to the power of `exponent`.
pub open spec fn two_to(exponent: nat) -> int
    decreases exponent,
{
    if exponent == 0 {
        1
    } else {
        2 * two_to((exponent - 1) as nat)
    }
}

/// Two to the power of `exponent`, for the exponents that a byte has.
pub fn power_of_two(exponent: usize) -> (power: usize)
    requires
        exponent <= 8,
    ensures
        power == two_to(exponent as nat),
        1 <= power <= 256,
{
    proof {
        reveal_with_fuel(two_to, 10);
    }
    if exponent == 0 {
        1
    } else if exponent == 1 {
        2
    } else if exponent == 2 {
        4
    } else if exponent == 3 {
        8
    } else if exponent == 4 {
        16
    } else if exponent == 5 {
        32
    } else if exponent == 6 {
        64
    } else if exponent == 7 {
        128
    } else {
        256
    }
}

/// The number that bytes stand for without a sign, the first byte counting
/// least in little-endian order and most in big-endian order.
pub open spec fn unsigned_of(bytes: Seq<u8>, endianness: Endianness) -> int
    decreases bytes.len(),
{
    if bytes.len() == 0 {
        0
    } else {
        match endianness {
            Endianness::LittleEndian => bytes[0] + 256 * unsigned_of(
                bytes.drop_first(),
                endianness,
            ),
            Endianness::BigEndian => bytes.last() + 256 * unsigned_of(
                bytes.drop_last(),
                endianness,
            ),
        }
    }
}

/// The number that a number without a sign below `half + half` stands for in
/// two's complement.
pub open spec fn signed_of(unsigned: int, half: int) -> int {
    if unsigned >= half {
        unsigned - half - half
    } else {
        unsigned
    }
}

/// The number that the first `width` of eight bytes stand for, `width` being
/// 1, 2, 4 or 8.
pub fn read_unsigned(bytes: &[u8], width: usize, endianness: Endianness) -> (value: u64)
    requires
        bytes.len() == 8,
        width == 1 || width == 2 || width == 4 || width == 8,
    ensures
        value == unsigned_of(bytes@.subrange(0, width as int), endianness),
        width == 1 ==> value <= u8::MAX,
        width == 2 ==> value <= u16::MAX,
        width == 4 ==> value <= u32::MAX,
{
    let ghost part = bytes@.subrange(0, width as int);
    let mut value: u64 = 0;
    let mut count: usize = 0;
    let mut limit: u64 = 1;
    while count < width
        invariant
            count <= width <= 8,
            bytes.len() == 8,
            part == bytes@.subrange(0, width as int),
            count == 0 ==> limit == 1,
            count == 1 ==> limit == 0x100,
            count == 2 ==> limit == 0x1_0000,
            count == 3 ==> limit == 0x100_0000,
            count == 4 ==> limit == 0x1_0000_0000,
            count == 5 ==> limit == 0x100_0000_0000,
            count == 6 ==> limit == 0x1_0000_0000_0000,
            count == 7 ==> limit == 0x100_0000_0000_0000,
            count < 8 ==> value < limit,
            endianness == Endianness::LittleEndian ==> value == unsigned_of(
                part.subrange(width - count, width as int),
                endianness,
            ),
            endianness == Endianness::BigEndian ==> value == unsigned_of(
                part.subrange(0, count as int),
                endianness,
            ),
        decreases width - count,
    {
        let byte = match endianness {
            Endianness::LittleEndian => bytes[width - count - 1],
            Endianness::BigEndian => bytes[count],
        };
        proof {
            let longer = part.subrange(width - count - 1, width as int);
            assert(longer.drop_first() =~= part.subrange(width - count, width as int));
            let wider = part.subrange(0, count + 1);
            assert(wider.drop_last() =~= part.subrange(0, count as int));
        }
        value = value * 256 + byte as u64;
        count += 1;
        if count < 8 {
            limit = limit * 256;
        }
    }
    proof {
        assert(part.subrange(0, width as int) =~= part);
    }
    value
}

/// The numbers that the eight bytes at the cursor are read as, and the streams
/// of digits that the bytes from the cursor on are read as.
pub struct Handler {
    pub signed_eight: i8,
    pub signed_sixteen: i16,
    pub signed_thirtytwo: i32,
    pub signed_sixtyfour: i64,
    pub unsigned_eight: u8,
    pub unsigned_sixteen: u16,
    pub unsigned_thirtytwo: u32,
    pub unsigned_sixtyfour: u64,
    /// The bit pattern of the number with 32 bits.
    pub float_thirtytwo: u32,
    /// The bit pattern of the number with 64 bits.
    pub float_sixtyfour: u64,
    /// The binary digits of the stream.
    pub binary: String,
    /// The octal digits of the bytes of the stream.
    pub octal: String,
    /// The hexadecimal digits of the bytes of the stream.
    pub hexadecimal: String,
    /// The number of bits that the stream labels show.
    pub stream_length: usize,
    /// What the user is told.
    pub notification: Notification,
    /// The byte order of the number labels.
    pub endianness: Endianness,
}

/// The character of a digit below sixteen, letters in upper case.
pub open spec fn digit_char(digit: int) -> char {
    if digit < 10 {
        (0x30 + digit) as char
    } else {
        (0x41 + digit - 10) as char
    }
}

/// The character of a digit below sixteen.
pub fn digit_to_char(digit: u8) -> (c: char)
    requires
        digit < 16,
    ensures
        c == digit_char(digit as int),
{
    if digit < 10 {
        (0x30 + digit) as char
    } else {
        (0x41 + digit - 10) as char
    }
}

/// The bytes of a stream of `stream_length` bits: the whole bytes that the
/// stream covers, zeros where there are none, and then the byte that it
/// covers in part, with the bits cleared that the stream does not reach.
pub open spec fn stream_bytes(bytes: Seq<u8>, stream_length: int) -> Seq<u8> {
    let whole = filled(bytes, stream_length / 8);
    let bits = stream_length % 8;
    if bits == 0 {
        whole
    } else {
        let last: int = if stream_length / 8 < bytes.len() {
            bytes[stream_length / 8] as int
        } else {
            0
        };
        whole.push((last / two_to((8 - bits) as nat) * two_to((8 - bits) as nat)) as u8)
    }
}

/// The binary digits of the bytes, eight for each byte, cut off behind
/// `stream_length` digits.
pub open spec fn binary_text(bytes: Seq<u8>, stream_length: int) -> Seq<char> {
    Seq::new(
        (if stream_length <= 8 * bytes.len() {
            stream_length
        } else {
            8 * bytes.len() as int
        }) as nat,
        |i: int| digit_char(bytes[i / 8] as int / two_to((7 - i % 8) as nat) % 2),
    )
}

/// The octal digits of the bytes, three for each byte, with a space between
/// one byte and the next.
pub open spec fn octal_text(bytes: Seq<u8>) -> Seq<char> {
    Seq::new(
        (if bytes.len() == 0 {
            0
        } else {
            4 * bytes.len() - 1
        }) as nat,
        |i: int|
            if i % 4 == 0 {
                digit_char(bytes[i / 4] as int / 64)
            } else if i % 4 == 1 {
                digit_char(bytes[i / 4] as int / 8 % 8)
            } else if i % 4 == 2 {
                digit_char(bytes[i / 4] as int % 8)
            } else {
                ' '
            },
    )
}

/// The hexadecimal digits of the bytes, two for each byte, with a space
/// between one byte and the next.
pub open spec fn hexadecimal_text(bytes: Seq<u8>) -> Seq<char> {
    Seq::new(
        (if bytes.len() == 0 {
            0
        } else {
            3 * bytes.len() - 1
        }) as nat,
        |i: int|
            if i % 3 == 0 {
                digit_char(bytes[i / 3] as int / 16)
            } else if i % 3 == 1 {
                digit_char(bytes[i / 3] as int % 16)
            } else {
                ' '
            },
    )
}

impl Handler {
    /// Whether the numbers are those that the eight bytes stand for in the
    /// byte order of the labels.
    pub open spec fn shows_numbers(&self, eight: Seq<u8>) -> bool {
        &&& self.unsigned_eight == unsigned_of(eight.subrange(0, 1), self.endianness)
        &&& self.unsigned_sixteen == unsigned_of(eight.subrange(0, 2), self.endianness)
        &&& self.unsigned_thirtytwo == unsigned_of(eight.subrange(0, 4), self.endianness)
        &&& self.unsigned_sixtyfour == unsigned_of(eight.subrange(0, 8), self.endianness)
        &&& self.signed_eight == signed_of(self.unsigned_eight as int, 0x80)
        &&& self.signed_sixteen == signed_of(self.unsigned_sixteen as int, 0x8000)
        &&& self.signed_thirtytwo == signed_of(self.unsigned_thirtytwo as int, 0x8000_0000)
        &&& self.signed_sixtyfour == signed_of(
            self.unsigned_sixtyfour as int,
            0x8000_0000_0000_0000,
        )
        &&& self.float_thirtytwo == self.unsigned_thirtytwo
        &&& self.float_sixtyfour == self.unsigned_sixtyfour
    }

    /// Whether the streams are those of the bytes.
    pub open spec fn shows_streams(&self, bytes: Seq<u8>) -> bool {
        let stream = stream_bytes(bytes, self.stream_length as int);
        &&& self.binary@ == binary_text(stream, self.stream_length as int)
        &&& self.octal@ == octal_text(stream)
        &&& self.hexadecimal@ == hexadecimal_text(stream)
    }

    /// Labels for the bytes from `offset` on: streams of eight bits, numbers
    /// read little end first, nothing to tell.
    pub fn new(bytes: &[u8], offset: usize) -> (labels: Self)
        requires
            offset <= bytes.len(),
        ensures
            labels.stream_length == 8,
            labels.notification == Notification::Nothing,
            labels.endianness == Endianness::LittleEndian,
            labels.shows_numbers(filled(bytes@.subrange(offset as int, bytes.len() as int), 8)),
            labels.shows_streams(bytes@.subrange(offset as int, bytes.len() as int)),
    {
        let mut labels = Handler {
            signed_eight: 0,
            signed_sixteen: 0,
            signed_thirtytwo: 0,
            signed_sixtyfour: 0,
            unsigned_eight: 0,
            unsigned_sixteen: 0,
            unsigned_thirtytwo: 0,
            unsigned_sixtyfour: 0,
            float_thirtytwo: 0,
            float_sixtyfour: 0,
            binary: String::new(),
            octal: String::new(),
            hexadecimal: String::new(),
            stream_length: 0,
            notification: Notification::Nothing,
            endianness: Endianness::LittleEndian,
        };
        labels.update_stream_length(8);
        labels.update_all(vstd::slice::slice_subrange(bytes, offset, bytes.len()));
        labels
    }

    /// Reads the numbers and the streams anew from the bytes at the cursor.
    pub fn update_all(&mut self, bytes: &[u8])
        ensures
            final(self).shows_numbers(filled(bytes@, 8)),
            final(self).shows_streams(bytes@),
            final(self).stream_length == old(self).stream_length,
            final(self).notification == old(self).notification,
            final(self).endianness == old(self).endianness,
    {
        let filled_bytes = fill_slice(bytes, 8);
        let eight = filled_bytes.as_slice();
        self.update_unsigned_eight(eight);
        self.update_unsigned_sixteen(eight);
        self.update_unsigned_thirtytwo(eight);
        self.update_unsigned_sixtyfour(eight);
        self.update_signed_eight();
        self.update_signed_sixteen();
        self.update_signed_thirtytwo();
        self.update_signed_sixtyfour();
        self.update_float_thirtytwo();
        self.update_float_sixtyfour();
        self.update_streams(bytes);
    }

    /// Reads the streams anew from the bytes at the cursor.
    pub fn update_streams(&mut self, bytes: &[u8])
        ensures
            final(self).shows_streams(bytes@),
            final(self).stream_length == old(self).stream_length,
            final(self).notification == old(self).notification,
            final(self).endianness == old(self).endianness,
            final(self).signed_eight == old(self).signed_eight,
            final(self).signed_sixteen == old(self).signed_sixteen,
            final(self).signed_thirtytwo == old(self).signed_thirtytwo,
            final(self).signed_sixtyfour == old(self).signed_sixtyfour,
            final(self).unsigned_eight == old(self).unsigned_eight,
            final(self).unsigned_sixteen == old(self).unsigned_sixteen,
            final(self).unsigned_thirtytwo == old(self).unsigned_thirtytwo,
            final(self).unsigned_sixtyfour == old(self).unsigned_sixtyfour,
            final(self).float_thirtytwo == old(self).float_thirtytwo,
            final(self).float_sixtyfour == old(self).float_sixtyfour,
    {
        let whole = self.stream_length / 8;
        let mut filled_bytes = fill_slice(bytes, whole);
        let remaining_bits = self.stream_length % 8;
        if remaining_bits != 0 {
            let last: usize = if whole < bytes.len() {
                bytes[whole] as usize
            } else {
                0
            };
            let weight = power_of_two(8 - remaining_bits);
            assert(last / weight * weight <= last) by (nonlinear_arith)
                requires
                    weight > 0,
                    last >= 0,
            ;
            filled_bytes.push((last / weight * weight) as u8);
        }
        self.update_binary(filled_bytes.as_slice());
        self.update_octal(filled_bytes.as_slice());
        self.update_hexadecimal(filled_bytes.as_slice());
    }

    /// Sets the number of bits that the stream labels show.
    pub fn update_stream_length(&mut self, length: usize)
        ensures
            *final(self) == (Handler { stream_length: length, ..*old(self) }),
    {
        self.stream_length = length;
    }

    /// Turns the byte order of the number labels round.
    pub fn switch_endianness(&mut self)
        ensures
            *final(self) == (Handler {
                endianness: match old(self).endianness {
                    Endianness::LittleEndian => Endianness::BigEndian,
                    Endianness::BigEndian => Endianness::LittleEndian,
                },
                ..*old(self)
            }),
    {
        self.endianness = match self.endianness {
            Endianness::LittleEndian => Endianness::BigEndian,
            Endianness::BigEndian => Endianness::LittleEndian,
        };
    }

    /// The number of bits that the stream labels show.
    pub fn get_stream_length(&self) -> (length: usize)
        ensures
            length == self.stream_length,
    {
        self.stream_length
    }

    /// Reads the first of eight bytes as a number without a sign.
    pub fn update_unsigned_eight(&mut self, bytes: &[u8])
        requires
            bytes.len() == 8,
        ensures
            *final(self) == (Handler {
                unsigned_eight: unsigned_of(bytes@.subrange(0, 1), old(self).endianness) as u8,
                ..*old(self)
            }),
            final(self).unsigned_eight == unsigned_of(bytes@.subrange(0, 1), old(self).endianness),
    {
        self.unsigned_eight = read_unsigned(bytes, 1, self.endianness) as u8;
    }

    /// Reads the first two of eight bytes as a number without a sign.
    pub fn update_unsigned_sixteen(&mut self, bytes: &[u8])
        requires
            bytes.len() == 8,
        ensures
            *final(self) == (Handler {
                unsigned_sixteen: unsigned_of(bytes@.subrange(0, 2), old(self).endianness) as u16,
                ..*old(self)
            }),
            final(self).unsigned_sixteen == unsigned_of(
                bytes@.subrange(0, 2),
                old(self).endianness,
            ),
    {
        self.unsigned_sixteen = read_unsigned(bytes, 2, self.endianness) as u16;
    }

    /// Reads the first four of eight bytes as a number without a sign.
    pub fn update_unsigned_thirtytwo(&mut self, bytes: &[u8])
        requires
            bytes.len() == 8,
        ensures
            *final(self) == (Handler {
                unsigned_thirtytwo: unsigned_of(bytes@.subrange(0, 4), old(self).endianness) as u32,
                ..*old(self)
            }),
            final(self).unsigned_thirtytwo == unsigned_of(
                bytes@.subrange(0, 4),
                old(self).endianness,
            ),
    {
        self.unsigned_thirtytwo = read_unsigned(bytes, 4, self.endianness) as u32;
    }

    /// Reads eight bytes as a number without a sign.
    pub fn update_unsigned_sixtyfour(&mut self, bytes: &[u8])
        requires
            bytes.len() == 8,
        ensures
            *final(self) == (Handler {
                unsigned_sixtyfour: unsigned_of(bytes@.subrange(0, 8), old(self).endianness) as u64,
                ..*old(self)
            }),
            final(self).unsigned_sixtyfour == unsigned_of(
                bytes@.subrange(0, 8),
                old(self).endianness,
            ),
    {
        self.unsigned_sixtyfour = read_unsigned(bytes, 8, self.endianness);
    }

    /// Reads the number of eight bits with its sign.
    pub fn update_signed_eight(&mut self)
        ensures
            *final(self) == (Handler {
                signed_eight: signed_of(old(self).unsigned_eight as int, 0x80) as i8,
                ..*old(self)
            }),
            final(self).signed_eight == signed_of(old(self).unsigned_eight as int, 0x80),
    {
        self.signed_eight = if self.unsigned_eight >= 0x80 {
            (self.unsigned_eight as i16 - 0x100) as i8
        } else {
            self.unsigned_eight as i8
        };
    }

    /// Reads the number of sixteen bits with its sign.
    pub fn update_signed_sixteen(&mut self)
        ensures
            *final(self) == (Handler {
                signed_sixteen: signed_of(old(self).unsigned_sixteen as int, 0x8000) as i16,
                ..*old(self)
            }),
            final(self).signed_sixteen == signed_of(old(self).unsigned_sixteen as int, 0x8000),
    {
        self.signed_sixteen = if self.unsigned_sixteen >= 0x8000 {
            (self.unsigned_sixteen as i32 - 0x1_0000) as i16
        } else {
            self.unsigned_sixteen as i16
        };
    }

    /// Reads the number of 32 bits with its sign.
    pub fn update_signed_thirtytwo(&mut self)
        ensures
            *final(self) == (Handler {
                signed_thirtytwo: signed_of(old(self).unsigned_thirtytwo as int, 0x8000_0000) as i32,
                ..*old(self)
            }),
            final(self).signed_thirtytwo == signed_of(
                old(self).unsigned_thirtytwo as int,
                0x8000_0000,
            ),
    {
        self.signed_thirtytwo = if self.unsigned_thirtytwo >= 0x8000_0000 {
            (self.unsigned_thirtytwo as i64 - 0x1_0000_0000) as i32
        } else {
            self.unsigned_thirtytwo as i32
        };
    }

    /// Reads the number of 64 bits with its sign.
    pub fn update_signed_sixtyfour(&mut self)
        ensures
            *final(self) == (Handler {
                signed_sixtyfour: signed_of(
                    old(self).unsigned_sixtyfour as int,
                    0x8000_0000_0000_0000,
                ) as i64,
                ..*old(self)
            }),
            final(self).signed_sixtyfour == signed_of(
                old(self).unsigned_sixtyfour as int,
                0x8000_0000_0000_0000,
            ),
    {
        self.signed_sixtyfour = if self.unsigned_sixtyfour >= 0x8000_0000_0000_0000 {
            (self.unsigned_sixtyfour as i128 - 0x1_0000_0000_0000_0000) as i64
        } else {
            self.unsigned_sixtyfour as i64
        };
    }

    /// Takes the bits of the number of 32 bits as those of the floating-point
    /// number.
    pub fn update_float_thirtytwo(&mut self)
        ensures
            *final(self) == (Handler {
                float_thirtytwo: old(self).unsigned_thirtytwo,
                ..*old(self)
            }),
    {
        self.float_thirtytwo = self.unsigned_thirtytwo;
    }

    /// Takes the bits of the number of 64 bits as those of the floating-point
    /// number.
    pub fn update_float_sixtyfour(&mut self)
        ensures
            *final(self) == (Handler {
                float_sixtyfour: old(self).unsigned_sixtyfour,
                ..*old(self)
            }),
    {
        self.float_sixtyfour = self.unsigned_sixtyfour;
    }

    /// Writes the binary digits of the bytes, as many as the stream is long.
    pub fn update_binary(&mut self, bytes: &[u8])
        ensures
            final(self).binary@ == binary_text(bytes@, old(self).stream_length as int),
            final(self).octal == old(self).octal,
            final(self).hexadecimal == old(self).hexadecimal,
            final(self).stream_length == old(self).stream_length,
            final(self).notification == old(self).notification,
            final(self).endianness == old(self).endianness,
            final(self).signed_eight == old(self).signed_eight,
            final(self).signed_sixteen == old(self).signed_sixteen,
            final(self).signed_thirtytwo == old(self).signed_thirtytwo,
            final(self).signed_sixtyfour == old(self).signed_sixtyfour,
            final(self).unsigned_eight == old(self).unsigned_eight,
            final(self).unsigned_sixteen == old(self).unsigned_sixteen,
            final(self).unsigned_thirtytwo == old(self).unsigned_thirtytwo,
            final(self).unsigned_sixtyfour == old(self).unsigned_sixtyfour,
            final(self).float_thirtytwo == old(self).float_thirtytwo,
            final(self).float_sixtyfour == old(self).float_sixtyfour,
    {
        let mut text = String::new();
        let mut i: usize = 0;
        while i < self.stream_length && i / 8 < bytes.len()
            invariant
                *self == *old(self),
                i <= self.stream_length,
                i <= 8 * bytes.len(),
                text@ == Seq::new(
                    i as nat,
                    |k: int| digit_char(bytes@[k / 8] as int / two_to((7 - k % 8) as nat) % 2),
                ),
            decreases self.stream_length - i,
        {
            let weight = power_of_two(7 - i % 8);
            let digit = (bytes[i / 8] as usize / weight % 2) as u8;
            push_char(&mut text, digit_to_char(digit));
            i += 1;
            assert(text@ =~= Seq::new(
                i as nat,
                |k: int| digit_char(bytes@[k / 8] as int / two_to((7 - k % 8) as nat) % 2),
            ));
        }
        assert(text@ =~= binary_text(bytes@, self.stream_length as int));
        self.binary = text;
    }

    /// Writes the octal digits of the bytes.
    pub fn update_octal(&mut self, bytes: &[u8])
        ensures
            final(self).octal@ == octal_text(bytes@),
            final(self).binary == old(self).binary,
            final(self).hexadecimal == old(self).hexadecimal,
            final(self).stream_length == old(self).stream_length,
            final(self).notification == old(self).notification,
            final(self).endianness == old(self).endianness,
            final(self).signed_eight == old(self).signed_eight,
            final(self).signed_sixteen == old(self).signed_sixteen,
            final(self).signed_thirtytwo == old(self).signed_thirtytwo,
            final(self).signed_sixtyfour == old(self).signed_sixtyfour,
            final(self).unsigned_eight == old(self).unsigned_eight,
            final(self).unsigned_sixteen == old(self).unsigned_sixteen,
            final(self).unsigned_thirtytwo == old(self).unsigned_thirtytwo,
            final(self).unsigned_sixtyfour == old(self).unsigned_sixtyfour,
            final(self).float_thirtytwo == old(self).float_thirtytwo,
            final(self).float_sixtyfour == old(self).float_sixtyfour,
    {
        let mut text = String::new();
        let mut i: usize = 0;
        while i < bytes.len()
            invariant
                i <= bytes.len(),
                text@ == octal_text(bytes@.subrange(0, i as int)),
            decreases bytes.len() - i,
        {
            let ghost before = text@;
            let byte = bytes[i];
            if i > 0 {
                push_char(&mut text, ' ');
            }
            push_char(&mut text, digit_to_char(byte / 64));
            push_char(&mut text, digit_to_char(byte / 8 % 8));
            push_char(&mut text, digit_to_char(byte % 8));
            i += 1;
            assert(text@ =~= octal_text(bytes@.subrange(0, i as int)));
        }
        assert(bytes@.subrange(0, bytes.len() as int) =~= bytes@);
        self.octal = text;
    }

    /// Writes the hexadecimal digits of the bytes.
    pub fn update_hexadecimal(&mut self, bytes: &[u8])
        ensures
            final(self).hexadecimal@ == hexadecimal_text(bytes@),
            final(self).binary == old(self).binary,
            final(self).octal == old(self).octal,
            final(self).stream_length == old(self).stream_length,
            final(self).notification == old(self).notification,
            final(self).endianness == old(self).endianness,
            final(self).signed_eight == old(self).signed_eight,
            final(self).signed_sixteen == old(self).signed_sixteen,
            final(self).signed_thirtytwo == old(self).signed_thirtytwo,
            final(self).signed_sixtyfour == old(self).signed_sixtyfour,
            final(self).unsigned_eight == old(self).unsigned_eight,
            final(self).unsigned_sixteen == old(self).unsigned_sixteen,
            final(self).unsigned_thirtytwo == old(self).unsigned_thirtytwo,
            final(self).unsigned_sixtyfour == old(self).unsigned_sixtyfour,
            final(self).float_thirtytwo == old(self).float_thirtytwo,
            final(self).float_sixtyfour == old(self).float_sixtyfour,
    {
        let mut text = String::new();
        let mut i: usize = 0;
        while i < bytes.len()
            invariant
                i <= bytes.len(),
                text@ == hexadecimal_text(bytes@.subrange(0, i as int)),
            decreases bytes.len() - i,
        {
            let byte = bytes[i];
            if i > 0 {
                push_char(&mut text, ' ');
            }
            push_char(&mut text, digit_to_char(byte / 16));
            push_char(&mut text, digit_to_char(byte % 16));
            i += 1;
            assert(text@ =~= hexadecimal_text(bytes@.subrange(0, i as int)));
        }
        assert(bytes@.subrange(0, bytes.len() as int) =~= bytes@);
        self.hexadecimal = text;
    }
}

/// The first `len` bytes of `bytes`, with zeros where `bytes` has fewer.
pub open spec fn filled(bytes: Seq<u8>, len: int) -> Seq<u8> {
    Seq::new(
        len as nat,
        |i: int|
            if i < bytes.len() {
                bytes[i]
            } else {
                0u8
            },
    )
}

/// Copies the first `len` bytes of `bytes` and fills up with zeros where
/// `bytes` has fewer.
pub fn fill_slice(bytes: &[u8], len: usize) -> (fill: Vec<u8>)
    ensures
        fill@ == filled(bytes@, len as int),
{
    let mut fill: Vec<u8> = Vec::new();
    let mut i: usize = 0;
    while i < len
        invariant
            i <= len,
            fill@ == filled(bytes@, i as int),
        decreases len - i,
    {
        let byte = if i < bytes.len() {
            bytes[i]
        } else {
            0u8
        };
        fill.push(byte);
        assert(fill@ =~= filled(bytes@, i + 1));
        i += 1;
    }
    fill
}

} // verus!
