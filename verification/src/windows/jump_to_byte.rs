//! The popup that takes an offset and moves the cursor there.

use crate::app::{Data, DataView};
use crate::label::{Handler as LabelHandler, Notification};
use crate::screen::{ComponentLayouts, Handler as ScreenHandler};
use crate::text::{pop_char, push_char};
use crate::windows::editor::move_cursor;
use crate::windows::{PopupOutput, Window};
use vstd::prelude::*;
use vstd::utf8::encode_utf8;

verus! {

/// Why a text is not a number.
#[derive(Copy, Clone, Debug, PartialEq, Eq, Structural)]
pub enum ParseFailure {
    /// The text is empty.
    Empty,
    /// A character is no digit, or there is a sign and no digit.
    InvalidDigit,
    /// The number does not fit.
    Overflow,
}

/// The number that a digit stands for in the given radix. Letters of either
/// case stand for the numbers from ten on.
pub open spec fn digit_of(byte: u8, radix: int) -> Option<int> {
    let value: int = if 0x30 <= byte <= 0x39 {
        byte - 0x30
    } else if 0x61 <= byte <= 0x7a {
        byte - 0x61 + 10
    } else if 0x41 <= byte <= 0x5a {
        byte - 0x41 + 10
    } else {
        radix
    };
    if value < radix {
        Some(value)
    } else {
        None
    }
}

/// The number that the digits stand for after the number `so_far` that the
/// digits before them stand for. What fails first, from the left, decides the
/// failure.
pub open spec fn parse_digits(digits: Seq<u8>, radix: int, so_far: int) -> Result<
    usize,
    ParseFailure,
>
    decreases digits.len(),
{
    if digits.len() == 0 {
        Ok(so_far as usize)
    } else {
        match digit_of(digits[0], radix) {
            None => Err(ParseFailure::InvalidDigit),
            Some(digit) => if so_far * radix + digit > usize::MAX {
                Err(ParseFailure::Overflow)
            } else {
                parse_digits(digits.drop_first(), radix, so_far * radix + digit)
            },
        }
    }
}

/// The number that a text stands for in the given radix. A plus sign may
/// stand before the digits.
pub open spec fn parse_number(text: Seq<u8>, radix: int) -> Result<usize, ParseFailure> {
    if text.len() == 0 {
        Err(ParseFailure::Empty)
    } else {
        let digits = if text[0] == 0x2b {
            text.drop_first()
        } else {
            text
        };
        if digits.len() == 0 {
            Err(ParseFailure::InvalidDigit)
        } else {
            parse_digits(digits, radix, 0)
        }
    }
}

/// The offset that a text stands for: a hexadecimal number where the text
/// begins with `0x`, a decimal number otherwise.
pub open spec fn parse_offset(text: Seq<u8>) -> Result<usize, ParseFailure> {
    if text.len() >= 2 && text[0] == 0x30 && text[1] == 0x78 {
        parse_number(text.subrange(2, text.len() as int), 16)
    } else {
        parse_number(text, 10)
    }
}

/// Reads a digit in the given radix.
fn read_digit(byte: u8, radix: usize) -> (digit: Option<usize>)
    requires
        radix <= 36,
    ensures
        digit is Some <==> digit_of(byte, radix as int) is Some,
        digit is Some ==> digit.unwrap() == digit_of(byte, radix as int).unwrap(),
{
    let value: usize = if 0x30 <= byte && byte <= 0x39 {
        (byte - 0x30) as usize
    } else if 0x61 <= byte && byte <= 0x7a {
        (byte - 0x61) as usize + 10
    } else if 0x41 <= byte && byte <= 0x5a {
        (byte - 0x41) as usize + 10
    } else {
        radix
    };
    if value < radix {
        Some(value)
    } else {
        None
    }
}

/// Reads the text from `start` on as a number in the given radix.
fn read_number(text: &[u8], start: usize, radix: usize) -> (number: Result<usize, ParseFailure>)
    requires
        start <= text.len(),
        2 <= radix <= 36,
    ensures
        number == parse_number(text@.subrange(start as int, text.len() as int), radix as int),
{
    let ghost whole = text@.subrange(start as int, text.len() as int);
    if start == text.len() {
        return Err(ParseFailure::Empty);
    }
    let mut i: usize = if text[start] == 0x2b {
        start + 1
    } else {
        start
    };
    let ghost digits = text@.subrange(i as int, text.len() as int);
    proof {
        assert(whole[0] == text@[start as int]);
        if text@[start as int] == 0x2b {
            assert(whole.drop_first() =~= digits);
        } else {
            assert(whole =~= digits);
        }
    }
    if i == text.len() {
        return Err(ParseFailure::InvalidDigit);
    }
    let mut so_far: usize = 0;
    while i < text.len()
        invariant
            start <= i <= text.len(),
            2 <= radix <= 36,
            whole == text@.subrange(start as int, text.len() as int),
            parse_digits(text@.subrange(i as int, text.len() as int), radix as int, so_far as int)
                == parse_number(whole, radix as int),
        decreases text.len() - i,
    {
        let ghost rest = text@.subrange(i as int, text.len() as int);
        proof {
            assert(rest[0] == text@[i as int]);
            assert(rest.drop_first() =~= text@.subrange(i + 1, text.len() as int));
        }
        let digit = match read_digit(text[i], radix) {
            Some(digit) => digit,
            None => {
                return Err(ParseFailure::InvalidDigit);
            },
        };
        let next = match so_far.checked_mul(radix) {
            Some(scaled) => scaled.checked_add(digit),
            None => None,
        };
        proof {
            assert(so_far * radix >= 0 && digit >= 0) by (nonlinear_arith)
                requires
                    so_far >= 0,
                    radix >= 0,
                    digit >= 0,
            ;
        }
        match next {
            Some(next) => {
                so_far = next;
            },
            None => {
                return Err(ParseFailure::Overflow);
            },
        }
        i += 1;
    }
    Ok(so_far)
}

/// Reads a text as an offset: as a hexadecimal number where it begins with
/// `0x`, as a decimal number otherwise.
pub fn parse_hex_or_dec(arg: &[u8]) -> (offset: Result<usize, ParseFailure>)
    ensures
        offset == parse_offset(arg@),
{
    if arg.len() >= 2 && arg[0] == 0x30 && arg[1] == 0x78 {
        read_number(arg, 2, 16)
    } else {
        proof {
            assert(arg@.subrange(0, arg.len() as int) =~= arg@);
        }
        read_number(arg, 0, 10)
    }
}

/// The popup that takes an offset and moves the cursor there. It holds what
/// was typed.
#[derive(PartialEq, Eq)]
pub struct JumpToByte {
    pub input: String,
}

impl DataView {
    /// The state after a jump was asked for with the given text: the cursor
    /// is at the offset that the text stands for, if the contents have it.
    pub open spec fn jumped(self, input: Seq<u8>, layout: ComponentLayouts) -> DataView {
        match parse_offset(input) {
            Ok(offset) => if offset < self.contents.len() {
                self.moved_to(offset, layout)
            } else {
                self
            },
            Err(_) => self,
        }
    }

    /// What the user is told after a jump was asked for with the given text.
    pub open spec fn told_after_jump(self, input: Seq<u8>, before: Notification) -> Notification {
        match parse_offset(input) {
            Ok(offset) => if offset < self.contents.len() {
                before
            } else {
                Notification::InvalidRange
            },
            Err(failure) => Notification::InvalidNumber(failure),
        }
    }
}

impl JumpToByte {
    /// The popup with nothing typed.
    pub fn new() -> (popup: Self)
        ensures
            popup.input@ == Seq::<char>::empty(),
    {
        Self { input: String::new() }
    }

    /// Whether this popup is the window asked for.
    pub fn is_focusing(&self, window_type: Window) -> (focusing: bool)
        ensures
            focusing == (window_type == Window::JumpToByte),
    {
        window_type == Window::JumpToByte
    }

    /// Takes a character that was typed.
    pub fn char(&mut self, c: char)
        ensures
            final(self).input@ == old(self).input@.push(c),
    {
        push_char(&mut self.input, c);
    }

    /// What was typed.
    pub fn get_user_input(&self) -> (output: PopupOutput<'_>)
        ensures
            output matches PopupOutput::Str(text) && text@ == self.input@,
    {
        PopupOutput::Str(self.input.as_str())
    }

    /// Takes back the character that was typed last.
    pub fn backspace(&mut self)
        ensures
            final(self).input@ == if old(self).input@.len() > 0 {
                old(self).input@.drop_last()
            } else {
                old(self).input@
            },
    {
        pop_char(&mut self.input);
    }

    /// Moves the cursor to the offset that was typed, or tells why not.
    pub fn enter(&mut self, app: &mut Data, display: &ScreenHandler, labels: &mut LabelHandler)
        requires
            old(app).wf(),
            display.comp_layouts.wf(),
        ensures
            final(app).wf(),
            final(app)@ == old(app)@.jumped(encode_utf8(old(self).input@), display.comp_layouts),
            final(app).contents == old(app).contents,
            *final(labels) == (LabelHandler {
                notification: old(app)@.told_after_jump(
                encode_utf8(old(self).input@),
                old(labels).notification,
            ),
                ..*old(labels)
            }),
            final(self).input@ == old(self).input@,
    {
        proof {
            app.contents.lemma_window_is_current();
        }
        match parse_hex_or_dec(self.input.as_str().as_bytes()) {
            Ok(new_offset) => {
                if new_offset >= app.contents.len() {
                    labels.notification = Notification::InvalidRange;
                } else {
                    move_cursor(app, display, new_offset);
                }
            },
            Err(failure) => {
                labels.notification = Notification::InvalidNumber(failure);
            },
        }
    }

    /// The width and height of the popup.
    pub fn dimensions(&self) -> (size: Option<(u16, u16)>)
        ensures
            size == Some((50u16, 3u16)),
    {
        Some((50, 3))
    }
}

} // verus!
