//! The characters that the text side of the editor shows for the bytes.

use vstd::prelude::*;

verus! {

/// What is shown for the byte zero.
pub const CHARACTER_NULL: char = '0';

/// What is shown for white space other than the space.
pub const CHARACTER_WHITESPACE: char = '_';

/// What is shown for a control character.
pub const CHARACTER_CONTROL: char = '⍾';

/// What is shown for a byte that belongs to the character before it.
pub const CHARACTER_FILL: char = '•';

/// What is shown for bytes that are no character.
pub const CHARACTER_UNKNOWN: char = '�';

/// How a character was read from the bytes.
#[derive(Clone, Copy, Debug, PartialEq, Eq, Structural)]
pub enum Type {
    /// From one byte below 128.
    Ascii,
    /// From the given number of bytes.
    Unicode(usize),
    /// From one byte that is no character.
    Unknown,
}

impl Type {
    /// The number of bytes that the character was read from.
    pub open spec fn spec_size(&self) -> usize {
        match self {
            Type::Ascii | Type::Unknown => 1,
            Type::Unicode(size) => *size,
        }
    }

    /// The number of bytes that the character was read from.
    pub fn size(&self) -> (size: usize)
        ensures
            size == self.spec_size(),
    {
        match self {
            Type::Ascii | Type::Unknown => 1,
            Type::Unicode(size) => *size,
        }
    }
}

/// The kind of a character, by which it is shown and coloured.
#[derive(Clone, Copy, Debug, PartialEq, Eq, Structural)]
pub enum Category {
    Null,
    Ascii,
    Unicode,
    Whitespace,
    Control,
    Fill,
    Unknown,
}

/// Whether `char::is_whitespace` holds of the character.
pub uninterp spec fn is_whitespace_char(character: char) -> bool;

/// Whether `char::is_control` holds of the character.
pub uninterp spec fn is_control_char(character: char) -> bool;

/// Calls `char::is_whitespace`.
#[verifier::external_body]
fn char_is_whitespace(character: char) -> (whitespace: bool)
    ensures
        whitespace == is_whitespace_char(character),
{
    character.is_whitespace()
}

/// Calls `char::is_control`.
#[verifier::external_body]
fn char_is_control(character: char) -> (control: bool)
    ensures
        control == is_control_char(character),
{
    character.is_control()
}

/// The kind of a character of which it is known whether it is white space and
/// whether it is a control character. Zero comes first, white space before
/// control characters, and what is left is told apart by its code.
pub open spec fn category_of(character: char, whitespace: bool, control: bool) -> Category {
    if character == '\0' {
        Category::Null
    } else if whitespace {
        Category::Whitespace
    } else if control {
        Category::Control
    } else if character as u32 <= 0x7f {
        Category::Ascii
    } else {
        Category::Unicode
    }
}

impl Category {
    /// The kind of a character of which it is known whether it is white space
    /// and whether it is a control character.
    pub fn classify(character: char, whitespace: bool, control: bool) -> (category: Category)
        ensures
            category == category_of(character, whitespace, control),
    {
        if character == '\0' {
            Category::Null
        } else if whitespace {
            Category::Whitespace
        } else if control {
            Category::Control
        } else if character as u32 <= 0x7f {
            Category::Ascii
        } else {
            Category::Unicode
        }
    }

    /// The kind of a character.
    pub fn from(character: &char) -> (category: Category)
        ensures
            category == category_of(
                *character,
                is_whitespace_char(*character),
                is_control_char(*character),
            ),
    {
        Category::classify(
            *character,
            char_is_whitespace(*character),
            char_is_control(*character),
        )
    }

    /// What is shown for a character of this kind.
    pub open spec fn spec_escape(&self, character: char) -> char {
        match self {
            Category::Null => CHARACTER_NULL,
            Category::Ascii | Category::Unicode => character,
            Category::Whitespace => if character == ' ' {
                ' '
            } else {
                CHARACTER_WHITESPACE
            },
            Category::Control => CHARACTER_CONTROL,
            Category::Fill => CHARACTER_FILL,
            Category::Unknown => CHARACTER_UNKNOWN,
        }
    }

    /// What is shown for a character of this kind: the character itself where
    /// it can be seen, and a stand-in where it cannot.
    pub fn escape(&self, character: char) -> (shown: char)
        ensures
            shown == self.spec_escape(character),
    {
        match self {
            Category::Null => CHARACTER_NULL,
            Category::Ascii | Category::Unicode => character,
            Category::Whitespace => if character == ' ' {
                ' '
            } else {
                CHARACTER_WHITESPACE
            },
            Category::Control => CHARACTER_CONTROL,
            Category::Fill => CHARACTER_FILL,
            Category::Unknown => CHARACTER_UNKNOWN,
        }
    }
}

/// A character together with its kind.
#[derive(Clone, Copy, Debug, PartialEq, Eq, Structural)]
pub struct RichChar {
    pub character: char,
    pub category: Category,
}

impl RichChar {
    /// A character of the given kind.
    pub fn new(character: char, category: Category) -> (rich: Self)
        ensures
            rich == (RichChar { character, category }),
    {
        Self { character, category }
    }

    /// What is shown for the character.
    pub fn escape(&self) -> (shown: char)
        ensures
            shown == self.category.spec_escape(self.character),
    {
        self.category.escape(self.character)
    }
}

} // verus!
