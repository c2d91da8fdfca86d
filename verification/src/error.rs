//! Error values a parse can end with, and their spec-level views.
//!
//! Every error is fatal to the parse that raised it: no partial output is
//! returned beside one. The view types mirror the executable enums with
//! mathematical payloads (`Seq<char>` for `String`), so contracts can speak
//! of errors without executable strings.

use vstd::prelude::*;
use vstd::string::StringExecFns;

use crate::text::string_push_char;

verus! {

/// Why a header line was rejected.
#[derive(Debug, PartialEq)]
pub enum InvalidHeaderKind {
    /// The bit order was given twice.
    TwoBitOrder,
    /// The byte order was given twice.
    TwoByteOrder,
    /// No bit order was given.
    NoBitOrder,
    /// No byte order was given.
    NoByteOrder,
    /// A token is not a recognized header property.
    InvalidProperty(String),
}

/// Spec-level view of [`InvalidHeaderKind`].
pub enum InvalidHeaderKindView {
    TwoBitOrder,
    TwoByteOrder,
    NoBitOrder,
    NoByteOrder,
    InvalidProperty(Seq<char>),
}

impl View for InvalidHeaderKind {
    type V = InvalidHeaderKindView;

    open spec fn view(&self) -> InvalidHeaderKindView {
        match self {
            InvalidHeaderKind::TwoBitOrder => InvalidHeaderKindView::TwoBitOrder,
            InvalidHeaderKind::TwoByteOrder => InvalidHeaderKindView::TwoByteOrder,
            InvalidHeaderKind::NoBitOrder => InvalidHeaderKindView::NoBitOrder,
            InvalidHeaderKind::NoByteOrder => InvalidHeaderKindView::NoByteOrder,
            InvalidHeaderKind::InvalidProperty(s) => InvalidHeaderKindView::InvalidProperty(s@),
        }
    }
}

/// Everything that can go wrong while parsing a hext text.
#[derive(Debug, PartialEq)]
pub enum Error {
    /// The input began with data before any header line.
    NoHeader,
    /// The header line was present but malformed.
    InvalidHeader(InvalidHeaderKind),
    /// A hexadecimal digit was not followed by a second one.
    IncompleteOctet,
    /// An unsized decimal token could not be encoded.
    InvalidDecimal(String),
    /// A sized signed decimal token could not be encoded.
    InvalidSignedDecimal(String),
    /// A sized unsigned decimal token could not be encoded.
    InvalidUnsignedDecimal(String),
    /// A sized decimal named a width other than 8, 16, 32 or 64.
    InvalidBitness(String),
    /// A character with no meaning in hexadecimal position.
    InvalidCharacter(char),
    /// A backslash escape the notation does not recognize.
    InvalidEscape(char),
    /// The line or input ended inside a string literal.
    UnclosedStringLiteral,
    /// A character with no meaning inside a bitstream.
    GarbageCharacterInBitstream,
    /// A bitstream ended with a bit count not divisible by eight, and the
    /// header did not allow padding.
    UnalignedBits,
}

/// Spec-level view of [`Error`].
pub enum ErrorView {
    NoHeader,
    InvalidHeader(InvalidHeaderKindView),
    IncompleteOctet,
    InvalidDecimal(Seq<char>),
    InvalidSignedDecimal(Seq<char>),
    InvalidUnsignedDecimal(Seq<char>),
    InvalidBitness(Seq<char>),
    InvalidCharacter(char),
    InvalidEscape(char),
    UnclosedStringLiteral,
    GarbageCharacterInBitstream,
    UnalignedBits,
}

/// The human-readable description of a header error.
pub open spec fn header_error_message(k: InvalidHeaderKindView) -> Seq<char> {
    match k {
        InvalidHeaderKindView::TwoBitOrder => "You may only specify the bit order once"@,
        InvalidHeaderKindView::TwoByteOrder => "You may only specify the byte order once"@,
        InvalidHeaderKindView::NoBitOrder => "You must specify a bit order"@,
        InvalidHeaderKindView::NoByteOrder => "You must specify a byte order"@,
        InvalidHeaderKindView::InvalidProperty(p) => "'"@ + p + "' is not a valid file property"@,
    }
}

/// The human-readable description of a parse error.
pub open spec fn error_message(e: ErrorView) -> Seq<char> {
    match e {
        ErrorView::NoHeader => "The file must start with a header"@,
        ErrorView::InvalidHeader(k) => header_error_message(k),
        ErrorView::IncompleteOctet => "Octet was not complete"@,
        ErrorView::InvalidDecimal(s) => "'"@ + s + "' is not valid decimal"@,
        ErrorView::InvalidSignedDecimal(s) => "'"@ + s + "' is not valid signed decimal"@,
        ErrorView::InvalidUnsignedDecimal(s) => "'"@ + s + "' is not valid unsigned decimal"@,
        ErrorView::InvalidBitness(s) => "'"@ + s
            + "' is not a valid width. Valid widths are 8, 16, 32, and 64"@,
        ErrorView::InvalidCharacter(c) => "'"@ + seq![c] + "' is not valid base16"@,
        ErrorView::InvalidEscape(c) => "\\"@ + seq![c] + " is not a valid escape code"@,
        ErrorView::UnclosedStringLiteral => "The line or file ended in an unterminated string literal"@,
        ErrorView::GarbageCharacterInBitstream => "Periods to indicate binary data must be directly followed by that data"@,
        ErrorView::UnalignedBits => "Not enough bits to form an octet"@,
    }
}

impl InvalidHeaderKind {
    /// The human-readable description of this header error.
    pub fn message(&self) -> (r: String)
        ensures
            r@ == header_error_message(self@),
    {
        match self {
            InvalidHeaderKind::TwoBitOrder => String::from_str(
                "You may only specify the bit order once",
            ),
            InvalidHeaderKind::TwoByteOrder => String::from_str(
                "You may only specify the byte order once",
            ),
            InvalidHeaderKind::NoBitOrder => String::from_str("You must specify a bit order"),
            InvalidHeaderKind::NoByteOrder => String::from_str("You must specify a byte order"),
            InvalidHeaderKind::InvalidProperty(p) => {
                let mut m = String::from_str("'");
                m.append(p.as_str());
                m.append("' is not a valid file property");
                proof {
                    assert(m@ =~= header_error_message(self@));
                }
                m
            },
        }
    }
}

impl Error {
    /// The human-readable description of this error.
    pub fn message(&self) -> (r: String)
        ensures
            r@ == error_message(self@),
    {
        match self {
            Error::NoHeader => String::from_str("The file must start with a header"),
            Error::InvalidHeader(k) => k.message(),
            Error::IncompleteOctet => String::from_str("Octet was not complete"),
            Error::InvalidDecimal(s) => {
                let mut m = String::from_str("'");
                m.append(s.as_str());
                m.append("' is not valid decimal");
                proof {
                    assert(m@ =~= error_message(self@));
                }
                m
            },
            Error::InvalidSignedDecimal(s) => {
                let mut m = String::from_str("'");
                m.append(s.as_str());
                m.append("' is not valid signed decimal");
                proof {
                    assert(m@ =~= error_message(self@));
                }
                m
            },
            Error::InvalidUnsignedDecimal(s) => {
                let mut m = String::from_str("'");
                m.append(s.as_str());
                m.append("' is not valid unsigned decimal");
                proof {
                    assert(m@ =~= error_message(self@));
                }
                m
            },
            Error::InvalidBitness(s) => {
                let mut m = String::from_str("'");
                m.append(s.as_str());
                m.append("' is not a valid width. Valid widths are 8, 16, 32, and 64");
                proof {
                    assert(m@ =~= error_message(self@));
                }
                m
            },
            Error::InvalidCharacter(c) => {
                let mut m = String::from_str("'");
                string_push_char(&mut m, *c);
                m.append("' is not valid base16");
                proof {
                    assert(m@ =~= error_message(self@));
                }
                m
            },
            Error::InvalidEscape(c) => {
                let mut m = String::from_str("\\");
                string_push_char(&mut m, *c);
                m.append(" is not a valid escape code");
                proof {
                    assert(m@ =~= error_message(self@));
                }
                m
            },
            Error::UnclosedStringLiteral => String::from_str(
                "The line or file ended in an unterminated string literal",
            ),
            Error::GarbageCharacterInBitstream => String::from_str(
                "Periods to indicate binary data must be directly followed by that data",
            ),
            Error::UnalignedBits => String::from_str("Not enough bits to form an octet"),
        }
    }
}

impl View for Error {
    type V = ErrorView;

    open spec fn view(&self) -> ErrorView {
        match self {
            Error::NoHeader => ErrorView::NoHeader,
            Error::InvalidHeader(k) => ErrorView::InvalidHeader(k@),
            Error::IncompleteOctet => ErrorView::IncompleteOctet,
            Error::InvalidDecimal(s) => ErrorView::InvalidDecimal(s@),
            Error::InvalidSignedDecimal(s) => ErrorView::InvalidSignedDecimal(s@),
            Error::InvalidUnsignedDecimal(s) => ErrorView::InvalidUnsignedDecimal(s@),
            Error::InvalidBitness(s) => ErrorView::InvalidBitness(s@),
            Error::InvalidCharacter(c) => ErrorView::InvalidCharacter(*c),
            Error::InvalidEscape(c) => ErrorView::InvalidEscape(*c),
            Error::UnclosedStringLiteral => ErrorView::UnclosedStringLiteral,
            Error::GarbageCharacterInBitstream => ErrorView::GarbageCharacterInBitstream,
            Error::UnalignedBits => ErrorView::UnalignedBits,
        }
    }
}

} // verus!
