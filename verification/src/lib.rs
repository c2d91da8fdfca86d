//! Converter from the hext plain-text notation to an exact binary byte
//! stream. The notation mixes literal hexadecimal octets, raw bitstreams,
//! sized and unsized decimal integers, and quoted text literals, under a
//! mandatory header line that fixes bit order, byte order and bit padding.
//!
//! The one entry point is [`Hext::parse`]: a pure computation from an
//! input text to a byte buffer or a structured [`Error`]. What it returns
//! is fixed, for every input, by the spec function [`scan::spec_parse`].

use vstd::prelude::*;

pub mod bits;
pub mod error;
pub mod header;
pub mod numeric;
pub mod scan;
pub mod text;

pub use error::Error;
pub use error::InvalidHeaderKind;
pub use header::BitOrder;
pub use header::ByteOrder;
pub use header::Header;

use header::parse_header_chars;
use header::parse_header_spec;
use scan::parse_chars;
use scan::scan_start;
use text::str_to_chars;

verus! {

/// One parse of one input text; holds the buffer the parse fills.
pub struct Hext {
    parsed: Vec<u8>,
}

impl View for Hext {
    type V = Seq<u8>;

    closed spec fn view(&self) -> Seq<u8> {
        self.parsed@
    }
}

impl Hext {
    /// A parser with an empty output buffer.
    pub fn new() -> (r: Self)
        ensures
            r@ == Seq::<u8>::empty(),
    {
        Hext { parsed: Vec::new() }
    }

    /// Parse a whole text and return the bytes it encodes, appended to
    /// this parser's buffer, or the first error with no partial output.
    /// For a parser from [`Hext::new`] the result is exactly
    /// [`scan::spec_parse`] of the text.
    pub fn parse(self, raw: &str) -> (r: Result<Vec<u8>, Error>)
        ensures
            match (r, scan_start(raw@, 0, self@)) {
                (Ok(v), Ok(bs)) => v@ == bs,
                (Err(e), Err(es)) => e@ == es,
                _ => false,
            },
    {
        let chars = str_to_chars(raw);
        parse_chars(&chars, self.parsed)
    }

    /// Parse one header line, given without its introducer and line
    /// break, into the configuration it declares.
    pub fn parse_header(line: &str) -> (r: Result<Header, Error>)
        ensures
            match (r, parse_header_spec(line@)) {
                (Ok(h), Ok(hs)) => h == hs,
                (Err(e), Err(es)) => e@ == es,
                _ => false,
            },
    {
        let chars = str_to_chars(line);
        parse_header_chars(&chars)
    }
}

} // verus!
