//! The header line: one declaration fixing bit order, byte order and the
//! padding policy for the rest of the input.
//!
//! The line is split on single spaces; each token must be one of `msb0`,
//! `lsb0`, `big-endian`, `little-endian` or `padbits`. Bit order and byte
//! order must each be given exactly once, in any order.

use vstd::prelude::*;

use crate::error::{Error, ErrorView, InvalidHeaderKind, InvalidHeaderKindView};
use crate::text::{char_is_space, chars_eq_str, chars_to_string, is_space};

verus! {

/// Which end of a byte the first bit of a bitstream lands in.
#[derive(Debug, PartialEq, Eq, Structural, Clone, Copy)]
pub enum BitOrder {
    Msb0,
    Lsb0,
}

/// The order of the bytes a decimal integer is encoded in.
#[derive(Debug, PartialEq, Eq, Structural, Clone, Copy)]
pub enum ByteOrder {
    LittleEndian,
    BigEndian,
}

/// The parsed header: immutable configuration for one parse.
#[derive(Debug, PartialEq, Eq, Structural, Clone, Copy)]
pub struct Header {
    pub bitorder: BitOrder,
    pub byteorder: ByteOrder,
    pub pad_bits: bool,
}

/// The line with its trailing whitespace removed.
pub open spec fn trim_end_sp(s: Seq<char>) -> Seq<char>
    decreases s.len(),
{
    if s.len() > 0 && is_space(s.last()) {
        trim_end_sp(s.drop_last())
    } else {
        s
    }
}

/// The line split on every single space, exactly as `split(' ')` splits:
/// an empty line gives one empty token, and consecutive spaces give empty
/// tokens between them.
pub open spec fn split_sp(s: Seq<char>) -> Seq<Seq<char>>
    decreases s.len(),
{
    if s.len() == 0 {
        seq![Seq::<char>::empty()]
    } else if s.last() == ' ' {
        split_sp(s.drop_last()).push(Seq::<char>::empty())
    } else {
        let r = split_sp(s.drop_last());
        r.update(r.len() - 1, r.last().push(s.last()))
    }
}

/// Fold the header tokens from `k` on into a header, starting from the
/// given partial state. Errors are raised at the first offending token;
/// a missing bit order is reported before a missing byte order.
pub open spec fn header_fold(
    toks: Seq<Seq<char>>,
    k: int,
    bit: Option<BitOrder>,
    byteo: Option<ByteOrder>,
    pad: bool,
) -> Result<Header, ErrorView>
    decreases toks.len() - k,
{
    if k < 0 || k >= toks.len() {
        match bit {
            None => Err(ErrorView::InvalidHeader(InvalidHeaderKindView::NoBitOrder)),
            Some(b) => match byteo {
                None => Err(ErrorView::InvalidHeader(InvalidHeaderKindView::NoByteOrder)),
                Some(y) => Ok(Header { bitorder: b, byteorder: y, pad_bits: pad }),
            },
        }
    } else {
        let t = toks[k];
        if t == "msb0"@ {
            if bit is Some {
                Err(ErrorView::InvalidHeader(InvalidHeaderKindView::TwoBitOrder))
            } else {
                header_fold(toks, k + 1, Some(BitOrder::Msb0), byteo, pad)
            }
        } else if t == "lsb0"@ {
            if bit is Some {
                Err(ErrorView::InvalidHeader(InvalidHeaderKindView::TwoBitOrder))
            } else {
                header_fold(toks, k + 1, Some(BitOrder::Lsb0), byteo, pad)
            }
        } else if t == "big-endian"@ {
            if byteo is Some {
                Err(ErrorView::InvalidHeader(InvalidHeaderKindView::TwoByteOrder))
            } else {
                header_fold(toks, k + 1, bit, Some(ByteOrder::BigEndian), pad)
            }
        } else if t == "little-endian"@ {
            if byteo is Some {
                Err(ErrorView::InvalidHeader(InvalidHeaderKindView::TwoByteOrder))
            } else {
                header_fold(toks, k + 1, bit, Some(ByteOrder::LittleEndian), pad)
            }
        } else if t == "padbits"@ {
            header_fold(toks, k + 1, bit, byteo, true)
        } else {
            Err(ErrorView::InvalidHeader(InvalidHeaderKindView::InvalidProperty(t)))
        }
    }
}

/// What parsing a header line yields: the header, or the first error.
pub open spec fn parse_header_spec(line: Seq<char>) -> Result<Header, ErrorView> {
    header_fold(split_sp(trim_end_sp(line)), 0, None, None, false)
}

/// Split a header line into its space-separated tokens.
fn split_tokens(line: &Vec<char>, upto: usize) -> (toks: Vec<Vec<char>>)
    requires
        upto <= line@.len(),
    ensures
        toks@.len() == split_sp(line@.subrange(0, upto as int)).len(),
        forall|j: int|
            0 <= j < toks@.len() ==> toks@[j]@ == split_sp(line@.subrange(0, upto as int))[j],
{
    let mut done: Vec<Vec<char>> = Vec::new();
    let mut cur: Vec<char> = Vec::new();
    let mut k: usize = 0;
    while k < upto
        invariant
            k <= upto,
            upto <= line@.len(),
            split_sp(line@.subrange(0, k as int)).len() == done@.len() + 1,
            forall|j: int|
                0 <= j < done@.len() ==> done@[j]@ == split_sp(line@.subrange(0, k as int))[j],
            cur@ == split_sp(line@.subrange(0, k as int)).last(),
        decreases upto - k,
    {
        let ghost pre = line@.subrange(0, k as int);
        let ghost post = line@.subrange(0, k as int + 1);
        proof {
            assert(post.drop_last() =~= pre);
            assert(post.last() == line@[k as int]);
        }
        let c = line[k];
        if c == ' ' {
            done.push(cur);
            cur = Vec::new();
        } else {
            cur.push(c);
        }
        k = k + 1;
    }
    proof {
        assert(line@.subrange(0, k as int) =~= line@.subrange(0, upto as int));
    }
    done.push(cur);
    done
}

/// Parse a header line, given as a character vector without its line break.
pub fn parse_header_chars(line: &Vec<char>) -> (r: Result<Header, Error>)
    ensures
        match (r, parse_header_spec(line@)) {
            (Ok(h), Ok(hs)) => h == hs,
            (Err(e), Err(es)) => e@ == es,
            _ => false,
        },
{
    // Trim trailing whitespace.
    let mut m: usize = line.len();
    proof {
        assert(line@.subrange(0, m as int) =~= line@);
    }
    while m > 0 && char_is_space(line[m - 1])
        invariant
            m <= line@.len(),
            trim_end_sp(line@) == trim_end_sp(line@.subrange(0, m as int)),
        decreases m,
    {
        proof {
            let s = line@.subrange(0, m as int);
            assert(s.drop_last() =~= line@.subrange(0, m as int - 1));
        }
        m = m - 1;
    }
    proof {
        let s = line@.subrange(0, m as int);
        if m == 0 {
            assert(s =~= Seq::<char>::empty());
        }
        assert(trim_end_sp(line@) == s);
    }

    let toks = split_tokens(line, m);
    let ghost sp = split_sp(trim_end_sp(line@));

    let mut bit: Option<BitOrder> = None;
    let mut byteo: Option<ByteOrder> = None;
    let mut pad: bool = false;
    let mut k: usize = 0;
    let n = toks.len();
    while k < n
        invariant
            k <= n,
            n == toks@.len(),
            sp == split_sp(trim_end_sp(line@)),
            toks@.len() == sp.len(),
            forall|j: int| 0 <= j < toks@.len() ==> toks@[j]@ == sp[j],
            parse_header_spec(line@) == header_fold(sp, k as int, bit, byteo, pad),
        decreases n - k,
    {
        let t = &toks[k];
        if chars_eq_str(t, "msb0") {
            if bit.is_some() {
                return Err(Error::InvalidHeader(InvalidHeaderKind::TwoBitOrder));
            }
            bit = Some(BitOrder::Msb0);
        } else if chars_eq_str(t, "lsb0") {
            if bit.is_some() {
                return Err(Error::InvalidHeader(InvalidHeaderKind::TwoBitOrder));
            }
            bit = Some(BitOrder::Lsb0);
        } else if chars_eq_str(t, "big-endian") {
            if byteo.is_some() {
                return Err(Error::InvalidHeader(InvalidHeaderKind::TwoByteOrder));
            }
            byteo = Some(ByteOrder::BigEndian);
        } else if chars_eq_str(t, "little-endian") {
            if byteo.is_some() {
                return Err(Error::InvalidHeader(InvalidHeaderKind::TwoByteOrder));
            }
            byteo = Some(ByteOrder::LittleEndian);
        } else if chars_eq_str(t, "padbits") {
            pad = true;
        } else {
            return Err(
                Error::InvalidHeader(InvalidHeaderKind::InvalidProperty(chars_to_string(t))),
            );
        }
        k = k + 1;
    }
    match (bit, byteo) {
        (None, _) => Err(Error::InvalidHeader(InvalidHeaderKind::NoBitOrder)),
        (_, None) => Err(Error::InvalidHeader(InvalidHeaderKind::NoByteOrder)),
        (Some(b), Some(y)) => Ok(Header { bitorder: b, byteorder: y, pad_bits: pad }),
    }
}

} // verus!
