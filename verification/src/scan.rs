//! The body scanner: a single pass over the input characters that
//! dispatches among hexadecimal, decimal, literal and bitstream modes and
//! appends encoded bytes to the output.
//!
//! The meaning of a parse is fixed by the mutually recursive spec
//! functions below, one per scanner state; the executable scanner is one
//! loop over a mode tag, proved at every step to stay on the spec's path.

use vstd::prelude::*;
use vstd::utf8::encode_scalar;

use crate::bits::{bit_buf_bits, flush_bits, flush_push, BitBuf};
use crate::error::{Error, ErrorView};
use crate::header::{parse_header_chars, parse_header_spec, Header};
use crate::numeric::{encode_token, encode_token_push, DecKind};
use crate::text::{char_is_hex_digit, char_is_space, copy_range, escape_char, hex_digit_value,
    hex_val, is_hex_digit, is_space, push_utf8, resolve_escape};

verus! {

/// Reading hexadecimal octets: the default state, returned to after every
/// other mode completes a token. The accumulated output is `out`; the
/// result is the whole parse's outcome from this point on.
pub open spec fn scan_hex(s: Seq<char>, hdr: Header, i: int, out: Seq<u8>) -> Result<
    Seq<u8>,
    ErrorView,
>
    decreases s.len() - i, 0int,
{
    if i < 0 || i >= s.len() {
        Ok(out)
    } else {
        let c = s[i];
        if c == '.' {
            scan_bin(s, hdr, i + 1, Seq::<bool>::empty(), out)
        } else if c == '#' {
            scan_hex_comment(s, hdr, i + 1, out)
        } else if is_space(c) {
            scan_hex(s, hdr, i + 1, out)
        } else if is_hex_digit(c) {
            if i + 1 < s.len() && is_hex_digit(s[i + 1]) {
                scan_hex(s, hdr, i + 2, out.push((hex_val(c) * 16 + hex_val(s[i + 1])) as u8))
            } else {
                Err(ErrorView::IncompleteOctet)
            }
        } else if c == '=' {
            scan_token(s, hdr, i + 1, DecKind::Unsized, Seq::<char>::empty(), out)
        } else if c == 'i' {
            scan_token(s, hdr, i + 1, DecKind::Signed, Seq::<char>::empty(), out)
        } else if c == 'u' {
            scan_token(s, hdr, i + 1, DecKind::Unsigned, Seq::<char>::empty(), out)
        } else if c == '"' {
            scan_lit(s, hdr, i + 1, out)
        } else {
            Err(ErrorView::InvalidCharacter(c))
        }
    }
}

/// Inside a comment begun in hexadecimal position: discard to the end of
/// the line.
pub open spec fn scan_hex_comment(s: Seq<char>, hdr: Header, i: int, out: Seq<u8>) -> Result<
    Seq<u8>,
    ErrorView,
>
    decreases s.len() - i, 1int,
{
    if i < 0 || i >= s.len() {
        Ok(out)
    } else if s[i] == '\n' {
        scan_hex(s, hdr, i + 1, out)
    } else {
        scan_hex_comment(s, hdr, i + 1, out)
    }
}

/// Collecting a decimal token of the given kind: characters up to the
/// next whitespace, which also ends the token, belong to it.
pub open spec fn scan_token(
    s: Seq<char>,
    hdr: Header,
    i: int,
    kind: DecKind,
    tok: Seq<char>,
    out: Seq<u8>,
) -> Result<Seq<u8>, ErrorView>
    decreases s.len() - i, 1int,
{
    if i < 0 || i >= s.len() {
        match encode_token(kind, tok, hdr.byteorder) {
            Ok(bs) => Ok(out + bs),
            Err(e) => Err(e),
        }
    } else if is_space(s[i]) {
        match encode_token(kind, tok, hdr.byteorder) {
            Ok(bs) => scan_hex(s, hdr, i + 1, out + bs),
            Err(e) => Err(e),
        }
    } else {
        scan_token(s, hdr, i + 1, kind, tok.push(s[i]), out)
    }
}

/// Inside a string literal: characters contribute their UTF-8 bytes, a
/// backslash escapes, and the literal must close before line or input end.
pub open spec fn scan_lit(s: Seq<char>, hdr: Header, i: int, out: Seq<u8>) -> Result<
    Seq<u8>,
    ErrorView,
>
    decreases s.len() - i, 1int,
{
    if i < 0 || i >= s.len() {
        Err(ErrorView::UnclosedStringLiteral)
    } else {
        let c = s[i];
        if c == '"' {
            scan_hex(s, hdr, i + 1, out)
        } else if c == '\\' {
            if i + 1 >= s.len() {
                Err(ErrorView::UnclosedStringLiteral)
            } else {
                match escape_char(s[i + 1]) {
                    Some(e) => scan_lit(s, hdr, i + 2, out.push(e as u8)),
                    None => Err(ErrorView::InvalidEscape(s[i + 1])),
                }
            }
        } else if c == '\n' {
            Err(ErrorView::UnclosedStringLiteral)
        } else {
            scan_lit(s, hdr, i + 1, out + encode_scalar(c as u32))
        }
    }
}

/// Inside a bitstream run, its introducing `.` consumed: bits accumulate,
/// a `.` joins the next run on directly, and any non-bit, non-comment,
/// non-whitespace character ends the group and flushes it.
pub open spec fn scan_bin(s: Seq<char>, hdr: Header, i: int, bits: Seq<bool>, out: Seq<u8>)
    -> Result<Seq<u8>, ErrorView>
    decreases s.len() - i, 1int,
{
    if i < 0 || i >= s.len() {
        match flush_bits(bits, hdr.pad_bits) {
            Ok(bs) => Ok(out + bs),
            Err(e) => Err(e),
        }
    } else {
        let c = s[i];
        if c == '0' {
            scan_bin(s, hdr, i + 1, bits.push(false), out)
        } else if c == '1' {
            scan_bin(s, hdr, i + 1, bits.push(true), out)
        } else if c == '#' {
            scan_bin_comment(s, hdr, i + 1, bits, out)
        } else if is_space(c) {
            scan_bin_gap(s, hdr, i + 1, bits, out)
        } else if c == '.' {
            scan_bin(s, hdr, i + 1, bits, out)
        } else {
            match flush_bits(bits, hdr.pad_bits) {
                Ok(bs) => scan_hex(s, hdr, i, out + bs),
                Err(e) => Err(e),
            }
        }
    }
}

/// Inside a comment begun within a bitstream run: discard to the end of
/// the line, then carry the run on.
pub open spec fn scan_bin_comment(s: Seq<char>, hdr: Header, i: int, bits: Seq<bool>, out: Seq<u8>)
    -> Result<Seq<u8>, ErrorView>
    decreases s.len() - i, 2int,
{
    if i < 0 || i >= s.len() {
        match flush_bits(bits, hdr.pad_bits) {
            Ok(bs) => Ok(out + bs),
            Err(e) => Err(e),
        }
    } else if s[i] == '\n' {
        scan_bin(s, hdr, i + 1, bits, out)
    } else {
        scan_bin_comment(s, hdr, i + 1, bits, out)
    }
}

/// In the whitespace gap after a bitstream run: whitespace and comment
/// lines pass, a `.` starts the next run of the same group, and anything
/// else flushes the group and returns to hexadecimal position.
pub open spec fn scan_bin_gap(s: Seq<char>, hdr: Header, i: int, bits: Seq<bool>, out: Seq<u8>)
    -> Result<Seq<u8>, ErrorView>
    decreases s.len() - i, 1int,
{
    if i < 0 || i >= s.len() {
        match flush_bits(bits, hdr.pad_bits) {
            Ok(bs) => Ok(out + bs),
            Err(e) => Err(e),
        }
    } else {
        let c = s[i];
        if is_space(c) {
            scan_bin_gap(s, hdr, i + 1, bits, out)
        } else if c == '#' {
            scan_bin_gap_comment(s, hdr, i + 1, bits, out)
        } else if c == '.' {
            scan_bin(s, hdr, i + 1, bits, out)
        } else {
            match flush_bits(bits, hdr.pad_bits) {
                Ok(bs) => scan_hex(s, hdr, i, out + bs),
                Err(e) => Err(e),
            }
        }
    }
}

/// Inside a comment line met in the gap between bitstream runs.
pub open spec fn scan_bin_gap_comment(
    s: Seq<char>,
    hdr: Header,
    i: int,
    bits: Seq<bool>,
    out: Seq<u8>,
) -> Result<Seq<u8>, ErrorView>
    decreases s.len() - i, 2int,
{
    if i < 0 || i >= s.len() {
        match flush_bits(bits, hdr.pad_bits) {
            Ok(bs) => Ok(out + bs),
            Err(e) => Err(e),
        }
    } else if s[i] == '\n' {
        scan_bin_gap(s, hdr, i + 1, bits, out)
    } else {
        scan_bin_gap_comment(s, hdr, i + 1, bits, out)
    }
}

/// The position of the first line break at or after `i`, or the input's
/// length if none remains.
pub open spec fn line_end(s: Seq<char>, i: int) -> int
    decreases s.len() - i,
{
    if i < 0 || i >= s.len() {
        s.len() as int
    } else if s[i] == '\n' {
        i
    } else {
        line_end(s, i + 1)
    }
}

/// Before the header: blank space and comment lines pass; a `~` line
/// fixes the header and hands over to the body scanner; any other data
/// character is an error; input may end with no header and no bytes.
pub open spec fn scan_start(s: Seq<char>, i: int, acc: Seq<u8>) -> Result<Seq<u8>, ErrorView>
    decreases s.len() - i, 0int,
{
    if i < 0 || i >= s.len() {
        Ok(acc)
    } else {
        let c = s[i];
        if c == '#' {
            scan_start_comment(s, i + 1, acc)
        } else if is_space(c) {
            scan_start(s, i + 1, acc)
        } else if c == '~' {
            let le = line_end(s, i + 1);
            let body = if le < s.len() {
                le + 1
            } else {
                le
            };
            match parse_header_spec(s.subrange(i + 1, le)) {
                Ok(h) => scan_hex(s, h, body, acc),
                Err(e) => Err(e),
            }
        } else {
            Err(ErrorView::NoHeader)
        }
    }
}

/// Inside a comment line before the header.
pub open spec fn scan_start_comment(s: Seq<char>, i: int, acc: Seq<u8>) -> Result<Seq<u8>, ErrorView>
    decreases s.len() - i, 1int,
{
    if i < 0 || i >= s.len() {
        Ok(acc)
    } else if s[i] == '\n' {
        scan_start(s, i + 1, acc)
    } else {
        scan_start_comment(s, i + 1, acc)
    }
}

/// What parsing a whole text yields: its encoded bytes, or the first
/// error. This is the meaning of the notation.
pub open spec fn spec_parse(s: Seq<char>) -> Result<Seq<u8>, ErrorView> {
    scan_start(s, 0, Seq::<u8>::empty())
}

/// Law: in hexadecimal position, two consecutive hexadecimal digits
/// contribute exactly one byte, the first digit's value sixteenfold plus
/// the second digit's value; the scan then carries on after the pair.
pub proof fn lemma_hex_pair_decodes(s: Seq<char>, hdr: Header, i: int, out: Seq<u8>)
    requires
        0 <= i,
        i + 2 <= s.len(),
        is_hex_digit(s[i]),
        is_hex_digit(s[i + 1]),
    ensures
        scan_hex(s, hdr, i, out) == scan_hex(
            s,
            hdr,
            i + 2,
            out.push((hex_val(s[i]) * 16 + hex_val(s[i + 1])) as u8),
        ),
{
}

/// Law: a `#` in hexadecimal position discards the remainder of its line
/// and contributes no bytes: the scan carries on just past the line's
/// end, with the output unchanged.
pub proof fn lemma_comment_discards(s: Seq<char>, hdr: Header, i: int, out: Seq<u8>)
    requires
        0 <= i < s.len(),
        s[i] == '#',
    ensures
        scan_hex(s, hdr, i, out) == (if line_end(s, i) < s.len() {
            scan_hex(s, hdr, line_end(s, i) + 1, out)
        } else {
            Ok(out)
        }),
{
    lemma_comment_runs_to_line_end(s, hdr, i + 1, out);
}

/// A comment's tail is skipped to the next line break, whatever it holds.
proof fn lemma_comment_runs_to_line_end(s: Seq<char>, hdr: Header, i: int, out: Seq<u8>)
    requires
        0 <= i <= s.len(),
    ensures
        scan_hex_comment(s, hdr, i, out) == (if line_end(s, i) < s.len() {
            scan_hex(s, hdr, line_end(s, i) + 1, out)
        } else {
            Ok(out)
        }),
    decreases s.len() - i,
{
    if i < s.len() && s[i] != '\n' {
        lemma_comment_runs_to_line_end(s, hdr, i + 1, out);
    }
}

/// Law: a `#` inside a bitstream run also discards the remainder of its
/// line and contributes neither bytes nor bits: the run carries on just
/// past the line's end with the collected bits unchanged, and at input
/// end the group is flushed as if the comment were absent.
pub proof fn lemma_bitstream_comment_discards(
    s: Seq<char>,
    hdr: Header,
    i: int,
    bits: Seq<bool>,
    out: Seq<u8>,
)
    requires
        0 <= i < s.len(),
        s[i] == '#',
    ensures
        scan_bin(s, hdr, i, bits, out) == (if line_end(s, i) < s.len() {
            scan_bin(s, hdr, line_end(s, i) + 1, bits, out)
        } else {
            match flush_bits(bits, hdr.pad_bits) {
                Ok(bs) => Ok(out + bs),
                Err(e) => Err(e),
            }
        }),
{
    lemma_bitstream_comment_runs_to_line_end(s, hdr, i + 1, bits, out);
}

/// A comment's tail within a run is skipped to the next line break.
proof fn lemma_bitstream_comment_runs_to_line_end(
    s: Seq<char>,
    hdr: Header,
    i: int,
    bits: Seq<bool>,
    out: Seq<u8>,
)
    requires
        0 <= i <= s.len(),
    ensures
        scan_bin_comment(s, hdr, i, bits, out) == (if line_end(s, i) < s.len() {
            scan_bin(s, hdr, line_end(s, i) + 1, bits, out)
        } else {
            match flush_bits(bits, hdr.pad_bits) {
                Ok(bs) => Ok(out + bs),
                Err(e) => Err(e),
            }
        }),
    decreases s.len() - i,
{
    if i < s.len() && s[i] != '\n' {
        lemma_bitstream_comment_runs_to_line_end(s, hdr, i + 1, bits, out);
    }
}

/// Law: a parse is a pure function of its input text: equal texts give
/// equal outcomes, so parsing the same valid text twice yields identical
/// byte output, and a failure on one text cannot disturb another parse.
pub proof fn lemma_parse_deterministic(s1: Seq<char>, s2: Seq<char>)
    requires
        s1 == s2,
    ensures
        spec_parse(s1) == spec_parse(s2),
{
}

/// Which state the executable scanner is in.
#[derive(Debug, PartialEq, Eq, Structural, Clone, Copy)]
enum Mode {
    Hex,
    HexComment,
    Token,
    Lit,
    Bin,
    BinComment,
    BinGap,
    BinGapComment,
}

/// Termination rank of a scanner state: states that can step to another
/// state without consuming a character must outrank it.
spec fn mode_rank(m: Mode) -> int {
    match m {
        Mode::Hex => 0,
        Mode::BinComment => 2,
        Mode::BinGapComment => 2,
        _ => 1,
    }
}

/// The first line break's position at or after `from`, or the length.
fn find_line_end(s: &Vec<char>, from: usize) -> (j: usize)
    requires
        from <= s@.len(),
    ensures
        j as int == line_end(s@, from as int),
        from <= j <= s@.len(),
{
    let n = s.len();
    let mut k: usize = from;
    while k < n
        invariant
            from <= k <= n,
            n == s@.len(),
            line_end(s@, from as int) == line_end(s@, k as int),
        decreases n - k,
    {
        if s[k] == '\n' {
            return k;
        }
        k = k + 1;
    }
    k
}

/// Parse a text, given as its characters, appending the bytes it encodes
/// to `acc`. Returns the filled buffer, or the first error with nothing
/// of the partial output.
pub fn parse_chars(s: &Vec<char>, acc: Vec<u8>) -> (r: Result<Vec<u8>, Error>)
    ensures
        match (r, scan_start(s@, 0, acc@)) {
            (Ok(v), Ok(bs)) => v@ == bs,
            (Err(e), Err(es)) => e@ == es,
            _ => false,
        },
{
    let n = s.len();
    let mut i: usize = 0;
    let mut in_comment: bool = false;

    // Leading blank lines and comments, up to the header introducer.
    loop
        invariant_except_break
            i <= n,
            n == s@.len(),
            (if in_comment {
                scan_start_comment(s@, i as int, acc@)
            } else {
                scan_start(s@, i as int, acc@)
            }) == scan_start(s@, 0, acc@),
        ensures
            i <= n,
            n == s@.len(),
            scan_start(s@, i as int, acc@) == scan_start(s@, 0, acc@),
            i < n ==> s@[i as int] != '#' && !is_space(s@[i as int]),
        decreases n - i,
    {
        if i == n {
            break;
        }
        let c = s[i];
        if in_comment {
            if c == '\n' {
                in_comment = false;
            }
            i = i + 1;
        } else if c == '#' {
            in_comment = true;
            i = i + 1;
        } else if char_is_space(c) {
            i = i + 1;
        } else {
            break;
        }
    }
    if i == n {
        return Ok(acc);
    }
    if s[i] != '~' {
        return Err(Error::NoHeader);
    }
    let le = find_line_end(s, i + 1);
    let line = copy_range(s, i + 1, le);
    let hdr: Header;
    match parse_header_chars(&line) {
        Ok(h) => {
            hdr = h;
        },
        Err(e) => {
            proof {
                assert(scan_start(s@, i as int, acc@) == match parse_header_spec(
                    s@.subrange(i as int + 1, le as int),
                ) {
                    Ok(h) => scan_hex(
                        s@,
                        h,
                        if le < s@.len() {
                            le + 1
                        } else {
                            le as int
                        },
                        acc@,
                    ),
                    Err(es) => Err(es),
                });
            }
            return Err(e);
        },
    }
    i = if le < n {
        le + 1
    } else {
        le
    };

    // The body, one character at a time.
    let ghost goal = scan_start(s@, 0, acc@);
    let mut out = acc;
    let mut bits = BitBuf::new();
    let mut tok: Vec<char> = Vec::new();
    let mut kind = DecKind::Unsized;
    let mut mode = Mode::Hex;
    proof {
        assert(scan_hex(s@, hdr, i as int, out@) == goal);
    }
    loop
        invariant
            i <= n,
            n == s@.len(),
            goal == scan_start(s@, 0, acc@),
            (match mode {
                Mode::Hex | Mode::HexComment | Mode::Token | Mode::Lit => bit_buf_bits(bits)
                    == Seq::<bool>::empty(),
                _ => true,
            }),
            (match mode {
                Mode::Hex => scan_hex(s@, hdr, i as int, out@) == goal,
                Mode::HexComment => scan_hex_comment(s@, hdr, i as int, out@) == goal,
                Mode::Token => scan_token(s@, hdr, i as int, kind, tok@, out@) == goal,
                Mode::Lit => scan_lit(s@, hdr, i as int, out@) == goal,
                Mode::Bin => scan_bin(s@, hdr, i as int, bit_buf_bits(bits), out@) == goal,
                Mode::BinComment => scan_bin_comment(s@, hdr, i as int, bit_buf_bits(bits), out@)
                    == goal,
                Mode::BinGap => scan_bin_gap(s@, hdr, i as int, bit_buf_bits(bits), out@) == goal,
                Mode::BinGapComment => scan_bin_gap_comment(
                    s@,
                    hdr,
                    i as int,
                    bit_buf_bits(bits),
                    out@,
                ) == goal,
            }),
        decreases n - i, mode_rank(mode),
    {
        if i == n {
            match mode {
                Mode::Hex | Mode::HexComment => {
                    return Ok(out);
                },
                Mode::Token => {
                    match encode_token_push(kind, &tok, hdr.byteorder, &mut out) {
                        Ok(u) => {
                            return Ok(out);
                        },
                        Err(e) => {
                            return Err(e);
                        },
                    }
                },
                Mode::Lit => {
                    return Err(Error::UnclosedStringLiteral);
                },
                Mode::Bin | Mode::BinComment | Mode::BinGap | Mode::BinGapComment => {
                    match flush_push(&mut bits, hdr.pad_bits, &mut out) {
                        Ok(u) => {
                            return Ok(out);
                        },
                        Err(e) => {
                            return Err(e);
                        },
                    }
                },
            }
        }
        let c = s[i];
        match mode {
            Mode::Hex => {
                if c == '.' {
                    mode = Mode::Bin;
                    i = i + 1;
                } else if c == '#' {
                    mode = Mode::HexComment;
                    i = i + 1;
                } else if char_is_space(c) {
                    i = i + 1;
                } else if char_is_hex_digit(c) {
                    if i + 1 < n && char_is_hex_digit(s[i + 1]) {
                        let b: u8 = hex_digit_value(c) * 16 + hex_digit_value(s[i + 1]);
                        out.push(b);
                        i = i + 2;
                    } else {
                        return Err(Error::IncompleteOctet);
                    }
                } else if c == '=' {
                    kind = DecKind::Unsized;
                    tok = Vec::new();
                    mode = Mode::Token;
                    i = i + 1;
                } else if c == 'i' {
                    kind = DecKind::Signed;
                    tok = Vec::new();
                    mode = Mode::Token;
                    i = i + 1;
                } else if c == 'u' {
                    kind = DecKind::Unsigned;
                    tok = Vec::new();
                    mode = Mode::Token;
                    i = i + 1;
                } else if c == '"' {
                    mode = Mode::Lit;
                    i = i + 1;
                } else {
                    return Err(Error::InvalidCharacter(c));
                }
            },
            Mode::HexComment => {
                if c == '\n' {
                    mode = Mode::Hex;
                }
                i = i + 1;
            },
            Mode::Token => {
                if char_is_space(c) {
                    match encode_token_push(kind, &tok, hdr.byteorder, &mut out) {
                        Ok(u) => {
                            mode = Mode::Hex;
                            i = i + 1;
                        },
                        Err(e) => {
                            return Err(e);
                        },
                    }
                } else {
                    tok.push(c);
                    i = i + 1;
                }
            },
            Mode::Lit => {
                if c == '"' {
                    mode = Mode::Hex;
                    i = i + 1;
                } else if c == '\\' {
                    if i + 1 == n {
                        return Err(Error::UnclosedStringLiteral);
                    }
                    match resolve_escape(s[i + 1]) {
                        Some(e) => {
                            out.push(e as u8);
                            i = i + 2;
                        },
                        None => {
                            return Err(Error::InvalidEscape(s[i + 1]));
                        },
                    }
                } else if c == '\n' {
                    return Err(Error::UnclosedStringLiteral);
                } else {
                    push_utf8(&mut out, c);
                    i = i + 1;
                }
            },
            Mode::Bin => {
                if c == '0' {
                    bits.push(false);
                    i = i + 1;
                } else if c == '1' {
                    bits.push(true);
                    i = i + 1;
                } else if c == '#' {
                    mode = Mode::BinComment;
                    i = i + 1;
                } else if char_is_space(c) {
                    mode = Mode::BinGap;
                    i = i + 1;
                } else if c == '.' {
                    i = i + 1;
                } else {
                    match flush_push(&mut bits, hdr.pad_bits, &mut out) {
                        Ok(u) => {
                            bits = BitBuf::new();
                            mode = Mode::Hex;
                        },
                        Err(e) => {
                            return Err(e);
                        },
                    }
                }
            },
            Mode::BinComment => {
                if c == '\n' {
                    mode = Mode::Bin;
                }
                i = i + 1;
            },
            Mode::BinGap => {
                if char_is_space(c) {
                    i = i + 1;
                } else if c == '#' {
                    mode = Mode::BinGapComment;
                    i = i + 1;
                } else if c == '.' {
                    mode = Mode::Bin;
                    i = i + 1;
                } else {
                    match flush_push(&mut bits, hdr.pad_bits, &mut out) {
                        Ok(u) => {
                            bits = BitBuf::new();
                            mode = Mode::Hex;
                        },
                        Err(e) => {
                            return Err(e);
                        },
                    }
                }
            },
            Mode::BinGapComment => {
                if c == '\n' {
                    mode = Mode::BinGap;
                }
                i = i + 1;
            },
        }
    }
}

} // verus!
