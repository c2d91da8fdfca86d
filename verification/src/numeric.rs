//! Decimal tokens and their byte encodings.
//!
//! An unsized decimal (`=<value>`) is encoded at the smallest of the
//! 8/16/32/64-bit widths that represents it, signed when the token starts
//! with a sign character, unsigned otherwise. A sized decimal
//! (`i<width>=<value>` or `u<width>=<value>`) is encoded at exactly the
//! named width. Bytes come out little-endian and are reversed afterwards
//! when the header asks for big-endian.

use vstd::prelude::*;

use crate::error::{Error, ErrorView};
use crate::header::ByteOrder;
use crate::text::{char_is_dec_digit, chars_eq_str, chars_to_string, copy_range, dec_digit_val,
    dec_digit_value, is_dec_digit};

verus! {

/// Which of the three decimal token forms is being read.
#[derive(Debug, PartialEq, Eq, Structural, Clone, Copy)]
pub enum DecKind {
    /// `=<value>`: width inferred from the value.
    Unsized,
    /// `i<width>=<value>`: signed at an explicit width.
    Signed,
    /// `u<width>=<value>`: unsigned at an explicit width.
    Unsigned,
}

/// The number a string of decimal digits denotes.
pub open spec fn dec_val(t: Seq<char>) -> nat
    decreases t.len(),
{
    if t.len() == 0 {
        0
    } else {
        dec_val(t.drop_last()) * 10 + dec_digit_val(t.last())
    }
}

/// Whether every character is a decimal digit.
pub open spec fn all_dec_digits(t: Seq<char>) -> bool {
    forall|k: int| 0 <= k < t.len() ==> is_dec_digit(t[k])
}

/// The unbounded value of an unsigned decimal token: an optional `+`,
/// then at least one digit.
pub open spec fn parse_uint_spec(t: Seq<char>) -> Option<nat> {
    let d = if t.len() > 0 && t[0] == '+' {
        t.drop_first()
    } else {
        t
    };
    if d.len() > 0 && all_dec_digits(d) {
        Some(dec_val(d))
    } else {
        None
    }
}

/// The unbounded value of a signed decimal token: an optional `+` or `-`,
/// then at least one digit.
pub open spec fn parse_int_spec(t: Seq<char>) -> Option<int> {
    if t.len() > 0 && t[0] == '-' {
        let d = t.drop_first();
        if d.len() > 0 && all_dec_digits(d) {
            Some(-(dec_val(d) as int))
        } else {
            None
        }
    } else {
        match parse_uint_spec(t) {
            Some(v) => Some(v as int),
            None => None,
        }
    }
}

/// The little-endian bytes of `u`, truncated to `n` bytes.
pub open spec fn le_bytes_nat(u: nat, n: nat) -> Seq<u8>
    decreases n,
{
    if n == 0 {
        Seq::<u8>::empty()
    } else {
        seq![(u % 256) as u8] + le_bytes_nat(u / 256, (n - 1) as nat)
    }
}

/// The count of values an `n`-byte encoding can hold, for the widths the
/// notation knows.
pub open spec fn two_pow_bytes(n: nat) -> nat {
    if n == 1 {
        0x100
    } else if n == 2 {
        0x10000
    } else if n == 4 {
        0x1_0000_0000
    } else {
        0x1_0000_0000_0000_0000
    }
}

/// The two's-complement residue of `v` at a width of `n` bytes.
pub open spec fn residue_spec(v: int, n: nat) -> nat {
    if v >= 0 {
        v as nat
    } else {
        (v + two_pow_bytes(n)) as nat
    }
}

/// How many bytes the unsized encoder uses for an unsigned value.
pub open spec fn unsized_unsigned_nbytes(v: nat) -> nat {
    if v > 0xFFFF_FFFF {
        8
    } else if v > 0xFFFF {
        4
    } else if v > 0xFF {
        2
    } else {
        1
    }
}

/// How many bytes the unsized encoder uses for a signed value.
pub open spec fn unsized_signed_nbytes(v: int) -> nat {
    if v > 0x7FFF_FFFF || v < -0x8000_0000 {
        8
    } else if v > 0x7FFF || v < -0x8000 {
        4
    } else if v > 0x7F || v < -0x80 {
        2
    } else {
        1
    }
}

/// The little-endian bytes of an unsized decimal token, or the error it
/// raises. A token beginning with `-` or `+` is encoded signed; any other
/// is encoded unsigned. Width is the smallest fitting one.
pub open spec fn unsized_dec_bytes(tok: Seq<char>) -> Result<Seq<u8>, ErrorView> {
    if tok.len() == 0 {
        Err(ErrorView::InvalidDecimal(tok))
    } else if tok[0] == '-' || tok[0] == '+' {
        match parse_int_spec(tok) {
            Some(v) => if -0x8000_0000_0000_0000 <= v <= 0x7FFF_FFFF_FFFF_FFFF {
                Ok(le_bytes_nat(residue_spec(v, unsized_signed_nbytes(v)), unsized_signed_nbytes(v)))
            } else {
                Err(ErrorView::InvalidDecimal(tok))
            },
            None => Err(ErrorView::InvalidDecimal(tok)),
        }
    } else {
        match parse_uint_spec(tok) {
            Some(v) => if v <= 0xFFFF_FFFF_FFFF_FFFF {
                Ok(le_bytes_nat(v, unsized_unsigned_nbytes(v)))
            } else {
                Err(ErrorView::InvalidDecimal(tok))
            },
            None => Err(ErrorView::InvalidDecimal(tok)),
        }
    }
}

/// The little-endian bytes of a sized signed value token at `n` bytes, or
/// the error it raises.
pub open spec fn sized_signed_bytes(value: Seq<char>, n: nat) -> Result<Seq<u8>, ErrorView> {
    match parse_int_spec(value) {
        Some(v) => if -((two_pow_bytes(n) / 2) as int) <= v < (two_pow_bytes(n) / 2) as int {
            Ok(le_bytes_nat(residue_spec(v, n), n))
        } else {
            Err(ErrorView::InvalidSignedDecimal(value))
        },
        None => Err(ErrorView::InvalidSignedDecimal(value)),
    }
}

/// The little-endian bytes of a sized unsigned value token at `n` bytes,
/// or the error it raises.
pub open spec fn sized_unsigned_bytes(value: Seq<char>, n: nat) -> Result<Seq<u8>, ErrorView> {
    match parse_uint_spec(value) {
        Some(v) => if v < two_pow_bytes(n) {
            Ok(le_bytes_nat(v, n))
        } else {
            Err(ErrorView::InvalidUnsignedDecimal(value))
        },
        None => Err(ErrorView::InvalidUnsignedDecimal(value)),
    }
}

/// The position of the first `=` at or after `i`, or the length if none.
pub open spec fn first_eq(t: Seq<char>, i: int) -> int
    decreases t.len() - i,
{
    if i < 0 || i >= t.len() {
        t.len() as int
    } else if t[i] == '=' {
        i
    } else {
        first_eq(t, i + 1)
    }
}

/// The little-endian bytes of a sized decimal token `<width>=<value>`,
/// or the error it raises. Splitting is on the first `=`; the width must
/// be exactly `8`, `16`, `32` or `64`.
pub open spec fn sized_dec_bytes(tok: Seq<char>, signed: bool) -> Result<Seq<u8>, ErrorView> {
    let p = first_eq(tok, 0);
    if p >= tok.len() {
        if signed {
            Err(ErrorView::InvalidSignedDecimal(tok))
        } else {
            Err(ErrorView::InvalidDecimal(tok))
        }
    } else {
        let bitness = tok.subrange(0, p);
        let value = tok.subrange(p + 1, tok.len() as int);
        if bitness == "8"@ {
            if signed { sized_signed_bytes(value, 1) } else { sized_unsigned_bytes(value, 1) }
        } else if bitness == "16"@ {
            if signed { sized_signed_bytes(value, 2) } else { sized_unsigned_bytes(value, 2) }
        } else if bitness == "32"@ {
            if signed { sized_signed_bytes(value, 4) } else { sized_unsigned_bytes(value, 4) }
        } else if bitness == "64"@ {
            if signed { sized_signed_bytes(value, 8) } else { sized_unsigned_bytes(value, 8) }
        } else {
            Err(ErrorView::InvalidBitness(bitness))
        }
    }
}

/// What one decimal token contributes to the output: its little-endian
/// bytes, reversed when the header asks for big-endian, or the error it
/// raises. Byte order never affects whether a token is accepted.
pub open spec fn encode_token(kind: DecKind, tok: Seq<char>, byteo: ByteOrder) -> Result<
    Seq<u8>,
    ErrorView,
> {
    let r = match kind {
        DecKind::Unsized => unsized_dec_bytes(tok),
        DecKind::Signed => sized_dec_bytes(tok, true),
        DecKind::Unsigned => sized_dec_bytes(tok, false),
    };
    match r {
        Ok(bs) => if byteo == ByteOrder::BigEndian {
            Ok(bs.reverse())
        } else {
            Ok(bs)
        },
        Err(e) => Err(e),
    }
}

/// The number a little-endian byte string denotes.
pub open spec fn le_val(bs: Seq<u8>) -> nat
    decreases bs.len(),
{
    if bs.len() == 0 {
        0
    } else {
        bs[0] as nat + 256 * le_val(bs.drop_first())
    }
}

/// The count of values `n` bytes can hold, for any `n`.
pub open spec fn pow256(n: nat) -> nat
    decreases n,
{
    if n == 0 {
        1
    } else {
        256 * pow256((n - 1) as nat)
    }
}

/// An `n`-byte little-endian encoding is `n` bytes long.
pub proof fn lemma_le_bytes_len(u: nat, n: nat)
    ensures
        le_bytes_nat(u, n).len() == n,
    decreases n,
{
    if n > 0 {
        lemma_le_bytes_len(u / 256, (n - 1) as nat);
    }
}

/// A little-endian encoding reads back as the encoded value: for any
/// value below the width's capacity, decoding the `n` bytes of
/// [`le_bytes_nat`] gives the value back.
pub proof fn lemma_le_bytes_roundtrip(u: nat, n: nat)
    requires
        u < pow256(n),
    ensures
        le_val(le_bytes_nat(u, n)) == u,
    decreases n,
{
    if n == 0 {
        assert(u == 0);
    } else {
        let rest = le_bytes_nat(u / 256, (n - 1) as nat);
        assert(le_bytes_nat(u, n).drop_first() =~= rest);
        assert(u / 256 < pow256((n - 1) as nat));
        lemma_le_bytes_roundtrip(u / 256, (n - 1) as nat);
    }
}

/// The widths the notation knows agree with the general capacity count.
pub proof fn lemma_two_pow_bytes_is_pow256(n: nat)
    requires
        n == 1 || n == 2 || n == 4 || n == 8,
    ensures
        two_pow_bytes(n) == pow256(n),
{
    reveal_with_fuel(pow256, 9);
}

/// Law: the unsized unsigned encoder picks the minimal covering width.
/// The chosen width holds the value, no smaller offered width does, and
/// the emitted little-endian bytes decode back to the value.
pub proof fn lemma_unsized_unsigned_minimal(v: nat)
    requires
        v < 0x1_0000_0000_0000_0000,
    ensures
        le_bytes_nat(v, unsized_unsigned_nbytes(v)).len() == unsized_unsigned_nbytes(v),
        v < two_pow_bytes(unsized_unsigned_nbytes(v)),
        unsized_unsigned_nbytes(v) == 2 ==> v > 0xFF,
        unsized_unsigned_nbytes(v) == 4 ==> v > 0xFFFF,
        unsized_unsigned_nbytes(v) == 8 ==> v > 0xFFFF_FFFF,
        le_val(le_bytes_nat(v, unsized_unsigned_nbytes(v))) == v,
{
    let n = unsized_unsigned_nbytes(v);
    lemma_le_bytes_len(v, n);
    lemma_two_pow_bytes_is_pow256(n);
    lemma_le_bytes_roundtrip(v, n);
}

/// Law: the unsized signed encoder picks the minimal covering width. The
/// chosen width's signed range holds the value, no smaller offered width
/// does, and the residue that is encoded fits the width.
pub proof fn lemma_unsized_signed_minimal(v: int)
    requires
        -0x8000_0000_0000_0000 <= v <= 0x7FFF_FFFF_FFFF_FFFF,
    ensures
        -((two_pow_bytes(unsized_signed_nbytes(v)) / 2) as int) <= v < (two_pow_bytes(
            unsized_signed_nbytes(v),
        ) / 2) as int,
        unsized_signed_nbytes(v) == 2 ==> (v > 0x7F || v < -0x80),
        unsized_signed_nbytes(v) == 4 ==> (v > 0x7FFF || v < -0x8000),
        unsized_signed_nbytes(v) == 8 ==> (v > 0x7FFF_FFFF || v < -0x8000_0000),
        residue_spec(v, unsized_signed_nbytes(v)) < two_pow_bytes(unsized_signed_nbytes(v)),
        le_bytes_nat(residue_spec(v, unsized_signed_nbytes(v)), unsized_signed_nbytes(v)).len()
            == unsized_signed_nbytes(v),
        le_val(le_bytes_nat(residue_spec(v, unsized_signed_nbytes(v)), unsized_signed_nbytes(v)))
            == residue_spec(v, unsized_signed_nbytes(v)),
{
    let n = unsized_signed_nbytes(v);
    lemma_le_bytes_len(residue_spec(v, n), n);
    lemma_two_pow_bytes_is_pow256(n);
    lemma_le_bytes_roundtrip(residue_spec(v, n), n);
}

/// Law: under big-endian byte order a decimal token's bytes are exactly
/// the reverse of its little-endian bytes, and byte order never changes
/// whether the token is accepted nor which error it raises.
pub proof fn lemma_endianness(kind: DecKind, tok: Seq<char>)
    ensures
        match (encode_token(kind, tok, ByteOrder::BigEndian), encode_token(
            kind,
            tok,
            ByteOrder::LittleEndian,
        )) {
            (Ok(bb), Ok(lb)) => bb == lb.reverse(),
            (Err(e1), Err(e2)) => e1 == e2,
            _ => false,
        },
{
}

/// A digit string's value never shrinks when the string grows on the right.
proof fn lemma_dec_val_prefix(t: Seq<char>, k: int)
    requires
        0 <= k <= t.len(),
    ensures
        dec_val(t.subrange(0, k)) <= dec_val(t),
    decreases t.len() - k,
{
    if k == t.len() {
        assert(t.subrange(0, k) =~= t);
    } else {
        let a = t.subrange(0, k);
        let b = t.subrange(0, k + 1);
        assert(b.drop_last() =~= a);
        assert(dec_val(b) == dec_val(a) * 10 + dec_digit_val(b.last()));
        lemma_dec_val_prefix(t, k + 1);
    }
}

/// Read a run of decimal digits as a number of at most `limit`, starting
/// at `from`. `None` when the run is empty, holds a non-digit, or denotes
/// a number above `limit`.
fn parse_udec(tok: &Vec<char>, from: usize, limit: u64) -> (r: Option<u64>)
    requires
        from <= tok@.len(),
    ensures
        ({
            let sub = tok@.subrange(from as int, tok@.len() as int);
            match r {
                Some(u) => sub.len() > 0 && all_dec_digits(sub) && u as nat == dec_val(sub) && u
                    <= limit,
                None => sub.len() == 0 || !all_dec_digits(sub) || dec_val(sub) > limit,
            }
        }),
{
    let ghost sub = tok@.subrange(from as int, tok@.len() as int);
    let n = tok.len();
    if from == n {
        return None;
    }
    let mut acc: u64 = 0;
    let mut k: usize = from;
    while k < n
        invariant
            from <= k <= n,
            n == tok@.len(),
            sub == tok@.subrange(from as int, n as int),
            acc <= limit,
            acc as nat == dec_val(tok@.subrange(from as int, k as int)),
            all_dec_digits(tok@.subrange(from as int, k as int)),
        decreases n - k,
    {
        let ghost pre = tok@.subrange(from as int, k as int);
        let ghost post = tok@.subrange(from as int, k as int + 1);
        proof {
            assert(post.drop_last() =~= pre);
            assert(post.last() == tok@[k as int]);
        }
        let c = tok[k];
        if !char_is_dec_digit(c) {
            proof {
                assert(sub[k - from] == tok@[k as int]);
            }
            return None;
        }
        let d = dec_digit_value(c);
        if d as u64 > limit {
            proof {
                assert(dec_val(post) > limit);
                lemma_dec_val_prefix(sub, k + 1 - from);
                assert(sub.subrange(0, k + 1 - from) =~= post);
            }
            return None;
        }
        if acc > (limit - d as u64) / 10 {
            proof {
                let x = limit - d;
                assert(acc as nat * 10 + d as nat > limit) by {
                    assert(acc as int >= x as int / 10 + 1);
                    assert((x as int / 10 + 1) * 10 == (x as int / 10) * 10 + 10);
                    assert((x as int / 10) * 10 > x - 10);
                };
                assert(dec_val(post) > limit);
                lemma_dec_val_prefix(sub, k + 1 - from);
                assert(sub.subrange(0, k + 1 - from) =~= post);
            }
            return None;
        }
        proof {
            let x = limit - d;
            assert(acc as int * 10 <= (x as int / 10) * 10);
            assert((x as int / 10) * 10 <= x);
        }
        acc = acc * 10 + d as u64;
        k = k + 1;
    }
    proof {
        assert(tok@.subrange(from as int, k as int) =~= sub);
    }
    Some(acc)
}

/// Read an unsigned decimal token (optional `+`, then digits) as a number
/// of at most `limit`.
fn parse_uint_limited(tok: &Vec<char>, from: usize, limit: u64) -> (r: Option<u64>)
    requires
        from <= tok@.len(),
    ensures
        ({
            let sub = tok@.subrange(from as int, tok@.len() as int);
            match r {
                Some(u) => parse_uint_spec(sub) == Some(u as nat) && u <= limit,
                None => match parse_uint_spec(sub) {
                    Some(v) => v > limit,
                    None => true,
                },
            }
        }),
{
    let ghost sub = tok@.subrange(from as int, tok@.len() as int);
    let n = tok.len();
    if from < n && tok[from] == '+' {
        proof {
            assert(sub[0] == tok@[from as int]);
            assert(sub.drop_first() =~= tok@.subrange(from as int + 1, n as int));
        }
        parse_udec(tok, from + 1, limit)
    } else {
        proof {
            if sub.len() > 0 {
                assert(sub[0] == tok@[from as int]);
            }
        }
        parse_udec(tok, from, limit)
    }
}

/// Read a signed decimal token (optional `+` or `-`, then digits) as a
/// sign and a magnitude, with the magnitude capped by the matching limit.
fn parse_int_limited(tok: &Vec<char>, from: usize, neg_limit: u64, pos_limit: u64) -> (r: Option<
    (bool, u64),
>)
    requires
        from <= tok@.len(),
    ensures
        ({
            let sub = tok@.subrange(from as int, tok@.len() as int);
            match r {
                Some((neg, m)) => parse_int_spec(sub) == Some(
                    if neg {
                        -(m as int)
                    } else {
                        m as int
                    },
                ) && (neg ==> m <= neg_limit) && (!neg ==> m <= pos_limit),
                None => match parse_int_spec(sub) {
                    Some(v) => (v < 0 && -v > neg_limit) || (v >= 0 && v > pos_limit),
                    None => true,
                },
            }
        }),
{
    let ghost sub = tok@.subrange(from as int, tok@.len() as int);
    let n = tok.len();
    if from < n && tok[from] == '-' {
        proof {
            assert(sub[0] == tok@[from as int]);
            assert(sub.drop_first() =~= tok@.subrange(from as int + 1, n as int));
        }
        match parse_udec(tok, from + 1, neg_limit) {
            Some(m) => Some((true, m)),
            None => None,
        }
    } else {
        match parse_uint_limited(tok, from, pos_limit) {
            Some(m) => Some((false, m)),
            None => None,
        }
    }
}

/// Append the `n` little-endian bytes of `v` to a buffer.
fn push_le_bytes(out: &mut Vec<u8>, v: u64, n: usize)
    ensures
        final(out)@ == old(out)@ + le_bytes_nat(v as nat, n as nat),
{
    let mut cur: u64 = v;
    let mut k: usize = 0;
    while k < n
        invariant
            k <= n,
            out@ + le_bytes_nat(cur as nat, (n - k) as nat) == old(out)@ + le_bytes_nat(
                v as nat,
                n as nat,
            ),
        decreases n - k,
    {
        proof {
            assert(le_bytes_nat(cur as nat, (n - k) as nat) == seq![(cur as nat % 256) as u8]
                + le_bytes_nat(cur as nat / 256, (n - k - 1) as nat));
        }
        let ghost before = out@;
        out.push((cur % 256) as u8);
        proof {
            assert(out@ + le_bytes_nat(cur as nat / 256, (n - k - 1) as nat) =~= before + (
            seq![(cur as nat % 256) as u8] + le_bytes_nat(cur as nat / 256, (n - k - 1) as nat)));
        }
        cur = cur / 256;
        k = k + 1;
    }
    proof {
        assert(out@ + le_bytes_nat(cur as nat, 0) =~= out@);
    }
}

/// The two's-complement residue of a sign-and-magnitude value at a width
/// of `n` bytes, as a machine word.
fn twos_residue(neg: bool, m: u64, n: usize) -> (r: u64)
    requires
        n == 1 || n == 2 || n == 4 || n == 8,
        !neg ==> n == 8 || (m as nat) < two_pow_bytes(n as nat),
        neg ==> (m as nat) <= two_pow_bytes(n as nat) / 2,
    ensures
        r as nat == residue_spec(
            if neg {
                -(m as int)
            } else {
                m as int
            },
            n as nat,
        ),
{
    if !neg {
        m
    } else if m == 0 {
        0
    } else if n == 1 {
        0x100 - m
    } else if n == 2 {
        0x10000 - m
    } else if n == 4 {
        0x1_0000_0000 - m
    } else {
        (u64::MAX - m) + 1
    }
}

/// Append the unsized encoding of an unsigned value: the smallest of the
/// four widths that holds it, little-endian.
fn push_unsized_unsigned(out: &mut Vec<u8>, v: u64)
    ensures
        final(out)@ == old(out)@ + le_bytes_nat(v as nat, unsized_unsigned_nbytes(v as nat)),
{
    if v > 0xFFFF_FFFF {
        push_le_bytes(out, v, 8);
    } else if v > 0xFFFF {
        push_le_bytes(out, v, 4);
    } else if v > 0xFF {
        push_le_bytes(out, v, 2);
    } else {
        push_le_bytes(out, v, 1);
    }
}

/// The position of the first `=` in the token, or its length if none.
fn find_eq(tok: &Vec<char>) -> (p: usize)
    ensures
        p as int == first_eq(tok@, 0),
        p <= tok@.len(),
{
    let n = tok.len();
    let mut k: usize = 0;
    while k < n
        invariant
            k <= n,
            n == tok@.len(),
            first_eq(tok@, 0) == first_eq(tok@, k as int),
        decreases n - k,
    {
        if tok[k] == '=' {
            return k;
        }
        k = k + 1;
    }
    k
}

/// Append a byte buffer to another in reverse order.
fn push_reversed(out: &mut Vec<u8>, tmp: &Vec<u8>)
    ensures
        final(out)@ == old(out)@ + tmp@.reverse(),
{
    let n = tmp.len();
    let mut j: usize = 0;
    while j < n
        invariant
            j <= n,
            n == tmp@.len(),
            out@ == old(out)@ + tmp@.reverse().subrange(0, j as int),
        decreases n - j,
    {
        out.push(tmp[n - 1 - j]);
        proof {
            assert(tmp@.reverse()[j as int] == tmp@[n - 1 - j]);
            assert(out@ =~= old(out)@ + tmp@.reverse().subrange(0, j as int + 1));
        }
        j = j + 1;
    }
    proof {
        assert(tmp@.reverse().subrange(0, n as int) =~= tmp@.reverse());
        assert(out@ =~= old(out)@ + tmp@.reverse());
    }
}

/// Append the unsized encoding of a signed value given as sign and
/// magnitude: two's complement at the smallest fitting width,
/// little-endian.
fn push_unsized_signed(out: &mut Vec<u8>, neg: bool, m: u64)
    requires
        neg ==> m <= 0x8000_0000_0000_0000,
        !neg ==> m <= 0x7FFF_FFFF_FFFF_FFFF,
    ensures
        ({
            let v: int = if neg {
                -(m as int)
            } else {
                m as int
            };
            final(out)@ == old(out)@ + le_bytes_nat(
                residue_spec(v, unsized_signed_nbytes(v)),
                unsized_signed_nbytes(v),
            )
        }),
{
    let n: usize = if neg {
        if m > 0x8000_0000 {
            8
        } else if m > 0x8000 {
            4
        } else if m > 0x80 {
            2
        } else {
            1
        }
    } else {
        if m > 0x7FFF_FFFF {
            8
        } else if m > 0x7FFF {
            4
        } else if m > 0x7F {
            2
        } else {
            1
        }
    };
    let r = twos_residue(neg, m, n);
    push_le_bytes(out, r, n);
}

/// Encode the value part of a sized decimal token into `tmp`, at a width
/// of `nb` bytes, or report why it cannot be.
fn encode_sized_value(tok: &Vec<char>, from: usize, signed: bool, nb: usize, tmp: &mut Vec<u8>)
    -> (r: Result<(), Error>)
    requires
        from <= tok@.len(),
        nb == 1 || nb == 2 || nb == 4 || nb == 8,
    ensures
        ({
            let value = tok@.subrange(from as int, tok@.len() as int);
            let sr = if signed {
                sized_signed_bytes(value, nb as nat)
            } else {
                sized_unsigned_bytes(value, nb as nat)
            };
            match (r, sr) {
                (Ok(()), Ok(bs)) => final(tmp)@ == old(tmp)@ + bs,
                (Err(e), Err(es)) => e@ == es && final(tmp)@ == old(tmp)@,
                _ => false,
            }
        }),
{
    let ghost value = tok@.subrange(from as int, tok@.len() as int);
    if signed {
        let neg_limit: u64 = if nb == 1 {
            0x80
        } else if nb == 2 {
            0x8000
        } else if nb == 4 {
            0x8000_0000
        } else {
            0x8000_0000_0000_0000
        };
        match parse_int_limited(tok, from, neg_limit, neg_limit - 1) {
            Some((neg, m)) => {
                let r = twos_residue(neg, m, nb);
                push_le_bytes(tmp, r, nb);
                Ok(())
            },
            None => Err(
                Error::InvalidSignedDecimal(chars_to_string(&copy_range(tok, from, tok.len()))),
            ),
        }
    } else {
        let limit: u64 = if nb == 1 {
            0xFF
        } else if nb == 2 {
            0xFFFF
        } else if nb == 4 {
            0xFFFF_FFFF
        } else {
            0xFFFF_FFFF_FFFF_FFFF
        };
        match parse_uint_limited(tok, from, limit) {
            Some(v) => {
                push_le_bytes(tmp, v, nb);
                Ok(())
            },
            None => Err(
                Error::InvalidUnsignedDecimal(chars_to_string(&copy_range(tok, from, tok.len()))),
            ),
        }
    }
}

/// Encode one decimal token and append its bytes to the output, or report
/// the first reason it cannot be. On an error the output is untouched.
pub fn encode_token_push(kind: DecKind, tok: &Vec<char>, byteo: ByteOrder, out: &mut Vec<u8>)
    -> (r: Result<(), Error>)
    ensures
        match (r, encode_token(kind, tok@, byteo)) {
            (Ok(u), Ok(bs)) => final(out)@ == old(out)@ + bs,
            (Err(e), Err(es)) => e@ == es && final(out)@ == old(out)@,
            _ => false,
        },
{
    let mut tmp: Vec<u8> = Vec::new();
    match kind {
        DecKind::Unsized => {
            proof {
                assert(tok@.subrange(0, tok@.len() as int) =~= tok@);
            }
            if tok.len() == 0 {
                return Err(Error::InvalidDecimal(chars_to_string(tok)));
            }
            let c0 = tok[0];
            if c0 == '-' || c0 == '+' {
                match parse_int_limited(tok, 0, 0x8000_0000_0000_0000, 0x7FFF_FFFF_FFFF_FFFF) {
                    Some((neg, m)) => push_unsized_signed(&mut tmp, neg, m),
                    None => {
                        return Err(Error::InvalidDecimal(chars_to_string(tok)));
                    },
                }
            } else {
                match parse_uint_limited(tok, 0, 0xFFFF_FFFF_FFFF_FFFF) {
                    Some(v) => push_unsized_unsigned(&mut tmp, v),
                    None => {
                        return Err(Error::InvalidDecimal(chars_to_string(tok)));
                    },
                }
            }
        },
        DecKind::Signed | DecKind::Unsigned => {
            let signed = match kind {
                DecKind::Signed => true,
                _ => false,
            };
            let p = find_eq(tok);
            if p == tok.len() {
                if signed {
                    return Err(Error::InvalidSignedDecimal(chars_to_string(tok)));
                } else {
                    return Err(Error::InvalidDecimal(chars_to_string(tok)));
                }
            }
            let bitness = copy_range(tok, 0, p);
            let nb: usize = if chars_eq_str(&bitness, "8") {
                1
            } else if chars_eq_str(&bitness, "16") {
                2
            } else if chars_eq_str(&bitness, "32") {
                4
            } else if chars_eq_str(&bitness, "64") {
                8
            } else {
                return Err(Error::InvalidBitness(chars_to_string(&bitness)));
            };
            match encode_sized_value(tok, p + 1, signed, nb, &mut tmp) {
                Ok(u) => {},
                Err(e) => {
                    return Err(e);
                },
            }
        },
    }
    if byteo == ByteOrder::BigEndian {
        push_reversed(out, &tmp);
    } else {
        out.append(&mut tmp);
    }
    Ok(())
}

} // verus!
