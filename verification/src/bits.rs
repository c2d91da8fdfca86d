//! The bit accumulator: an ordered buffer of bits collected while reading
//! `.`-introduced bitstream runs, flushed to bytes most-significant-bit
//! first once a group of runs ends.
//!
//! The buffer is `bitvec`'s `BitVec` in its `Msb0`/`u8` form, held in the
//! opaque [`BitBuf`] behind trusted wrappers; every buffer the scanner
//! uses is created by [`BitBuf::new`] and only changed through these
//! wrappers. What the buffer holds is named by the uninterpreted
//! [`bit_buf_bits`], and each wrapper states what the called `bitvec`
//! method does to that sequence.

use vstd::prelude::*;

use bitvec::order::Msb0;
use bitvec::vec::BitVec;

use crate::error::{Error, ErrorView};

verus! {

/// A growable buffer of bits, packed most-significant-bit first.
#[verifier::external_body]
pub struct BitBuf {
    inner: BitVec<u8, Msb0>,
}

/// The bits a bit accumulator holds, in the order they were pushed.
pub uninterp spec fn bit_buf_bits(v: BitBuf) -> Seq<bool>;

impl BitBuf {
    /// Relies on `BitVec::new`: a fresh bit-vector is empty.
    #[verifier::external_body]
    pub(crate) fn new() -> (r: BitBuf)
        ensures
            bit_buf_bits(r) == Seq::<bool>::empty(),
    {
        BitBuf { inner: BitVec::new() }
    }

    /// Relies on `BitVec::len`: the count of live bits.
    #[verifier::external_body]
    pub(crate) fn len(&self) -> (r: usize)
        ensures
            r == bit_buf_bits(*self).len(),
    {
        self.inner.len()
    }

    /// Relies on `BitVec::push`: the bit is appended at the end. Past
    /// `usize::MAX >> 3` bits `bitvec` gives up instead of returning, an
    /// allocation-scale limit treated here as out of reach, as `vstd`
    /// treats the corresponding limit of `Vec` growth.
    #[verifier::external_body]
    pub(crate) fn push(&mut self, b: bool)
        ensures
            bit_buf_bits(*final(self)) == bit_buf_bits(*old(self)).push(b),
    {
        self.inner.push(b);
    }

    /// Relies on `BitVec::insert` at index zero: the bit is placed before
    /// all others. The same growth limit as for `push` applies.
    #[verifier::external_body]
    pub(crate) fn insert_front(&mut self, b: bool)
        ensures
            bit_buf_bits(*final(self)) == seq![b] + bit_buf_bits(*old(self)),
    {
        self.inner.insert(0, b);
    }

    /// Relies on `BitVec::as_raw_slice`: with `Msb0` ordering over `u8`
    /// and a bit count divisible by eight, the backing bytes hold each
    /// run of eight bits with the run's first bit in the most significant
    /// position.
    #[verifier::external_body]
    pub(crate) fn to_bytes(&self) -> (r: Vec<u8>)
        requires
            bit_buf_bits(*self).len() % 8 == 0,
        ensures
            r@ == pack_msb_bits(bit_buf_bits(*self)),
    {
        self.inner.as_raw_slice().to_vec()
    }
}

/// One for a set bit, zero for a clear one.
pub open spec fn bit1(b: bool) -> nat {
    if b {
        1
    } else {
        0
    }
}

/// The byte eight bits form, first bit in the most significant position.
pub open spec fn byte_from_bits(bs: Seq<bool>) -> u8
    recommends
        bs.len() == 8,
{
    (bit1(bs[0]) * 128 + bit1(bs[1]) * 64 + bit1(bs[2]) * 32 + bit1(bs[3]) * 16 + bit1(bs[4]) * 8
        + bit1(bs[5]) * 4 + bit1(bs[6]) * 2 + bit1(bs[7])) as u8
}

/// The bytes a bit sequence of aligned length packs into.
pub open spec fn pack_msb_bits(bits: Seq<bool>) -> Seq<u8>
    recommends
        bits.len() % 8 == 0,
{
    Seq::new(bits.len() / 8, |k: int| byte_from_bits(bits.subrange(8 * k, 8 * k + 8)))
}

/// The bit sequence left-padded with zero bits up to a multiple of eight.
pub open spec fn pad_front(bits: Seq<bool>) -> Seq<bool> {
    Seq::new(((8 - bits.len() % 8) % 8) as nat, |j: int| false) + bits
}

/// What flushing the accumulator appends to the output: the packed bytes,
/// after left-padding with zero bits when the header allows it, or the
/// alignment error when it does not.
pub open spec fn flush_bits(bits: Seq<bool>, pad: bool) -> Result<Seq<u8>, ErrorView> {
    if bits.len() % 8 == 0 {
        Ok(pack_msb_bits(bits))
    } else if pad {
        Ok(pack_msb_bits(pad_front(bits)))
    } else {
        Err(ErrorView::UnalignedBits)
    }
}

/// Law: with padding allowed a flush always succeeds and yields one byte
/// per eight bits after left-padding; without it a flush succeeds exactly
/// when the collected bits already fill whole bytes.
pub proof fn lemma_flush_alignment(bits: Seq<bool>)
    ensures
        flush_bits(bits, true) is Ok,
        flush_bits(bits, false) is Ok <==> bits.len() % 8 == 0,
        (match flush_bits(bits, true) {
            Ok(bs) => 8 * bs.len() == bits.len() + (8 - bits.len() % 8) % 8,
            Err(e) => false,
        }),
{
}

/// Flush the accumulator into the output. On success the accumulator's
/// former contents, left-padded when needed, stand at the end of the
/// output; the caller discards the buffer afterwards.
pub(crate) fn flush_push(bits: &mut BitBuf, pad: bool, out: &mut Vec<u8>) -> (r: Result<(), Error>)
    ensures
        match (r, flush_bits(bit_buf_bits(*old(bits)), pad)) {
            (Ok(u), Ok(bs)) => final(out)@ == old(out)@ + bs,
            (Err(e), Err(es)) => e@ == es && final(out)@ == old(out)@,
            _ => false,
        },
{
    let len = bits.len();
    if len % 8 != 0 {
        if !pad {
            return Err(Error::UnalignedBits);
        }
        let ghost orig = bit_buf_bits(*bits);
        let mut need: usize = 8 - len % 8;
        while need > 0
            invariant
                bit_buf_bits(*bits) == Seq::new(
                    ((8 - orig.len() % 8) % 8 - need) as nat,
                    |j: int| false,
                ) + orig,
                orig.len() % 8 != 0,
                need <= (8 - orig.len() % 8) % 8,
            decreases need,
        {
            bits.insert_front(false);
            need = need - 1;
            proof {
                assert(bit_buf_bits(*bits) =~= Seq::new(
                    ((8 - orig.len() % 8) % 8 - need) as nat,
                    |j: int| false,
                ) + orig);
            }
        }
        proof {
            assert(bit_buf_bits(*bits) =~= pad_front(orig));
            assert(pad_front(orig).len() % 8 == 0);
        }
    }
    let mut packed = bits.to_bytes();
    out.append(&mut packed);
    Ok(())
}

} // verus!
