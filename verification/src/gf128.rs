//! The universal hash of GCM: a polynomial over GF(2^128) evaluated at the
//! hash key, block by block.
//!
//! A field element is a `u128` read from sixteen bytes, most significant
//! first; its top bit is the coefficient of x^0.

use vstd::prelude::*;
use crate::bytes::{
    be_bytes_spec,
    be_value_spec,
    lemma_be_bytes_len,
    u128_from_be_bytes,
    u128_to_be_bytes,
};

verus! {

/// A block of the message that is hashed.
pub type Block = [u8; 16];

/// The hash key.
pub type Key = [u8; 16];

/// The result of the hash.
pub type Tag = [u8; 16];

/// An element of GF(2^128).
pub type Element = u128;

/// The reduction polynomial x^128 + x^7 + x^2 + x + 1, without its leading
/// term, in the bit order of the field elements.
pub const IRRED: Element = 0xE100_0000_0000_0000_0000_0000_0000_0000;

/// The sum of two field elements.
pub open spec fn fadd_spec(x: Element, y: Element) -> Element {
    x ^ y
}

/// The pair of the partial product and of `x` times the power `n` of the
/// indeterminate, after the `n` highest bits of `y` went into the product.
/// Step `i` adds the running multiple of `x` where bit `127 - i` of `y` is
/// set, then multiplies the running multiple by the indeterminate.
pub open spec fn fmul_steps_spec(x: Element, y: Element, n: nat) -> (Element, Element)
    decreases n,
{
    if n == 0 {
        (0, x)
    } else {
        let (res, sh) = fmul_steps_spec(x, y, (n - 1) as nat);
        let i = (n - 1) as u32;
        (
            if y & (1u128 << ((127 - i) as u32)) != 0 {
                res ^ sh
            } else {
                res
            },
            if sh & 1 != 0 {
                (sh >> 1) ^ IRRED
            } else {
                sh >> 1
            },
        )
    }
}

/// The product of two field elements.
pub open spec fn fmul_spec(x: Element, y: Element) -> Element {
    fmul_steps_spec(x, y, 128).0
}

/// The field element that sixteen bytes stand for.
pub open spec fn encode_spec(block: Seq<u8>) -> Element {
    be_value_spec(block) as u128
}

/// The sixteen bytes that stand for a field element.
pub open spec fn decode_spec(e: Element) -> Seq<u8> {
    be_bytes_spec(e as nat, 16)
}

/// One step of the evaluation: the block added to the accumulator, the sum
/// multiplied by the evaluation point `r`.
pub open spec fn update_spec(r: Element, block: Seq<u8>, acc: Element) -> Element {
    fmul_spec(fadd_spec(encode_spec(block), acc), r)
}

/// Block `i` of `msg`, with zeros behind the end of `msg`.
pub open spec fn padded_block_spec(msg: Seq<u8>, i: int) -> Seq<u8> {
    Seq::new(
        16,
        |k: int|
            if 16 * i + k < msg.len() {
                msg[16 * i + k]
            } else {
                0u8
            },
    )
}

/// The accumulator after the first `n` blocks of `msg`.
pub open spec fn poly_blocks_spec(msg: Seq<u8>, r: Element, n: nat) -> Element
    decreases n,
{
    if n == 0 {
        0
    } else {
        update_spec(r, padded_block_spec(msg, n - 1), poly_blocks_spec(msg, r, (n - 1) as nat))
    }
}

/// The number of 16-byte blocks that `len` bytes fill or touch.
pub open spec fn block_count_spec(len: nat) -> nat {
    (len + 15) / 16
}

/// The polynomial whose coefficients are the blocks of `msg`, the last one
/// padded with zeros, evaluated at `r`.
pub open spec fn poly_spec(msg: Seq<u8>, r: Element) -> Element {
    poly_blocks_spec(msg, r, block_count_spec(msg.len()))
}

/// The hash of `text` under the key `k`.
pub open spec fn gmac_spec(text: Seq<u8>, k: Seq<u8>) -> Seq<u8> {
    decode_spec(poly_spec(text, encode_spec(k)))
}

/// Adds two field elements.
pub fn fadd(x: Element, y: Element) -> (r: Element)
    ensures
        r == fadd_spec(x, y),
{
    x ^ y
}

/// Multiplies two field elements.
pub fn fmul(x: Element, y: Element) -> (res: Element)
    ensures
        res == fmul_spec(x, y),
{
    let mut res: Element = 0;
    let mut sh: Element = x;
    for i in 0..128u32
        invariant
            (res, sh) == fmul_steps_spec(x, y, i as nat),
    {
        if y & (1u128 << (127 - i)) != 0 {
            res = res ^ sh;
        }
        if sh & 1 != 0 {
            sh = (sh >> 1) ^ IRRED;
        } else {
            sh = sh >> 1;
        }
    }
    res
}

/// Reads a field element from sixteen bytes.
pub fn encode(block: Block) -> (e: Element)
    ensures
        e == encode_spec(block@),
{
    u128_from_be_bytes(block)
}

/// Writes a field element as sixteen bytes.
pub fn decode(e: Element) -> (block: Block)
    ensures
        block@ == decode_spec(e),
{
    u128_to_be_bytes(e)
}

/// Adds a block to the accumulator and multiplies the sum by `r`.
pub fn update(r: Element, block: Block, acc: Element) -> (out: Element)
    ensures
        out == update_spec(r, block@, acc),
{
    fmul(fadd(encode(block), acc), r)
}

/// Evaluates at `r` the polynomial whose coefficients are the blocks of
/// `msg`.
pub fn poly(msg: &[u8], r: Element) -> (acc: Element)
    ensures
        acc == poly_spec(msg@, r),
{
    let l: usize = msg.len();
    let n_blocks: usize = l / 16;
    let rem: usize = l % 16;
    let mut acc: Element = 0;
    for i in 0..n_blocks
        invariant
            l == msg@.len(),
            n_blocks == l / 16,
            acc == poly_blocks_spec(msg@, r, i as nat),
    {
        let k: usize = i * 16;
        let mut block: Block = [0u8; 16];
        for j in 0..16usize
            invariant
                k + 16 <= l,
                l == msg@.len(),
                forall|m: int| 0 <= m < j ==> block@[m] == msg@[k + m],
        {
            block[j] = msg[k + j];
        }
        assert(block@ =~= padded_block_spec(msg@, i as int));
        acc = update(r, block, acc);
    }
    if rem != 0 {
        let k: usize = n_blocks * 16;
        let mut last_block: Block = [0u8; 16];
        for j in 0..rem
            invariant
                k + rem == l,
                rem < 16,
                l == msg@.len(),
                forall|m: int| 0 <= m < j ==> last_block@[m] == msg@[k + m],
                forall|m: int| j <= m < 16 ==> last_block@[m] == 0u8,
        {
            last_block[j] = msg[k + j];
        }
        assert(last_block@ =~= padded_block_spec(msg@, n_blocks as int));
        acc = update(r, last_block, acc);
    }
    acc
}

/// Hashes `text` under the key `k`.
pub fn gmac(text: &[u8], k: Key) -> (tag: Tag)
    ensures
        tag@ == gmac_spec(text@, k@),
{
    let r = encode(k);
    let a = poly(text, r);
    decode(a)
}

/// The hash has sixteen bytes.
pub proof fn lemma_gmac_len(text: Seq<u8>, k: Seq<u8>)
    ensures
        gmac_spec(text, k).len() == 16,
{
    lemma_be_bytes_len(poly_spec(text, encode_spec(k)) as nat, 16);
}

} // verus!
