//! The transformations of the AES state, a block of 16 bytes laid out as a
//! grid of four rows and four columns, column after column: byte `i` lies in
//! row `i % 4` and column `i / 4`.

use vstd::prelude::*;
use crate::gf256::{xtime, xtime_spec};
use crate::sbox::{sbox, sbox_spec};

verus! {

/// A block of the cipher, and its state between rounds.
pub type Block = [u8; 16];

/// A 128-bit key, and each round key derived from one.
pub type Key = [u8; 16];

/// Every byte replaced by its image under the substitution box.
pub open spec fn sub_bytes_spec(state: Seq<u8>) -> Seq<u8> {
    Seq::new(16, |i: int| sbox_spec(state[i]))
}

/// Row `i` rotated to the left by `shift` columns, the other rows unchanged.
pub open spec fn shift_row_spec(i: int, shift: int, state: Seq<u8>) -> Seq<u8> {
    Seq::new(
        16,
        |j: int|
            if j % 4 == i {
                state[i + 4 * ((j / 4 + shift) % 4)]
            } else {
                state[j]
            },
    )
}

/// Each row `r` rotated to the left by `r` columns: the byte that ends in
/// row `r` and column `c` comes from row `r` and column `(c + r) % 4`.
pub open spec fn shift_rows_spec(state: Seq<u8>) -> Seq<u8> {
    Seq::new(16, |j: int| state[j % 4 + 4 * ((j / 4 + j % 4) % 4)])
}

/// The byte at position `j` after its column went through the MDS matrix:
/// with `s` the byte at `j`, `n` the byte below it in the column (the top one
/// for the last row) and `t` the sum of the column, it is
/// `s ^ t ^ xtime(s ^ n)`.
pub open spec fn mix_byte_spec(state: Seq<u8>, j: int) -> u8 {
    let c = 4 * (j / 4);
    let s = state[j];
    let n = state[c + (j % 4 + 1) % 4];
    let t = state[c] ^ state[c + 1] ^ state[c + 2] ^ state[c + 3];
    s ^ t ^ xtime_spec(s ^ n)
}

/// Column `c` mixed, the other columns unchanged.
pub open spec fn mix_column_spec(c: int, state: Seq<u8>) -> Seq<u8> {
    Seq::new(
        16,
        |j: int|
            if j / 4 == c {
                mix_byte_spec(state, j)
            } else {
                state[j]
            },
    )
}

/// All four columns mixed.
pub open spec fn mix_columns_spec(state: Seq<u8>) -> Seq<u8> {
    Seq::new(16, |j: int| mix_byte_spec(state, j))
}

/// The byte-wise sum of two blocks.
pub open spec fn xor_block_spec(a: Seq<u8>, b: Seq<u8>) -> Seq<u8> {
    Seq::new(16, |i: int| a[i] ^ b[i])
}

/// The state with a round key added to it.
pub open spec fn add_round_key_spec(state: Seq<u8>, key: Seq<u8>) -> Seq<u8> {
    xor_block_spec(state, key)
}

/// Substitutes every byte of the state.
pub fn sub_bytes(state: Block) -> (st: Block)
    ensures
        st@ == sub_bytes_spec(state@),
{
    let mut st = state;
    for i in 0..16usize
        invariant
            forall|k: int| 0 <= k < i ==> st@[k] == sbox_spec(state@[k]),
    {
        st[i] = sbox(state[i]);
    }
    st
}

/// Rotates row `i` of the state to the left by `shift` columns.
pub fn shift_row(i: usize, shift: usize, state: Block) -> (out: Block)
    requires
        i < 4,
        shift < 4,
    ensures
        out@ == shift_row_spec(i as int, shift as int, state@),
{
    let mut out = state;
    out[i] = state[i + (4 * (shift % 4))];
    out[i + 4] = state[i + (4 * ((shift + 1) % 4))];
    out[i + 8] = state[i + (4 * ((shift + 2) % 4))];
    out[i + 12] = state[i + (4 * ((shift + 3) % 4))];
    out
}

/// Rotates row 1 by one column, row 2 by two and row 3 by three.
pub fn shift_rows(state: Block) -> (out: Block)
    ensures
        out@ == shift_rows_spec(state@),
{
    let state = shift_row(1, 1, state);
    let state = shift_row(2, 2, state);
    shift_row(3, 3, state)
}

/// Mixes column `c` of the state.
pub fn mix_column(c: usize, state: Block) -> (st: Block)
    requires
        c < 4,
    ensures
        st@ == mix_column_spec(c as int, state@),
{
    let i0: usize = 4 * c;
    let s0: u8 = state[i0];
    let s1: u8 = state[i0 + 1];
    let s2: u8 = state[i0 + 2];
    let s3: u8 = state[i0 + 3];
    let mut st = state;
    let tmp: u8 = s0 ^ s1 ^ s2 ^ s3;
    st[i0] = s0 ^ tmp ^ (xtime(s0 ^ s1));
    st[i0 + 1] = s1 ^ tmp ^ (xtime(s1 ^ s2));
    st[i0 + 2] = s2 ^ tmp ^ (xtime(s2 ^ s3));
    st[i0 + 3] = s3 ^ tmp ^ (xtime(s3 ^ s0));
    st
}

/// Mixes the four columns of the state.
pub fn mix_columns(state: Block) -> (st: Block)
    ensures
        st@ == mix_columns_spec(state@),
{
    let state = mix_column(0, state);
    let state = mix_column(1, state);
    let state = mix_column(2, state);
    mix_column(3, state)
}

/// Adds two blocks byte by byte.
pub fn xor_block(block: Block, keyblock: Block) -> (out: Block)
    ensures
        out@ == xor_block_spec(block@, keyblock@),
{
    let mut out = block;
    for i in 0..16usize
        invariant
            forall|k: int| 0 <= k < i ==> out@[k] == block@[k] ^ keyblock@[k],
            forall|k: int| i <= k < 16 ==> out@[k] == block@[k],
    {
        out[i] = out[i] ^ keyblock[i];
    }
    out
}

/// Adds a round key to the state.
pub fn add_round_key(state: Block, key: Key) -> (out: Block)
    ensures
        out@ == add_round_key_spec(state@, key@),
{
    xor_block(state, key)
}

} // verus!
