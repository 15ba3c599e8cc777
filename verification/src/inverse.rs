//! The inverse of the block cipher: every transformation of the state can
//! be undone, so the cipher under a fixed schedule is a permutation of the
//! blocks.

use vstd::prelude::*;
use crate::aes::{
    aes_enc_last_spec,
    aes_enc_spec,
    block_cipher_spec,
    round_key_spec,
    rounds_spec,
};
use crate::block::{
    add_round_key_spec,
    mix_byte_spec,
    mix_columns_spec,
    shift_rows_spec,
    sub_bytes_spec,
    xor_block_spec,
};
use crate::gf256::xtime_spec;
use crate::sbox::sbox_spec;

verus! {

/// The inverse of the substitution box: entry `y` is the byte whose image
/// is `y`.
pub const INV_SBOX: [u8; 256] = [
    0x52, 0x09, 0x6a, 0xd5, 0x30, 0x36, 0xa5, 0x38, 0xbf, 0x40, 0xa3, 0x9e, 0x81, 0xf3, 0xd7, 0xfb,
    0x7c, 0xe3, 0x39, 0x82, 0x9b, 0x2f, 0xff, 0x87, 0x34, 0x8e, 0x43, 0x44, 0xc4, 0xde, 0xe9, 0xcb,
    0x54, 0x7b, 0x94, 0x32, 0xa6, 0xc2, 0x23, 0x3d, 0xee, 0x4c, 0x95, 0x0b, 0x42, 0xfa, 0xc3, 0x4e,
    0x08, 0x2e, 0xa1, 0x66, 0x28, 0xd9, 0x24, 0xb2, 0x76, 0x5b, 0xa2, 0x49, 0x6d, 0x8b, 0xd1, 0x25,
    0x72, 0xf8, 0xf6, 0x64, 0x86, 0x68, 0x98, 0x16, 0xd4, 0xa4, 0x5c, 0xcc, 0x5d, 0x65, 0xb6, 0x92,
    0x6c, 0x70, 0x48, 0x50, 0xfd, 0xed, 0xb9, 0xda, 0x5e, 0x15, 0x46, 0x57, 0xa7, 0x8d, 0x9d, 0x84,
    0x90, 0xd8, 0xab, 0x00, 0x8c, 0xbc, 0xd3, 0x0a, 0xf7, 0xe4, 0x58, 0x05, 0xb8, 0xb3, 0x45, 0x06,
    0xd0, 0x2c, 0x1e, 0x8f, 0xca, 0x3f, 0x0f, 0x02, 0xc1, 0xaf, 0xbd, 0x03, 0x01, 0x13, 0x8a, 0x6b,
    0x3a, 0x91, 0x11, 0x41, 0x4f, 0x67, 0xdc, 0xea, 0x97, 0xf2, 0xcf, 0xce, 0xf0, 0xb4, 0xe6, 0x73,
    0x96, 0xac, 0x74, 0x22, 0xe7, 0xad, 0x35, 0x85, 0xe2, 0xf9, 0x37, 0xe8, 0x1c, 0x75, 0xdf, 0x6e,
    0x47, 0xf1, 0x1a, 0x71, 0x1d, 0x29, 0xc5, 0x89, 0x6f, 0xb7, 0x62, 0x0e, 0xaa, 0x18, 0xbe, 0x1b,
    0xfc, 0x56, 0x3e, 0x4b, 0xc6, 0xd2, 0x79, 0x20, 0x9a, 0xdb, 0xc0, 0xfe, 0x78, 0xcd, 0x5a, 0xf4,
    0x1f, 0xdd, 0xa8, 0x33, 0x88, 0x07, 0xc7, 0x31, 0xb1, 0x12, 0x10, 0x59, 0x27, 0x80, 0xec, 0x5f,
    0x60, 0x51, 0x7f, 0xa9, 0x19, 0xb5, 0x4a, 0x0d, 0x2d, 0xe5, 0x7a, 0x9f, 0x93, 0xc9, 0x9c, 0xef,
    0xa0, 0xe0, 0x3b, 0x4d, 0xae, 0x2a, 0xf5, 0xb0, 0xc8, 0xeb, 0xbb, 0x3c, 0x83, 0x53, 0x99, 0x61,
    0x17, 0x2b, 0x04, 0x7e, 0xba, 0x77, 0xd6, 0x26, 0xe1, 0x69, 0x14, 0x63, 0x55, 0x21, 0x0c, 0x7d,
];

/// The byte whose image under the substitution box is `y`.
pub open spec fn inv_sbox_spec(y: u8) -> u8 {
    INV_SBOX[y as int]
}

/// The inverse box undoes the box on every byte below `n`.
spec fn sbox_inverted_below(n: nat) -> bool
    decreases n,
{
    n == 0 || (inv_sbox_spec(sbox_spec((n - 1) as u8)) == n - 1 && sbox_inverted_below(
        (n - 1) as nat,
    ))
}

proof fn lemma_sbox_inverted_below_256()
    ensures
        sbox_inverted_below(256),
{
    assert(sbox_inverted_below(32)) by {
        reveal_with_fuel(sbox_inverted_below, 33);
    }
    assert(sbox_inverted_below(64)) by {
        reveal_with_fuel(sbox_inverted_below, 33);
    }
    assert(sbox_inverted_below(96)) by {
        reveal_with_fuel(sbox_inverted_below, 33);
    }
    assert(sbox_inverted_below(128)) by {
        reveal_with_fuel(sbox_inverted_below, 33);
    }
    assert(sbox_inverted_below(160)) by {
        reveal_with_fuel(sbox_inverted_below, 33);
    }
    assert(sbox_inverted_below(192)) by {
        reveal_with_fuel(sbox_inverted_below, 33);
    }
    assert(sbox_inverted_below(224)) by {
        reveal_with_fuel(sbox_inverted_below, 33);
    }
    assert(sbox_inverted_below(256)) by {
        reveal_with_fuel(sbox_inverted_below, 33);
    }
}

proof fn lemma_sbox_inverted_below(n: nat, x: u8)
    requires
        sbox_inverted_below(n),
        x < n,
    ensures
        inv_sbox_spec(sbox_spec(x)) == x,
    decreases n,
{
    if x < n - 1 {
        lemma_sbox_inverted_below((n - 1) as nat, x);
    }
}

/// The substitution box is a permutation: the inverse box undoes it.
pub proof fn lemma_inv_sbox(x: u8)
    ensures
        inv_sbox_spec(sbox_spec(x)) == x,
{
    lemma_sbox_inverted_below_256();
    lemma_sbox_inverted_below(256, x);
}

/// Every byte replaced by the byte whose image under the box it is.
pub open spec fn inv_sub_bytes_spec(state: Seq<u8>) -> Seq<u8> {
    Seq::new(16, |i: int| inv_sbox_spec(state[i]))
}

/// Each row `r` rotated to the right by `r` columns.
pub open spec fn inv_shift_rows_spec(state: Seq<u8>) -> Seq<u8> {
    Seq::new(16, |j: int| state[j % 4 + 4 * ((j / 4 + 4 - j % 4) % 4)])
}

/// The product of `x` and 0x09 in GF(2^8).
pub open spec fn mul_09_spec(x: u8) -> u8 {
    xtime_spec(xtime_spec(xtime_spec(x))) ^ x
}

/// The product of `x` and 0x0b in GF(2^8).
pub open spec fn mul_0b_spec(x: u8) -> u8 {
    xtime_spec(xtime_spec(xtime_spec(x))) ^ xtime_spec(x) ^ x
}

/// The product of `x` and 0x0d in GF(2^8).
pub open spec fn mul_0d_spec(x: u8) -> u8 {
    xtime_spec(xtime_spec(xtime_spec(x))) ^ xtime_spec(xtime_spec(x)) ^ x
}

/// The product of `x` and 0x0e in GF(2^8).
pub open spec fn mul_0e_spec(x: u8) -> u8 {
    xtime_spec(xtime_spec(xtime_spec(x))) ^ xtime_spec(xtime_spec(x)) ^ xtime_spec(x)
}

/// The byte at position `j` after its column went through the inverse of
/// the MDS matrix: the byte at `j` times 0x0e, the next one of the column
/// times 0x0b, the one after it times 0x0d and the last times 0x09, added up.
pub open spec fn inv_mix_byte_spec(state: Seq<u8>, j: int) -> u8 {
    let c = 4 * (j / 4);
    let r = j % 4;
    mul_0e_spec(state[j]) ^ mul_0b_spec(state[c + (r + 1) % 4]) ^ mul_0d_spec(
        state[c + (r + 2) % 4],
    ) ^ mul_09_spec(state[c + (r + 3) % 4])
}

/// All four columns taken through the inverse of the MDS matrix.
pub open spec fn inv_mix_columns_spec(state: Seq<u8>) -> Seq<u8> {
    Seq::new(16, |j: int| inv_mix_byte_spec(state, j))
}

/// A full round undone: the round key taken off, then the inverses of the
/// column mixing, of the row rotation and of the substitution.
pub open spec fn inv_aes_enc_spec(state: Seq<u8>, round_key: Seq<u8>) -> Seq<u8> {
    inv_sub_bytes_spec(
        inv_shift_rows_spec(inv_mix_columns_spec(add_round_key_spec(state, round_key))),
    )
}

/// The final round undone.
pub open spec fn inv_aes_enc_last_spec(state: Seq<u8>, round_key: Seq<u8>) -> Seq<u8> {
    inv_sub_bytes_spec(inv_shift_rows_spec(add_round_key_spec(state, round_key)))
}

/// The first `n` full rounds undone, the last of them first.
pub open spec fn inv_rounds_spec(state: Seq<u8>, keys: Seq<u8>, n: nat) -> Seq<u8>
    decreases n,
{
    if n == 0 {
        state
    } else {
        inv_rounds_spec(
            inv_aes_enc_spec(state, round_key_spec(keys, n - 1)),
            keys,
            (n - 1) as nat,
        )
    }
}

/// The decipherment of `output` under a 176-byte schedule: the inverse
/// network of `block_cipher_spec`.
pub open spec fn inv_block_cipher_spec(output: Seq<u8>, schedule: Seq<u8>) -> Seq<u8> {
    add_round_key_spec(
        inv_rounds_spec(
            inv_aes_enc_last_spec(output, round_key_spec(schedule, 10)),
            schedule.subrange(16, 160),
            9,
        ),
        round_key_spec(schedule, 0),
    )
}

/// The inverse substitution undoes the substitution.
pub proof fn lemma_inv_sub_bytes(state: Seq<u8>)
    requires
        state.len() == 16,
    ensures
        inv_sub_bytes_spec(sub_bytes_spec(state)) == state,
{
    assert forall|i: int| 0 <= i < 16 implies inv_sub_bytes_spec(sub_bytes_spec(state))[i]
        == state[i] by {
        lemma_inv_sbox(state[i]);
    }
    assert(inv_sub_bytes_spec(sub_bytes_spec(state)) =~= state);
}

/// The rotation of the rows to the right undoes the one to the left.
pub proof fn lemma_inv_shift_rows(state: Seq<u8>)
    requires
        state.len() == 16,
    ensures
        inv_shift_rows_spec(shift_rows_spec(state)) == state,
{
    assert forall|j: int| 0 <= j < 16 implies inv_shift_rows_spec(shift_rows_spec(state))[j]
        == state[j] by {
        let k = j % 4 + 4 * ((j / 4 + 4 - j % 4) % 4);
        assert(0 <= k < 16);
        assert(k % 4 + 4 * ((k / 4 + k % 4) % 4) == j);
    }
    assert(inv_shift_rows_spec(shift_rows_spec(state)) =~= state);
}

/// Doubling distributes over the sum of two bytes.
proof fn lemma_xtime_sum(x: u8, y: u8)
    by (bit_vector)
    ensures
        xtime_spec(x ^ y) == xtime_spec(x) ^ xtime_spec(y),
{
}

/// Doubling distributes over the sum of four bytes.
proof fn lemma_xtime_sum_of_four(w: u8, x: u8, y: u8, z: u8)
    by (bit_vector)
    ensures
        xtime_spec(w ^ x ^ y ^ z) == xtime_spec(w) ^ xtime_spec(x) ^ xtime_spec(y) ^ xtime_spec(z),
{
}

/// Doubling distributes over a mixed byte: over the sum of a byte `p`, of a
/// column sum `t` and of the doubles of `p` and of its neighbour `n`.
proof fn lemma_xtime_mixed(p: u8, n: u8, t: u8)
    by (bit_vector)
    ensures
        xtime_spec(p ^ t ^ (xtime_spec(p) ^ xtime_spec(n))) == xtime_spec(p) ^ xtime_spec(t) ^ (
        xtime_spec(xtime_spec(p)) ^ xtime_spec(xtime_spec(n))),
{
}

/// On one column, the inverse of the MDS matrix undoes the matrix. With
/// every byte that occurs written as a sum of the column's bytes doubled up
/// to four times, the doubles cancel in pairs.
proof fn lemma_inv_mix_column(s0: u8, s1: u8, s2: u8, s3: u8)
    ensures
        ({
            let t = s0 ^ s1 ^ s2 ^ s3;
            let m0 = s0 ^ t ^ xtime_spec(s0 ^ s1);
            let m1 = s1 ^ t ^ xtime_spec(s1 ^ s2);
            let m2 = s2 ^ t ^ xtime_spec(s2 ^ s3);
            let m3 = s3 ^ t ^ xtime_spec(s3 ^ s0);
            &&& mul_0e_spec(m0) ^ mul_0b_spec(m1) ^ mul_0d_spec(m2) ^ mul_09_spec(m3) == s0
            &&& mul_0e_spec(m1) ^ mul_0b_spec(m2) ^ mul_0d_spec(m3) ^ mul_09_spec(m0) == s1
            &&& mul_0e_spec(m2) ^ mul_0b_spec(m3) ^ mul_0d_spec(m0) ^ mul_09_spec(m1) == s2
            &&& mul_0e_spec(m3) ^ mul_0b_spec(m0) ^ mul_0d_spec(m1) ^ mul_09_spec(m2) == s3
        }),
{
    let a1 = xtime_spec(s0);
    let a2 = xtime_spec(a1);
    let a3 = xtime_spec(a2);
    let a4 = xtime_spec(a3);
    let b1 = xtime_spec(s1);
    let b2 = xtime_spec(b1);
    let b3 = xtime_spec(b2);
    let b4 = xtime_spec(b3);
    let c1 = xtime_spec(s2);
    let c2 = xtime_spec(c1);
    let c3 = xtime_spec(c2);
    let c4 = xtime_spec(c3);
    let d1 = xtime_spec(s3);
    let d2 = xtime_spec(d1);
    let d3 = xtime_spec(d2);
    let d4 = xtime_spec(d3);
    let t0 = s0 ^ s1 ^ s2 ^ s3;
    let t1 = a1 ^ b1 ^ c1 ^ d1;
    let t2 = a2 ^ b2 ^ c2 ^ d2;
    let t3 = a3 ^ b3 ^ c3 ^ d3;
    lemma_xtime_sum_of_four(s0, s1, s2, s3);
    lemma_xtime_sum_of_four(a1, b1, c1, d1);
    lemma_xtime_sum_of_four(a2, b2, c2, d2);
    lemma_xtime_sum(s0, s1);
    lemma_xtime_sum(s1, s2);
    lemma_xtime_sum(s2, s3);
    lemma_xtime_sum(s3, s0);
    let m0_0 = s0 ^ t0 ^ (a1 ^ b1);
    let m0_1 = s1 ^ t0 ^ (b1 ^ c1);
    let m0_2 = s2 ^ t0 ^ (c1 ^ d1);
    let m0_3 = s3 ^ t0 ^ (d1 ^ a1);
    let m1_0 = a1 ^ t1 ^ (a2 ^ b2);
    let m1_1 = b1 ^ t1 ^ (b2 ^ c2);
    let m1_2 = c1 ^ t1 ^ (c2 ^ d2);
    let m1_3 = d1 ^ t1 ^ (d2 ^ a2);
    let m2_0 = a2 ^ t2 ^ (a3 ^ b3);
    let m2_1 = b2 ^ t2 ^ (b3 ^ c3);
    let m2_2 = c2 ^ t2 ^ (c3 ^ d3);
    let m2_3 = d2 ^ t2 ^ (d3 ^ a3);
    let m3_0 = a3 ^ t3 ^ (a4 ^ b4);
    let m3_1 = b3 ^ t3 ^ (b4 ^ c4);
    let m3_2 = c3 ^ t3 ^ (c4 ^ d4);
    let m3_3 = d3 ^ t3 ^ (d4 ^ a4);
    lemma_xtime_mixed(s0, s1, t0);
    lemma_xtime_mixed(s1, s2, t0);
    lemma_xtime_mixed(s2, s3, t0);
    lemma_xtime_mixed(s3, s0, t0);
    lemma_xtime_mixed(a1, b1, t1);
    lemma_xtime_mixed(b1, c1, t1);
    lemma_xtime_mixed(c1, d1, t1);
    lemma_xtime_mixed(d1, a1, t1);
    lemma_xtime_mixed(a2, b2, t2);
    lemma_xtime_mixed(b2, c2, t2);
    lemma_xtime_mixed(c2, d2, t2);
    lemma_xtime_mixed(d2, a2, t2);
    assert({
        &&& (m3_0 ^ m2_0 ^ m1_0) ^ (m3_1 ^ m1_1 ^ m0_1) ^ (m3_2 ^ m2_2 ^ m0_2) ^ (m3_3 ^ m0_3) == s0
        &&& (m3_1 ^ m2_1 ^ m1_1) ^ (m3_2 ^ m1_2 ^ m0_2) ^ (m3_3 ^ m2_3 ^ m0_3) ^ (m3_0 ^ m0_0) == s1
        &&& (m3_2 ^ m2_2 ^ m1_2) ^ (m3_3 ^ m1_3 ^ m0_3) ^ (m3_0 ^ m2_0 ^ m0_0) ^ (m3_1 ^ m0_1) == s2
        &&& (m3_3 ^ m2_3 ^ m1_3) ^ (m3_0 ^ m1_0 ^ m0_0) ^ (m3_1 ^ m2_1 ^ m0_1) ^ (m3_2 ^ m0_2) == s3
    }) by (bit_vector)
        requires
            t0 == s0 ^ s1 ^ s2 ^ s3,
            t1 == a1 ^ b1 ^ c1 ^ d1,
            t2 == a2 ^ b2 ^ c2 ^ d2,
            t3 == a3 ^ b3 ^ c3 ^ d3,
            m0_0 == s0 ^ t0 ^ (a1 ^ b1),
            m0_1 == s1 ^ t0 ^ (b1 ^ c1),
            m0_2 == s2 ^ t0 ^ (c1 ^ d1),
            m0_3 == s3 ^ t0 ^ (d1 ^ a1),
            m1_0 == a1 ^ t1 ^ (a2 ^ b2),
            m1_1 == b1 ^ t1 ^ (b2 ^ c2),
            m1_2 == c1 ^ t1 ^ (c2 ^ d2),
            m1_3 == d1 ^ t1 ^ (d2 ^ a2),
            m2_0 == a2 ^ t2 ^ (a3 ^ b3),
            m2_1 == b2 ^ t2 ^ (b3 ^ c3),
            m2_2 == c2 ^ t2 ^ (c3 ^ d3),
            m2_3 == d2 ^ t2 ^ (d3 ^ a3),
            m3_0 == a3 ^ t3 ^ (a4 ^ b4),
            m3_1 == b3 ^ t3 ^ (b4 ^ c4),
            m3_2 == c3 ^ t3 ^ (c4 ^ d4),
            m3_3 == d3 ^ t3 ^ (d4 ^ a4),
    ;
}

/// The inverse column mixing undoes the column mixing.
pub proof fn lemma_inv_mix_columns(state: Seq<u8>)
    requires
        state.len() == 16,
    ensures
        inv_mix_columns_spec(mix_columns_spec(state)) == state,
{
    let mixed = mix_columns_spec(state);
    assert forall|j: int| 0 <= j < 16 implies inv_mix_byte_spec(mixed, j) == state[j] by {
        let c = 4 * (j / 4);
        lemma_inv_mix_column(state[c], state[c + 1], state[c + 2], state[c + 3]);
        assert(mixed[c] == mix_byte_spec(state, c));
        assert(mixed[c + 1] == mix_byte_spec(state, c + 1));
        assert(mixed[c + 2] == mix_byte_spec(state, c + 2));
        assert(mixed[c + 3] == mix_byte_spec(state, c + 3));
        if j % 4 == 0 {
        } else if j % 4 == 1 {
        } else if j % 4 == 2 {
        } else {
        }
    }
    assert(inv_mix_columns_spec(mixed) =~= state);
}

/// Adding a block twice gives back what it was added to.
pub proof fn lemma_xor_block_twice(a: Seq<u8>, b: Seq<u8>)
    requires
        a.len() == 16,
    ensures
        xor_block_spec(xor_block_spec(a, b), b) == a,
{
    assert forall|i: int| 0 <= i < 16 implies xor_block_spec(xor_block_spec(a, b), b)[i]
        == a[i] by {
        let x = a[i];
        let y = b[i];
        assert((x ^ y) ^ y == x) by (bit_vector);
    }
    assert(xor_block_spec(xor_block_spec(a, b), b) =~= a);
}

/// Undoing a full round gives back the state before it.
pub proof fn lemma_inv_aes_enc(state: Seq<u8>, round_key: Seq<u8>)
    requires
        state.len() == 16,
    ensures
        inv_aes_enc_spec(aes_enc_spec(state, round_key), round_key) == state,
{
    let a = sub_bytes_spec(state);
    let b = shift_rows_spec(a);
    let c = mix_columns_spec(b);
    lemma_xor_block_twice(c, round_key);
    lemma_inv_mix_columns(b);
    lemma_inv_shift_rows(a);
    lemma_inv_sub_bytes(state);
}

/// Undoing the final round gives back the state before it.
pub proof fn lemma_inv_aes_enc_last(state: Seq<u8>, round_key: Seq<u8>)
    requires
        state.len() == 16,
    ensures
        inv_aes_enc_last_spec(aes_enc_last_spec(state, round_key), round_key) == state,
{
    let a = sub_bytes_spec(state);
    let b = shift_rows_spec(a);
    lemma_xor_block_twice(b, round_key);
    lemma_inv_shift_rows(a);
    lemma_inv_sub_bytes(state);
}

/// Undoing `n` full rounds gives back the state before them.
pub proof fn lemma_inv_rounds(state: Seq<u8>, keys: Seq<u8>, n: nat)
    requires
        state.len() == 16,
    ensures
        rounds_spec(state, keys, n).len() == 16,
        inv_rounds_spec(rounds_spec(state, keys, n), keys, n) == state,
    decreases n,
{
    if n > 0 {
        let before = rounds_spec(state, keys, (n - 1) as nat);
        lemma_inv_rounds(state, keys, (n - 1) as nat);
        lemma_inv_aes_enc(before, round_key_spec(keys, n - 1));
    }
}

/// The inverse network undoes the cipher: under every schedule the cipher
/// is a permutation of the 16-byte blocks.
pub proof fn lemma_inv_block_cipher(input: Seq<u8>, schedule: Seq<u8>)
    requires
        input.len() == 16,
    ensures
        inv_block_cipher_spec(block_cipher_spec(input, schedule), schedule) == input,
{
    let k0 = round_key_spec(schedule, 0);
    let middle = schedule.subrange(16, 160);
    let k10 = round_key_spec(schedule, 10);
    let a = add_round_key_spec(input, k0);
    let b = rounds_spec(a, middle, 9);
    lemma_inv_rounds(a, middle, 9);
    lemma_inv_aes_enc_last(b, k10);
    lemma_xor_block_twice(input, k0);
}

/// Under one schedule, two blocks with the same encipherment are the same
/// block.
pub proof fn lemma_block_cipher_injective(a: Seq<u8>, b: Seq<u8>, schedule: Seq<u8>)
    requires
        a.len() == 16,
        b.len() == 16,
        block_cipher_spec(a, schedule) == block_cipher_spec(b, schedule),
    ensures
        a == b,
{
    lemma_inv_block_cipher(a, schedule);
    lemma_inv_block_cipher(b, schedule);
}

} // verus!
