//! The AES-128 block cipher and its counter mode.

use vstd::prelude::*;
use crate::block::{
    add_round_key,
    add_round_key_spec,
    mix_columns,
    mix_columns_spec,
    shift_rows,
    shift_rows_spec,
    sub_bytes,
    sub_bytes_spec,
    Block,
    Key,
};
use crate::bytes::{
    array_from_slice,
    be_bytes_spec,
    lemma_be_bytes_4_injective,
    lemma_be_bytes_len,
    u32_to_be_bytes,
};
use crate::inverse::lemma_block_cipher_injective;
use crate::key_schedule::{key_expansion, key_expansion_spec, Bytes176};

verus! {

/// The 96-bit value that, with a 32-bit counter behind it, makes an input
/// block of the counter mode.
pub type Nonce = [u8; 12];

/// The round keys 1 to 9 of a schedule.
pub type Bytes144 = [u8; 144];

/// Round key `i` among the round keys in `keys`.
pub open spec fn round_key_spec(keys: Seq<u8>, i: int) -> Seq<u8> {
    keys.subrange(16 * i, 16 * i + 16)
}

/// One full round: substitution, row rotation, column mixing, round key.
pub open spec fn aes_enc_spec(state: Seq<u8>, round_key: Seq<u8>) -> Seq<u8> {
    add_round_key_spec(mix_columns_spec(shift_rows_spec(sub_bytes_spec(state))), round_key)
}

/// The final round: as a full round, without the column mixing.
pub open spec fn aes_enc_last_spec(state: Seq<u8>, round_key: Seq<u8>) -> Seq<u8> {
    add_round_key_spec(shift_rows_spec(sub_bytes_spec(state)), round_key)
}

/// The state after `n` full rounds with the first `n` round keys of `keys`.
pub open spec fn rounds_spec(state: Seq<u8>, keys: Seq<u8>, n: nat) -> Seq<u8>
    decreases n,
{
    if n == 0 {
        state
    } else {
        aes_enc_spec(rounds_spec(state, keys, (n - 1) as nat), round_key_spec(keys, n - 1))
    }
}

/// The encipherment of `input` under a 176-byte schedule: round key 0 added,
/// nine full rounds with the round keys 1 to 9, the final round with round
/// key 10.
pub open spec fn block_cipher_spec(input: Seq<u8>, schedule: Seq<u8>) -> Seq<u8> {
    aes_enc_last_spec(
        rounds_spec(
            add_round_key_spec(input, round_key_spec(schedule, 0)),
            schedule.subrange(16, 160),
            9,
        ),
        round_key_spec(schedule, 10),
    )
}

/// The encipherment of `input` under `key`.
pub open spec fn aes128_encrypt_block_spec(key: Seq<u8>, input: Seq<u8>) -> Seq<u8> {
    block_cipher_spec(input, key_expansion_spec(key))
}

/// The input block of the counter mode: the nonce, then the counter in four
/// bytes, most significant first.
pub open spec fn ctr_block_spec(nonce: Seq<u8>, ctr: u32) -> Seq<u8> {
    nonce + be_bytes_spec(ctr as nat, 4)
}

/// The keystream block for `nonce` and `ctr` under `key`.
pub open spec fn aes128_ctr_keyblock_spec(key: Seq<u8>, nonce: Seq<u8>, ctr: u32) -> Seq<u8> {
    aes128_encrypt_block_spec(key, ctr_block_spec(nonce, ctr))
}

/// The counter `n` blocks after `ctr`; it wraps around at 2^32.
pub open spec fn ctr_add_spec(ctr: u32, n: int) -> u32 {
    ((ctr + n) % 0x1_0000_0000) as u32
}

/// `msg` in counter mode from `ctr` on: byte `i` is added to byte `i % 16` of
/// the keystream block of the counter `i / 16` blocks after `ctr`.
pub open spec fn aes128_counter_mode_spec(
    key: Seq<u8>,
    nonce: Seq<u8>,
    ctr: u32,
    msg: Seq<u8>,
) -> Seq<u8> {
    Seq::new(
        msg.len(),
        |i: int| msg[i] ^ aes128_ctr_keyblock_spec(key, nonce, ctr_add_spec(ctr, i / 16))[i % 16],
    )
}

/// Runs one full round on the state.
pub fn aes_enc(state: Block, round_key: Key) -> (out: Block)
    ensures
        out@ == aes_enc_spec(state@, round_key@),
{
    let state = sub_bytes(state);
    let state = shift_rows(state);
    let state = mix_columns(state);
    add_round_key(state, round_key)
}

/// Runs the final round on the state.
pub fn aes_enc_last(state: Block, round_key: Key) -> (out: Block)
    ensures
        out@ == aes_enc_last_spec(state@, round_key@),
{
    let state = sub_bytes(state);
    let state = shift_rows(state);
    add_round_key(state, round_key)
}

/// Runs the nine full rounds on the state, with the nine round keys in `key`.
pub fn rounds(state: Block, key: Bytes144) -> (out: Block)
    ensures
        out@ == rounds_spec(state@, key@, 9),
{
    let mut out = state;
    for i in 0..9usize
        invariant
            out@ == rounds_spec(state@, key@, i as nat),
    {
        out = aes_enc(out, array_from_slice::<16>(&key, 16 * i));
    }
    out
}

/// Enciphers one block under an expanded key.
pub fn block_cipher(input: Block, key: Bytes176) -> (out: Block)
    ensures
        out@ == block_cipher_spec(input@, key@),
{
    let k0: Key = array_from_slice::<16>(&key, 0);
    let k: Bytes144 = array_from_slice::<144>(&key, 16);
    let kn: Key = array_from_slice::<16>(&key, 10 * 16);
    let state = add_round_key(input, k0);
    let state = rounds(state, k);
    aes_enc_last(state, kn)
}

/// Enciphers one block under a 128-bit key.
pub fn aes128_encrypt_block(key: Key, input: Block) -> (out: Block)
    ensures
        out@ == aes128_encrypt_block_spec(key@, input@),
{
    block_cipher(input, key_expansion(key))
}

/// Builds the input block of the counter mode from a nonce and a counter.
pub fn ctr_block(nonce: Nonce, ctr: u32) -> (input: Block)
    ensures
        input@ == ctr_block_spec(nonce@, ctr),
{
    let c = u32_to_be_bytes(ctr);
    let mut input: Block = [0u8; 16];
    for i in 0..12usize
        invariant
            forall|k: int| 0 <= k < i ==> input@[k] == nonce@[k],
    {
        input[i] = nonce[i];
    }
    for i in 0..4usize
        invariant
            forall|k: int| 0 <= k < 12 ==> input@[k] == nonce@[k],
            forall|k: int| 0 <= k < i ==> input@[12 + k] == c@[k],
    {
        input[12 + i] = c[i];
    }
    assert(input@ =~= ctr_block_spec(nonce@, ctr));
    input
}

/// Computes the keystream block for `nonce` and `ctr` under `key`.
pub fn aes128_ctr_keyblock(key: Key, nonce: Nonce, ctr: u32) -> (out: Block)
    ensures
        out@ == aes128_ctr_keyblock_spec(key@, nonce@, ctr),
{
    aes128_encrypt_block(key, ctr_block(nonce, ctr))
}

/// Adds to `msg` the keystream of `key` and `nonce` that starts at the
/// counter `counter`. The key is expanded once for the whole message.
fn aes128_counter_mode(key: Key, nonce: Nonce, counter: u32, msg: &[u8]) -> (out: Vec<u8>)
    ensures
        out@ == aes128_counter_mode_spec(key@, nonce@, counter, msg@),
{
    let schedule = key_expansion(key);
    let len: usize = msg.len();
    let mut out: Vec<u8> = Vec::with_capacity(len);
    let mut ctr: u32 = counter;
    let mut done: usize = 0;
    let ghost mut blocks: int = 0;
    while done < len
        invariant
            len == msg@.len(),
            schedule@ == key_expansion_spec(key@),
            done <= len,
            done == 16 * blocks || done == len,
            done <= 16 * blocks,
            0 <= blocks,
            ctr == ctr_add_spec(counter, blocks),
            out@.len() == done,
            forall|k: int|
                0 <= k < done ==> out@[k] == msg@[k] ^ aes128_ctr_keyblock_spec(
                    key@,
                    nonce@,
                    ctr_add_spec(counter, k / 16),
                )[k % 16],
        decreases len - done,
    {
        let key_block = block_cipher(ctr_block(nonce, ctr), schedule);
        let n: usize = if len - done < 16 {
            len - done
        } else {
            16
        };
        for j in 0..n
            invariant
                len == msg@.len(),
                done + n <= len,
                n <= 16,
                done == 16 * blocks,
                key_block@ == aes128_ctr_keyblock_spec(
                    key@,
                    nonce@,
                    ctr_add_spec(counter, blocks),
                ),
                out@.len() == done + j,
                forall|k: int|
                    0 <= k < done + j ==> out@[k] == msg@[k] ^ aes128_ctr_keyblock_spec(
                        key@,
                        nonce@,
                        ctr_add_spec(counter, k / 16),
                    )[k % 16],
        {
            out.push(msg[done + j] ^ key_block[j]);
            assert((done + j) / 16 == blocks && (done + j) % 16 == j);
        }
        done = done + n;
        ctr = ctr.wrapping_add(1);
        proof {
            blocks = blocks + 1;
        }
    }
    assert(out@ =~= aes128_counter_mode_spec(key@, nonce@, counter, msg@));
    out
}

/// Encrypts `msg` in counter mode, starting at the counter `counter`.
pub fn aes128_encrypt(key: Key, nonce: Nonce, counter: u32, msg: &[u8]) -> (out: Vec<u8>)
    ensures
        out@ == aes128_counter_mode_spec(key@, nonce@, counter, msg@),
{
    aes128_counter_mode(key, nonce, counter, msg)
}

/// Decrypts `ctxt` in counter mode, starting at the counter `counter`: the
/// same operation as encryption.
pub fn aes128_decrypt(key: Key, nonce: Nonce, counter: u32, ctxt: &[u8]) -> (out: Vec<u8>)
    ensures
        out@ == aes128_counter_mode_spec(key@, nonce@, counter, ctxt@),
{
    aes128_counter_mode(key, nonce, counter, ctxt)
}

/// Counter mode is its own inverse: applied twice with the same key, nonce
/// and counter it gives back the message.
pub proof fn lemma_counter_mode_twice(key: Seq<u8>, nonce: Seq<u8>, ctr: u32, msg: Seq<u8>)
    ensures
        aes128_counter_mode_spec(key, nonce, ctr, msg).len() == msg.len(),
        aes128_counter_mode_spec(key, nonce, ctr, aes128_counter_mode_spec(key, nonce, ctr, msg))
            == msg,
{
    let once = aes128_counter_mode_spec(key, nonce, ctr, msg);
    let twice = aes128_counter_mode_spec(key, nonce, ctr, once);
    assert forall|i: int| 0 <= i < msg.len() implies twice[i] == msg[i] by {
        let m = msg[i];
        let k = aes128_ctr_keyblock_spec(key, nonce, ctr_add_spec(ctr, i / 16))[i % 16];
        assert((m ^ k) ^ k == m) by (bit_vector);
    }
    assert(twice =~= msg);
}

/// Two input blocks of the counter mode are equal only where their nonces
/// and their counters are.
pub proof fn lemma_ctr_block_injective(nonce1: Seq<u8>, ctr1: u32, nonce2: Seq<u8>, ctr2: u32)
    requires
        nonce1.len() == nonce2.len(),
        ctr_block_spec(nonce1, ctr1) == ctr_block_spec(nonce2, ctr2),
    ensures
        nonce1 == nonce2,
        ctr1 == ctr2,
{
    let n = nonce1.len() as int;
    let b1 = ctr_block_spec(nonce1, ctr1);
    let b2 = ctr_block_spec(nonce2, ctr2);
    lemma_be_bytes_len(ctr1 as nat, 4);
    lemma_be_bytes_len(ctr2 as nat, 4);
    assert(nonce1 =~= b1.subrange(0, n));
    assert(nonce2 =~= b2.subrange(0, n));
    assert(be_bytes_spec(ctr1 as nat, 4) =~= b1.subrange(n, n + 4));
    assert(be_bytes_spec(ctr2 as nat, 4) =~= b2.subrange(n, n + 4));
    lemma_be_bytes_4_injective(ctr1, ctr2);
}

/// Under one key, two keystream blocks are equal only where their nonces
/// and their counters are: the blocks of one nonce at the counters 0, 1, 2,
/// 3 and at any other two different counters are pairwise distinct.
pub proof fn lemma_ctr_keyblock_injective(
    key: Seq<u8>,
    nonce1: Seq<u8>,
    ctr1: u32,
    nonce2: Seq<u8>,
    ctr2: u32,
)
    requires
        nonce1.len() == 12,
        nonce2.len() == 12,
        aes128_ctr_keyblock_spec(key, nonce1, ctr1) == aes128_ctr_keyblock_spec(
            key,
            nonce2,
            ctr2,
        ),
    ensures
        nonce1 == nonce2,
        ctr1 == ctr2,
{
    lemma_be_bytes_len(ctr1 as nat, 4);
    lemma_be_bytes_len(ctr2 as nat, 4);
    lemma_block_cipher_injective(
        ctr_block_spec(nonce1, ctr1),
        ctr_block_spec(nonce2, ctr2),
        key_expansion_spec(key),
    );
    lemma_ctr_block_injective(nonce1, ctr1, nonce2, ctr2);
}

} // verus!
