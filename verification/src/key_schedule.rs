//! The AES-128 key schedule: a 128-bit key expanded into eleven round keys,
//! 44 words of four bytes, 176 bytes in all.

use vstd::prelude::*;
use crate::block::Key;
use crate::bytes::array_from_slice;
use crate::sbox::{rcon, rcon_spec, sbox, sbox_spec};

verus! {

/// A word of the key schedule.
pub type Word = [u8; 4];

/// The expanded key: round key `i` occupies the bytes `16 * i .. 16 * i + 16`.
pub type Bytes176 = [u8; 176];

/// The bytes of a word rotated to the left by one position.
pub open spec fn rotate_word_spec(w: Seq<u8>) -> Seq<u8> {
    seq![w[1], w[2], w[3], w[0]]
}

/// Every byte of a word replaced by its image under the substitution box.
pub open spec fn sub_word_spec(w: Seq<u8>) -> Seq<u8> {
    Seq::new(4, |i: int| sbox_spec(w[i]))
}

/// The word rotated, then substituted, then its first byte added to the
/// round constant `rcon`.
pub open spec fn aes_keygen_assist_spec(w: Seq<u8>, rcon: u8) -> Seq<u8> {
    let k = sub_word_spec(rotate_word_spec(w));
    k.update(0, k[0] ^ rcon)
}

/// Word `i` of the schedule from word `i - 4` (`w0`) and word `i - 1`
/// (`w1`): the sum of `w0` and `w1`, where `w1` first goes through
/// `aes_keygen_assist_spec` with the round constant `i / 4` when `i` is a
/// multiple of 4.
pub open spec fn key_expansion_word_spec(w0: Seq<u8>, w1: Seq<u8>, i: int) -> Seq<u8> {
    let k = if i % 4 == 0 {
        aes_keygen_assist_spec(w1, rcon_spec(i / 4))
    } else {
        w1
    };
    Seq::new(4, |j: int| k[j] ^ w0[j])
}

/// Word `i` of the schedule of `key`: the first four words are the key
/// itself, each later one comes from the words four and one before it.
pub open spec fn schedule_word_spec(key: Seq<u8>, i: int) -> Seq<u8>
    decreases i,
{
    if i < 4 {
        key.subrange(4 * i, 4 * i + 4)
    } else {
        key_expansion_word_spec(
            schedule_word_spec(key, i - 4),
            schedule_word_spec(key, i - 1),
            i,
        )
    }
}

/// Byte `m` of the schedule of `key`: byte `m % 4` of word `m / 4`.
pub open spec fn schedule_byte_spec(key: Seq<u8>, m: int) -> u8 {
    schedule_word_spec(key, m / 4)[m % 4]
}

/// The 176 bytes of the schedule of `key`: the words 0 to 43 one after the
/// other.
pub open spec fn key_expansion_spec(key: Seq<u8>) -> Seq<u8> {
    Seq::new(176, |m: int| schedule_byte_spec(key, m))
}

/// Rotates the bytes of a word to the left by one position.
pub fn rotate_word(w: Word) -> (out: Word)
    ensures
        out@ == rotate_word_spec(w@),
{
    let mut out = w;
    out[0] = w[1];
    out[1] = w[2];
    out[2] = w[3];
    out[3] = w[0];
    out
}

/// Substitutes every byte of a word.
pub fn sub_word(w: Word) -> (out: Word)
    ensures
        out@ == sub_word_spec(w@),
{
    let mut out = w;
    out[0] = sbox(w[0]);
    out[1] = sbox(w[1]);
    out[2] = sbox(w[2]);
    out[3] = sbox(w[3]);
    out
}

/// Rotates and substitutes a word and adds `rcon` to its first byte.
pub fn aes_keygen_assist(w: Word, rcon: u8) -> (k: Word)
    ensures
        k@ == aes_keygen_assist_spec(w@, rcon),
{
    let k = rotate_word(w);
    let mut k = sub_word(k);
    k[0] = k[0] ^ rcon;
    k
}

/// Computes word `i` of the schedule from the words four (`w0`) and one
/// (`w1`) before it.
pub fn key_expansion_word(w0: Word, w1: Word, i: usize) -> (k: Word)
    requires
        i < 44,
    ensures
        k@ == key_expansion_word_spec(w0@, w1@, i as int),
{
    let mut k = w1;
    if i % 4 == 0 {
        k = aes_keygen_assist(k, rcon(i / 4));
    }
    let ghost k0 = k@;
    for j in 0..4usize
        invariant
            forall|m: int| 0 <= m < j ==> k@[m] == k0[m] ^ w0@[m],
            forall|m: int| j <= m < 4 ==> k@[m] == k0[m],
    {
        k[j] = k[j] ^ w0[j];
    }
    k
}

/// Expands a 128-bit key into its schedule of eleven round keys.
pub fn key_expansion(key: Key) -> (key_ex: Bytes176)
    ensures
        key_ex@ == key_expansion_spec(key@),
        key_ex@.len() == 176,
{
    let mut key_ex: Bytes176 = [0u8; 176];
    for j in 0..16usize
        invariant
            forall|m: int| 0 <= m < j ==> key_ex@[m] == key@[m],
    {
        key_ex[j] = key[j];
    }
    proof {
        lemma_schedule_starts_with_key(key@, key_ex@);
    }
    for j in 0..40usize
        invariant
            forall|m: int| 0 <= m < 16 + 4 * j ==> key_ex@[m] == schedule_byte_spec(key@, m),
    {
        let i: usize = j + 4;
        let w0: Word = array_from_slice::<4>(&key_ex, 4 * i - 16);
        let w1: Word = array_from_slice::<4>(&key_ex, 4 * i - 4);
        let w = key_expansion_word(w0, w1, i);
        proof {
            lemma_word_of_schedule(key@, key_ex@, i - 4, w0@);
            lemma_word_of_schedule(key@, key_ex@, i - 1, w1@);
        }
        let ghost before = key_ex@;
        key_ex[4 * i] = w[0];
        key_ex[4 * i + 1] = w[1];
        key_ex[4 * i + 2] = w[2];
        key_ex[4 * i + 3] = w[3];
        proof {
            lemma_schedule_extended(key@, before, key_ex@, i as int, w@);
        }
    }
    key_ex
}

/// The first sixteen bytes of the schedule are the key.
proof fn lemma_schedule_starts_with_key(key: Seq<u8>, filled: Seq<u8>)
    requires
        key.len() == 16,
        filled.len() == 176,
        forall|m: int| 0 <= m < 16 ==> filled[m] == key[m],
    ensures
        forall|m: int| 0 <= m < 16 ==> filled[m] == schedule_byte_spec(key, m),
{
    assert forall|m: int| 0 <= m < 16 implies filled[m] == schedule_byte_spec(key, m) by {
        assert(schedule_word_spec(key, m / 4) == key.subrange(4 * (m / 4), 4 * (m / 4) + 4));
        assert(4 * (m / 4) + m % 4 == m);
    }
}

/// Four bytes of a buffer that holds the schedule up to and including word
/// `i`, read at `4 * i`, are word `i`.
proof fn lemma_word_of_schedule(key: Seq<u8>, filled: Seq<u8>, i: int, w: Seq<u8>)
    requires
        key.len() == 16,
        filled.len() == 176,
        0 <= i < 44,
        w == filled.subrange(4 * i, 4 * i + 4),
        forall|m: int| 4 * i <= m < 4 * i + 4 ==> filled[m] == schedule_byte_spec(key, m),
    ensures
        w == schedule_word_spec(key, i),
{
    lemma_schedule_word_len(key, i);
    assert forall|k: int| 0 <= k < 4 implies w[k] == schedule_word_spec(key, i)[k] by {
        assert(w[k] == filled[4 * i + k]);
        assert((4 * i + k) / 4 == i && (4 * i + k) % 4 == k);
    }
    assert(w =~= schedule_word_spec(key, i));
}

/// A buffer that holds the schedule below word `i` holds it below word
/// `i + 1` once word `i` is written at `4 * i`.
proof fn lemma_schedule_extended(
    key: Seq<u8>,
    before: Seq<u8>,
    after: Seq<u8>,
    i: int,
    w: Seq<u8>,
)
    requires
        before.len() == 176,
        0 <= i < 44,
        w.len() == 4,
        w == schedule_word_spec(key, i),
        forall|m: int| 0 <= m < 4 * i ==> before[m] == schedule_byte_spec(key, m),
        after == before.update(4 * i, w[0]).update(4 * i + 1, w[1]).update(
            4 * i + 2,
            w[2],
        ).update(4 * i + 3, w[3]),
    ensures
        forall|m: int| 0 <= m < 4 * i + 4 ==> after[m] == schedule_byte_spec(key, m),
{
    assert forall|m: int| 0 <= m < 4 * i + 4 implies after[m] == schedule_byte_spec(key, m) by {
        if m < 4 * i {
            assert(after[m] == before[m]);
        } else {
            assert(m / 4 == i);
            assert(after[m] == w[m % 4]);
        }
    }
}

/// The schedule is a function of the key alone and always has 176 bytes:
/// two expansions of one key are the same schedule.
pub proof fn lemma_key_expansion_deterministic(key1: Seq<u8>, key2: Seq<u8>)
    requires
        key1 == key2,
    ensures
        key_expansion_spec(key1) == key_expansion_spec(key2),
        key_expansion_spec(key1).len() == 176,
{
}

/// Every word of the schedule of a 16-byte key has four bytes.
pub proof fn lemma_schedule_word_len(key: Seq<u8>, i: int)
    requires
        key.len() == 16,
        0 <= i < 44,
    ensures
        schedule_word_spec(key, i).len() == 4,
    decreases i,
{
    if i >= 4 {
        lemma_schedule_word_len(key, i - 4);
        lemma_schedule_word_len(key, i - 1);
    }
}

} // verus!
