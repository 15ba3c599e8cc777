//! Authenticated encryption with associated data: AES-128 in counter mode,
//! with a tag over the associated data and the ciphertext.
//!
//! The hash key is the keystream block of the all-zero nonce at counter 0,
//! the tag mask is the block of the caller's nonce at counter 1, and the
//! message keystream starts at counter 2.

use vstd::prelude::*;
use crate::aes::{
    aes128_counter_mode_spec,
    aes128_ctr_keyblock,
    aes128_ctr_keyblock_spec,
    aes128_decrypt,
    aes128_encrypt,
    ctr_add_spec,
    lemma_counter_mode_twice,
    lemma_ctr_keyblock_injective,
    Nonce,
};
use crate::block::{xor_block, xor_block_spec, Block, Key};
use crate::bytes::{be_bytes_spec, u64_to_be_bytes};
use crate::gf128::{gmac, gmac_spec, lemma_gmac_len, Tag};
use crate::inverse::lemma_xor_block_twice;

verus! {

broadcast use vstd::string::group_string_axioms;

/// The length of `len` bytes in bits, as the 64-bit length field holds it.
pub open spec fn bit_length_spec(len: nat) -> u64 {
    ((8 * len) % 0x1_0000_0000_0000_0000) as u64
}

/// The number of zero bytes that bring `len` bytes to a multiple of 16.
pub open spec fn padding_len_spec(len: nat) -> nat {
    if len % 16 == 0 {
        0
    } else {
        (16 - len % 16) as nat
    }
}

/// `s` with zeros behind it up to the next multiple of 16 bytes.
pub open spec fn zero_padded_spec(s: Seq<u8>) -> Seq<u8> {
    s + Seq::new(padding_len_spec(s.len()), |i: int| 0u8)
}

/// The input of the hash: the padded associated data, the padded message,
/// the bit length of the associated data and the bit length of the message,
/// each length in eight bytes, most significant first.
pub open spec fn pad_aad_msg_spec(aad: Seq<u8>, msg: Seq<u8>) -> Seq<u8> {
    zero_padded_spec(aad) + zero_padded_spec(msg) + be_bytes_spec(
        bit_length_spec(aad.len()) as nat,
        8,
    ) + be_bytes_spec(bit_length_spec(msg.len()) as nat, 8)
}

/// The nonce of twelve zero bytes, from which the hash key is derived.
pub open spec fn zero_nonce_spec() -> Seq<u8> {
    Seq::new(12, |i: int| 0u8)
}

/// The hash key of `key`: the keystream block of the zero nonce at counter 0.
pub open spec fn mac_key_spec(key: Seq<u8>) -> Seq<u8> {
    aes128_ctr_keyblock_spec(key, zero_nonce_spec(), 0)
}

/// The mask of the tag: the keystream block of `iv` at counter 1.
pub open spec fn tag_mix_spec(key: Seq<u8>, iv: Seq<u8>) -> Seq<u8> {
    aes128_ctr_keyblock_spec(key, iv, 1)
}

/// The tag of a ciphertext and its associated data: the hash of the padded
/// input under the hash key, masked.
pub open spec fn tag_spec(key: Seq<u8>, iv: Seq<u8>, aad: Seq<u8>, cipher_text: Seq<u8>) -> Seq<
    u8,
> {
    xor_block_spec(
        gmac_spec(pad_aad_msg_spec(aad, cipher_text), mac_key_spec(key)),
        tag_mix_spec(key, iv),
    )
}

/// The ciphertext of `msg`, in counter mode from counter 2 on, and its tag.
pub open spec fn encrypt_spec(key: Seq<u8>, iv: Seq<u8>, aad: Seq<u8>, msg: Seq<u8>) -> (
    Seq<u8>,
    Seq<u8>,
) {
    let cipher_text = aes128_counter_mode_spec(key, iv, 2, msg);
    (cipher_text, tag_spec(key, iv, aad, cipher_text))
}

/// The plaintext of `cipher_text` where `tag` is its tag, and nothing where
/// it is not.
pub open spec fn decrypt_spec(
    key: Seq<u8>,
    iv: Seq<u8>,
    aad: Seq<u8>,
    cipher_text: Seq<u8>,
    tag: Seq<u8>,
) -> Option<Seq<u8>> {
    if tag_spec(key, iv, aad, cipher_text) == tag {
        Some(aes128_counter_mode_spec(key, iv, 2, cipher_text))
    } else {
        None
    }
}

/// The message that a failed decryption reports.
pub open spec fn mac_failure_spec() -> Seq<char> {
    "Mac verification failed"@
}

/// Appends `s` to `out`, then zeros up to the next multiple of 16 bytes of
/// what was appended.
fn push_zero_padded(out: &mut Vec<u8>, s: &[u8])
    ensures
        final(out)@ == old(out)@ + zero_padded_spec(s@),
{
    let ghost before = out@;
    out.extend_from_slice(s);
    let rem: usize = s.len() % 16;
    if rem != 0 {
        let pad: usize = 16 - rem;
        for i in 0..pad
            invariant
                out@ == before + s@ + Seq::new(i as nat, |k: int| 0u8),
        {
            out.push(0u8);
            assert(out@ =~= before + s@ + Seq::new((i + 1) as nat, |k: int| 0u8));
        }
    }
    assert(out@ =~= before + zero_padded_spec(s@));
}

/// Appends the eight bytes of the bit length of `len` bytes to `out`.
fn push_bit_length(out: &mut Vec<u8>, len: usize)
    ensures
        final(out)@ == old(out)@ + be_bytes_spec(bit_length_spec(len as nat) as nat, 8),
{
    let bits: u64 = (len as u64).wrapping_mul(8);
    let bytes = u64_to_be_bytes(bits);
    out.extend_from_slice(&bytes);
}

/// Lays out the input of the hash for the associated data `aad` and the
/// ciphertext `msg`.
pub fn pad_aad_msg(aad: &[u8], msg: &[u8]) -> (padded_msg: Vec<u8>)
    ensures
        padded_msg@ == pad_aad_msg_spec(aad@, msg@),
{
    let mut padded_msg: Vec<u8> = Vec::new();
    push_zero_padded(&mut padded_msg, aad);
    push_zero_padded(&mut padded_msg, msg);
    push_bit_length(&mut padded_msg, aad.len());
    push_bit_length(&mut padded_msg, msg.len());
    assert(padded_msg@ =~= pad_aad_msg_spec(aad@, msg@));
    padded_msg
}

/// Computes the tag of `cipher_text` and `aad` under `key` and `iv`.
fn compute_tag(key: Key, iv: Nonce, aad: &[u8], cipher_text: &[u8]) -> (tag: Tag)
    ensures
        tag@ == tag_spec(key@, iv@, aad@, cipher_text@),
{
    let iv0: Nonce = [0u8; 12];
    assert(iv0@ =~= zero_nonce_spec());
    let mac_key = aes128_ctr_keyblock(key, iv0, 0);
    let tag_mix = aes128_ctr_keyblock(key, iv, 1);
    let padded_msg = pad_aad_msg(aad, cipher_text);
    let tag = gmac(padded_msg.as_slice(), mac_key);
    xor_block(tag, tag_mix)
}

/// Tells whether two tags are equal, in a time that does not depend on
/// where they differ.
fn tags_equal(a: &Tag, b: &Tag) -> (eq: bool)
    ensures
        eq <==> a@ == b@,
{
    let mut diff: u8 = 0;
    for i in 0..16usize
        invariant
            diff == 0 <==> forall|k: int| 0 <= k < i ==> a@[k] == b@[k],
    {
        let x: u8 = a[i];
        let y: u8 = b[i];
        let d: u8 = diff;
        diff = d | (x ^ y);
        assert(diff == 0 <==> d == 0 && x == y) by (bit_vector)
            requires
                diff == d | (x ^ y),
        ;
    }
    assert(diff == 0 <==> a@ =~= b@);
    diff == 0
}

/// Encrypts `msg` under `key` and `iv` and authenticates it together with
/// `aad`: returns the ciphertext, as long as `msg`, and the tag.
pub fn encrypt(key: Key, iv: Nonce, aad: Vec<u8>, msg: Vec<u8>) -> (out: (Vec<u8>, Tag))
    ensures
        (out.0@, out.1@) == encrypt_spec(key@, iv@, aad@, msg@),
        out.0@.len() == msg@.len(),
{
    let cipher_text = aes128_encrypt(key, iv, 2, msg.as_slice());
    let tag = compute_tag(key, iv, aad.as_slice(), cipher_text.as_slice());
    (cipher_text, tag)
}

/// Checks `tag` against `cipher_text` and `aad` and, where it is their tag,
/// decrypts `cipher_text`. Where it is not, fails with the message
/// "Mac verification failed" and gives out no plaintext.
pub fn decrypt(key: Key, iv: Nonce, aad: Vec<u8>, cipher_text: Vec<u8>, tag: Tag) -> (out: Result<
    Vec<u8>,
    String,
>)
    ensures
        match out {
            Ok(msg) => decrypt_spec(key@, iv@, aad@, cipher_text@, tag@) == Some(msg@),
            Err(e) => decrypt_spec(key@, iv@, aad@, cipher_text@, tag@) is None && e@
                == mac_failure_spec(),
        },
{
    let my_tag = compute_tag(key, iv, aad.as_slice(), cipher_text.as_slice());
    if tags_equal(&my_tag, &tag) {
        Ok(aes128_decrypt(key, iv, 2, cipher_text.as_slice()))
    } else {
        Err("Mac verification failed".to_string())
    }
}

/// Decryption undoes encryption: what `encrypt_spec` gives for a message is
/// accepted under the same key, nonce and associated data, and decrypts to
/// the message.
pub proof fn lemma_decrypt_encrypt(key: Seq<u8>, iv: Seq<u8>, aad: Seq<u8>, msg: Seq<u8>)
    ensures
        decrypt_spec(
            key,
            iv,
            aad,
            encrypt_spec(key, iv, aad, msg).0,
            encrypt_spec(key, iv, aad, msg).1,
        ) == Some(msg),
{
    lemma_counter_mode_twice(key, iv, 2, msg);
}

/// A ciphertext is accepted with its own tag only: with any other tag in
/// its place, whether one bit of it was flipped or more, decryption fails.
pub proof fn lemma_decrypt_rejects_other_tag(
    key: Seq<u8>,
    iv: Seq<u8>,
    aad: Seq<u8>,
    cipher_text: Seq<u8>,
    tag: Seq<u8>,
)
    requires
        tag != tag_spec(key, iv, aad, cipher_text),
    ensures
        decrypt_spec(key, iv, aad, cipher_text, tag) is None,
{
}

/// Tampering goes through only on a collision of the hash: the tag of one
/// ciphertext and its associated data is accepted for another pair, under
/// the same key and nonce, exactly where the two hash inputs have the same
/// hash.
pub proof fn lemma_forgery_needs_hash_collision(
    key: Seq<u8>,
    iv: Seq<u8>,
    aad: Seq<u8>,
    cipher_text: Seq<u8>,
    other_aad: Seq<u8>,
    other_cipher_text: Seq<u8>,
)
    ensures
        decrypt_spec(key, iv, other_aad, other_cipher_text, tag_spec(key, iv, aad, cipher_text))
            is Some <==> gmac_spec(
            pad_aad_msg_spec(other_aad, other_cipher_text),
            mac_key_spec(key),
        ) == gmac_spec(pad_aad_msg_spec(aad, cipher_text), mac_key_spec(key)),
{
    let h = mac_key_spec(key);
    let mask = tag_mix_spec(key, iv);
    let a = gmac_spec(pad_aad_msg_spec(aad, cipher_text), h);
    let b = gmac_spec(pad_aad_msg_spec(other_aad, other_cipher_text), h);
    lemma_gmac_len(pad_aad_msg_spec(aad, cipher_text), h);
    lemma_gmac_len(pad_aad_msg_spec(other_aad, other_cipher_text), h);
    lemma_xor_block_twice(a, mask);
    lemma_xor_block_twice(b, mask);
}

/// The three derivations under one key and one 12-byte nonce never share a
/// keystream block: the hash key (counter 0 of the zero nonce) differs from
/// the tag mask (counter 1), and block `i` of the message keystream (counter
/// `2 + i`) differs from both as long as the counter has not wrapped around.
pub proof fn lemma_derivations_separate(key: Seq<u8>, iv: Seq<u8>, i: int)
    requires
        iv.len() == 12,
        0 <= i,
        2 + i < 0x1_0000_0000,
    ensures
        mac_key_spec(key) != tag_mix_spec(key, iv),
        aes128_ctr_keyblock_spec(key, iv, ctr_add_spec(2, i)) != mac_key_spec(key),
        aes128_ctr_keyblock_spec(key, iv, ctr_add_spec(2, i)) != tag_mix_spec(key, iv),
{
    let c = ctr_add_spec(2, i);
    assert(c == 2 + i);
    if mac_key_spec(key) == tag_mix_spec(key, iv) {
        lemma_ctr_keyblock_injective(key, zero_nonce_spec(), 0, iv, 1);
    }
    if aes128_ctr_keyblock_spec(key, iv, c) == mac_key_spec(key) {
        lemma_ctr_keyblock_injective(key, iv, c, zero_nonce_spec(), 0);
    }
    if aes128_ctr_keyblock_spec(key, iv, c) == tag_mix_spec(key, iv) {
        lemma_ctr_keyblock_injective(key, iv, c, iv, 1);
    }
}

} // verus!
