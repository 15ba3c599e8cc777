use aes128_gcm::aes::{
    aes128_ctr_keyblock, aes128_decrypt, aes128_encrypt, aes128_encrypt_block, aes_enc,
    aes_enc_last, block_cipher, ctr_block, rounds,
};
use aes128_gcm::block::{
    add_round_key, mix_column, mix_columns, shift_row, shift_rows, sub_bytes, xor_block,
};
use aes128_gcm::bytes::array_from_slice;
use aes128_gcm::gf256::xtime;
use aes128_gcm::key_schedule::{
    aes_keygen_assist, key_expansion, key_expansion_word, rotate_word, sub_word,
};
use aes128_gcm::sbox::{rcon, sbox};

fn hex(s: &str) -> Vec<u8> {
    assert!(s.len() % 2 == 0);
    (0..s.len() / 2)
        .map(|i| u8::from_str_radix(&s[2 * i..2 * i + 2], 16).unwrap())
        .collect()
}

fn hex16(s: &str) -> [u8; 16] {
    let v = hex(s);
    assert_eq!(v.len(), 16);
    let mut out = [0u8; 16];
    out.copy_from_slice(&v);
    out
}

fn hex12(s: &str) -> [u8; 12] {
    let v = hex(s);
    assert_eq!(v.len(), 12);
    let mut out = [0u8; 12];
    out.copy_from_slice(&v);
    out
}

/// Multiplication in GF(2^8) by shift and conditional reduction, written
/// without the library.
fn gf_mul(mut a: u8, mut b: u8) -> u8 {
    let mut p = 0u8;
    while b != 0 {
        if b & 1 == 1 {
            p ^= a;
        }
        let carry = a & 0x80 != 0;
        a <<= 1;
        if carry {
            a ^= 0x1b;
        }
        b >>= 1;
    }
    p
}

#[test]
fn xtime_known_values() {
    assert_eq!(xtime(0x00), 0x00);
    assert_eq!(xtime(0x01), 0x02);
    assert_eq!(xtime(0x57), 0xae);
    assert_eq!(xtime(0xae), 0x47);
    assert_eq!(xtime(0x47), 0x8e);
    assert_eq!(xtime(0x8e), 0x07);
    assert_eq!(xtime(0x80), 0x1b);
    assert_eq!(xtime(0xff), 0xe5);
}

#[test]
fn xtime_is_multiplication_by_two_for_every_byte() {
    for x in 0..=255u8 {
        assert_eq!(xtime(x), gf_mul(x, 2));
    }
}

#[test]
fn xtime_eight_times_is_multiplication_by_0x1b() {
    for x in 0..=255u8 {
        let mut y = x;
        for _ in 0..8 {
            y = xtime(y);
        }
        assert_eq!(y, gf_mul(x, 0x1b));
    }
    let mut y = 0x01u8;
    for _ in 0..8 {
        y = xtime(y);
    }
    assert_eq!(y, 0x1b);
}

#[test]
fn sbox_known_entries() {
    assert_eq!(sbox(0x00), 0x63);
    assert_eq!(sbox(0x01), 0x7c);
    assert_eq!(sbox(0x53), 0xed);
    assert_eq!(sbox(0xff), 0x16);
}

#[test]
fn sbox_is_a_permutation() {
    let mut seen = [false; 256];
    for x in 0..=255u8 {
        seen[sbox(x) as usize] = true;
    }
    assert!(seen.iter().all(|b| *b));
}

#[test]
fn rcon_entries() {
    let expected = [0x8d, 0x01, 0x02, 0x04, 0x08, 0x10, 0x20, 0x40, 0x80, 0x1b, 0x36];
    for i in 0..11 {
        assert_eq!(rcon(i), expected[i]);
    }
}

#[test]
fn sub_bytes_replaces_each_byte() {
    let state = hex16("00102030405060708090a0b0c0d0e0f0");
    assert_eq!(sub_bytes(state), hex16("63cab7040953d051cd60e0e7ba70e18c"));
}

#[test]
fn shift_rows_rotates_row_r_by_r() {
    let state = hex16("63cab7040953d051cd60e0e7ba70e18c");
    assert_eq!(shift_rows(state), hex16("6353e08c0960e104cd70b751bacad0e7"));
    let counting: [u8; 16] = [0, 1, 2, 3, 4, 5, 6, 7, 8, 9, 10, 11, 12, 13, 14, 15];
    assert_eq!(
        shift_rows(counting),
        [0, 5, 10, 15, 4, 9, 14, 3, 8, 13, 2, 7, 12, 1, 6, 11]
    );
}

#[test]
fn shift_row_rotates_one_row_only() {
    let counting: [u8; 16] = [0, 1, 2, 3, 4, 5, 6, 7, 8, 9, 10, 11, 12, 13, 14, 15];
    assert_eq!(
        shift_row(1, 1, counting),
        [0, 5, 2, 3, 4, 9, 6, 7, 8, 13, 10, 11, 12, 1, 14, 15]
    );
    assert_eq!(
        shift_row(2, 3, counting),
        [0, 1, 14, 3, 4, 5, 2, 7, 8, 9, 6, 11, 12, 13, 10, 15]
    );
    assert_eq!(shift_row(3, 0, counting), counting);
    assert_eq!(shift_row(0, 2, counting), [8, 1, 2, 3, 12, 5, 6, 7, 0, 9, 10, 11, 4, 13, 14, 15]);
}

#[test]
fn mix_columns_known_state() {
    let state = hex16("6353e08c0960e104cd70b751bacad0e7");
    assert_eq!(mix_columns(state), hex16("5f72641557f5bc92f7be3b291db9f91a"));
}

#[test]
fn mix_column_known_columns() {
    let state = hex16("db135345f20a225c01010101c6c6c6c6");
    let mixed = hex16("8e4da1bc9fdc589d01010101c6c6c6c6");
    assert_eq!(mix_columns(state), mixed);
    let one = mix_column(0, state);
    assert_eq!(one, hex16("8e4da1bcf20a225c01010101c6c6c6c6"));
    let two = mix_column(1, one);
    assert_eq!(two, mixed);
    assert_eq!(mix_column(2, two), mixed);
    assert_eq!(mix_column(3, two), mixed);
}

#[test]
fn mix_column_is_the_mds_matrix() {
    let state = hex16("000102030405060708090a0b0c0d0e0f");
    for c in 0..4 {
        let out = mix_column(c, state);
        let s = &state[4 * c..4 * c + 4];
        for r in 0..4 {
            let expected = gf_mul(s[r], 2) ^ gf_mul(s[(r + 1) % 4], 3) ^ s[(r + 2) % 4] ^ s[(r + 3) % 4];
            assert_eq!(out[4 * c + r], expected);
        }
        for j in 0..16 {
            if j / 4 != c {
                assert_eq!(out[j], state[j]);
            }
        }
    }
}

#[test]
fn add_round_key_is_xor() {
    let state = hex16("00112233445566778899aabbccddeeff");
    let key = hex16("000102030405060708090a0b0c0d0e0f");
    assert_eq!(add_round_key(state, key), hex16("00102030405060708090a0b0c0d0e0f0"));
    assert_eq!(xor_block(state, key), hex16("00102030405060708090a0b0c0d0e0f0"));
    assert_eq!(xor_block(state, state), [0u8; 16]);
}

#[test]
fn full_round_and_last_round() {
    let state = hex16("00102030405060708090a0b0c0d0e0f0");
    let k1 = hex16("d6aa74fdd2af72fadaa678f1d6ab76fe");
    assert_eq!(aes_enc(state, k1), hex16("89d810e8855ace682d1843d8cb128fe4"));
    let before_last = hex16("bd6e7c3df2b5779e0b61216e8b10b689");
    let k10 = hex16("13111d7fe3944a17f307a78b4d2b30c5");
    assert_eq!(aes_enc_last(before_last, k10), hex16("69c4e0d86a7b0430d8cdb78070b4c55a"));
}

#[test]
fn word_operations() {
    assert_eq!(rotate_word([0x09, 0xcf, 0x4f, 0x3c]), [0xcf, 0x4f, 0x3c, 0x09]);
    assert_eq!(sub_word([0xcf, 0x4f, 0x3c, 0x09]), [0x8a, 0x84, 0xeb, 0x01]);
    assert_eq!(aes_keygen_assist([0x09, 0xcf, 0x4f, 0x3c], 0x01), [0x8b, 0x84, 0xeb, 0x01]);
}

#[test]
fn key_expansion_word_with_and_without_assist() {
    let w0 = [0x2b, 0x7e, 0x15, 0x16];
    let w3 = [0x09, 0xcf, 0x4f, 0x3c];
    assert_eq!(key_expansion_word(w0, w3, 4), [0xa0, 0xfa, 0xfe, 0x17]);
    let w1 = [0x28, 0xae, 0xd2, 0xa6];
    let w4 = [0xa0, 0xfa, 0xfe, 0x17];
    assert_eq!(key_expansion_word(w1, w4, 5), [0x88, 0x54, 0x2c, 0xb1]);
}

#[test]
fn key_expansion_of_the_standard_example() {
    let key = hex16("2b7e151628aed2a6abf7158809cf4f3c");
    let ks = key_expansion(key);
    assert_eq!(ks.len(), 176);
    assert_eq!(&ks[0..16], &key[..]);
    assert_eq!(&ks[16..32], &hex("a0fafe1788542cb123a339392a6c7605")[..]);
    assert_eq!(&ks[32..48], &hex("f2c295f27a96b9435935807a7359f67f")[..]);
    assert_eq!(&ks[144..160], &hex("ac7766f319fadc2128d12941575c006e")[..]);
    assert_eq!(&ks[160..176], &hex("d014f9a8c9ee2589e13f0cc8b6630ca6")[..]);
}

#[test]
fn key_expansion_is_deterministic() {
    let key = hex16("000102030405060708090a0b0c0d0e0f");
    let a = key_expansion(key);
    let b = key_expansion(key);
    assert_eq!(a.len(), 176);
    assert_eq!(&a[..], &b[..]);
    assert_eq!(&a[160..176], &hex("13111d7fe3944a17f307a78b4d2b30c5")[..]);
}

#[test]
fn block_cipher_matches_published_vector() {
    let key = hex16("000102030405060708090a0b0c0d0e0f");
    let plaintext = hex16("00112233445566778899aabbccddeeff");
    let expected = hex16("69c4e0d86a7b0430d8cdb78070b4c55a");
    assert_eq!(block_cipher(plaintext, key_expansion(key)), expected);
    assert_eq!(aes128_encrypt_block(key, plaintext), expected);
}

#[test]
fn block_cipher_matches_second_published_vector() {
    let key = hex16("2b7e151628aed2a6abf7158809cf4f3c");
    let plaintext = hex16("3243f6a8885a308d313198a2e0370734");
    let expected = hex16("3925841d02dc09fbdc118597196a0b32");
    assert_eq!(block_cipher(plaintext, key_expansion(key)), expected);
}

#[test]
fn rounds_runs_nine_full_rounds() {
    let key = hex16("000102030405060708090a0b0c0d0e0f");
    let ks = key_expansion(key);
    let mut middle = [0u8; 144];
    middle.copy_from_slice(&ks[16..160]);
    let state = hex16("00102030405060708090a0b0c0d0e0f0");
    assert_eq!(rounds(state, middle), hex16("bd6e7c3df2b5779e0b61216e8b10b689"));
}

#[test]
fn ctr_keyblock_is_the_cipher_on_nonce_and_counter() {
    let key = hex16("feffe9928665731c6d6a8f9467308308");
    let nonce = hex12("cafebabefacedbaddecaf888");
    let mut input = [0u8; 16];
    input[..12].copy_from_slice(&nonce);
    input[12..].copy_from_slice(&[0x01, 0x02, 0x03, 0x04]);
    assert_eq!(
        aes128_ctr_keyblock(key, nonce, 0x01020304),
        aes128_encrypt_block(key, input)
    );
    let zero_key = [0u8; 16];
    assert_eq!(
        aes128_ctr_keyblock(zero_key, [0u8; 12], 0),
        hex16("66e94bd4ef8a2c3b884cfa59ca342b2e")
    );
    assert_eq!(
        aes128_ctr_keyblock(zero_key, [0u8; 12], 1),
        hex16("58e2fccefa7e3061367f1d57a4e7455a")
    );
}

#[test]
fn counter_blocks_zero_to_three_are_pairwise_distinct() {
    let key = hex16("feffe9928665731c6d6a8f9467308308");
    let nonce = hex12("cafebabefacedbaddecaf888");
    let blocks: Vec<[u8; 16]> = (0..4u32).map(|c| aes128_ctr_keyblock(key, nonce, c)).collect();
    for i in 0..4 {
        for j in 0..4 {
            if i != j {
                assert_ne!(blocks[i], blocks[j]);
            }
        }
    }
    let mac_key = aes128_ctr_keyblock(key, [0u8; 12], 0);
    for b in &blocks {
        assert_ne!(&mac_key, b);
    }
}

#[test]
fn counter_mode_encrypts_block_by_block() {
    let key = hex16("feffe9928665731c6d6a8f9467308308");
    let nonce = hex12("cafebabefacedbaddecaf888");
    let msg = hex("d9313225f88406e5a55909c5aff5269a86a7a9531534f7da2e4c303d8a318a721c3c0c95956809532fcf0e2449a6b525b16aedf5aa0de657ba637b39");
    let expected = hex("42831ec2217774244b7221b784d0d49ce3aa212f2c02a4e035c17e2329aca12e21d514b25466931c7d8f6a5aac84aa051ba30b396a0aac973d58e091");
    let ct = aes128_encrypt(key, nonce, 2, &msg);
    assert_eq!(ct, expected);
    assert_eq!(aes128_decrypt(key, nonce, 2, &ct), msg);
    for (i, c) in ct.iter().enumerate() {
        let block = aes128_ctr_keyblock(key, nonce, 2 + (i / 16) as u32);
        assert_eq!(*c, msg[i] ^ block[i % 16]);
    }
}

#[test]
fn counter_mode_on_empty_and_partial_messages() {
    let key = hex16("000102030405060708090a0b0c0d0e0f");
    let nonce = [7u8; 12];
    assert_eq!(aes128_encrypt(key, nonce, 2, &[]), Vec::<u8>::new());
    let msg = [0u8; 17];
    let ct = aes128_encrypt(key, nonce, 5, &msg);
    let b0 = aes128_ctr_keyblock(key, nonce, 5);
    let b1 = aes128_ctr_keyblock(key, nonce, 6);
    assert_eq!(ct.len(), 17);
    assert_eq!(&ct[..16], &b0[..]);
    assert_eq!(ct[16], b1[0]);
}

#[test]
fn counter_wraps_around() {
    let key = hex16("000102030405060708090a0b0c0d0e0f");
    let nonce = [9u8; 12];
    let msg = [0u8; 32];
    let ct = aes128_encrypt(key, nonce, 0xffff_ffff, &msg);
    let b0 = aes128_ctr_keyblock(key, nonce, 0xffff_ffff);
    let b1 = aes128_ctr_keyblock(key, nonce, 0);
    assert_eq!(&ct[..16], &b0[..]);
    assert_eq!(&ct[16..], &b1[..]);
}

#[test]
fn ctr_block_is_nonce_then_big_endian_counter() {
    let nonce = hex12("cafebabefacedbaddecaf888");
    assert_eq!(ctr_block(nonce, 0), hex16("cafebabefacedbaddecaf88800000000"));
    assert_eq!(ctr_block(nonce, 1), hex16("cafebabefacedbaddecaf88800000001"));
    assert_eq!(ctr_block(nonce, 0x01020304), hex16("cafebabefacedbaddecaf88801020304"));
    assert_eq!(ctr_block(nonce, u32::MAX), hex16("cafebabefacedbaddecaf888ffffffff"));
    assert_eq!(ctr_block([0u8; 12], 0), [0u8; 16]);
}

#[test]
fn array_from_slice_takes_a_fixed_width_window() {
    let data: Vec<u8> = (0..40u8).collect();
    let first: [u8; 16] = array_from_slice::<16>(&data, 0);
    assert_eq!(first.to_vec(), (0..16u8).collect::<Vec<u8>>());
    let last: [u8; 16] = array_from_slice::<16>(&data, 24);
    assert_eq!(last.to_vec(), (24..40u8).collect::<Vec<u8>>());
    let word: [u8; 4] = array_from_slice::<4>(&data, 7);
    assert_eq!(word, [7, 8, 9, 10]);
    let none: [u8; 0] = array_from_slice::<0>(&data, 40);
    assert_eq!(none.len(), 0);
}
