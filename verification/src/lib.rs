//! AES-128 and the authenticated encryption with associated data built on
//! it in the manner of GCM.
//!
//! The modules, leaves first:
//! - `gf256`: doubling in GF(2^8);
//! - `sbox`: the substitution box and the round constants;
//! - `block`: the transformations of the 16-byte state;
//! - `key_schedule`: the expansion of a key into eleven round keys;
//! - `aes`: the block cipher and its counter mode;
//! - `inverse`: the inverse cipher, which makes the cipher a permutation;
//! - `bytes`: fixed-width slices and big-endian encodings;
//! - `gf128`: the universal hash over GF(2^128);
//! - `aesgcm`: `encrypt` and `decrypt`.
//!
//! Every executable function states what it returns over a `_spec` function
//! on sequences of bytes; keys, nonces, blocks and tags are arrays, so that a
//! value of the wrong length cannot be passed.

pub mod aes;
pub mod aesgcm;
pub mod block;
pub mod bytes;
pub mod gf128;
pub mod gf256;
pub mod inverse;
pub mod key_schedule;
pub mod sbox;
