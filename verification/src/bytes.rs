//! Byte-sequence utilities: fixed-width slices and the big-endian encodings
//! of integers.
//!
//! The encodings themselves are computed by `hacspec_lib`; what they return
//! is stated here over `be_bytes_spec` and `be_value_spec` and taken on
//! trust.

use vstd::prelude::*;

verus! {

/// The `n` bytes that represent `x` modulo `256^n`, most significant first.
pub open spec fn be_bytes_spec(x: nat, n: nat) -> Seq<u8>
    decreases n,
{
    if n == 0 {
        Seq::empty()
    } else {
        be_bytes_spec(x / 256, (n - 1) as nat).push((x % 256) as u8)
    }
}

/// The number that the bytes of `s` represent, most significant first.
pub open spec fn be_value_spec(s: Seq<u8>) -> nat
    decreases s.len(),
{
    if s.len() == 0 {
        0
    } else {
        be_value_spec(s.drop_last()) * 256 + s.last() as nat
    }
}

/// The big-endian representation in `n` bytes has `n` bytes.
pub proof fn lemma_be_bytes_len(x: nat, n: nat)
    ensures
        be_bytes_spec(x, n).len() == n,
    decreases n,
{
    if n > 0 {
        lemma_be_bytes_len(x / 256, (n - 1) as nat);
    }
}

/// Two numbers with the same representation in `n > 0` bytes have the same
/// last digit, and their quotients by 256 have the same representation in
/// `n - 1` bytes.
proof fn lemma_be_bytes_step(x: nat, y: nat, n: nat)
    requires
        n > 0,
        be_bytes_spec(x, n) == be_bytes_spec(y, n),
    ensures
        x % 256 == y % 256,
        be_bytes_spec(x / 256, (n - 1) as nat) == be_bytes_spec(y / 256, (n - 1) as nat),
{
    let a = be_bytes_spec(x / 256, (n - 1) as nat);
    let b = be_bytes_spec(y / 256, (n - 1) as nat);
    let p = a.push((x % 256) as u8);
    let q = b.push((y % 256) as u8);
    assert(p == q);
    assert(p.last() == (x % 256) as u8);
    assert(q.last() == (y % 256) as u8);
    assert(a =~= p.drop_last());
    assert(b =~= q.drop_last());
}

/// The representation in four bytes tells two 32-bit numbers apart.
pub proof fn lemma_be_bytes_4_injective(x: u32, y: u32)
    requires
        be_bytes_spec(x as nat, 4) == be_bytes_spec(y as nat, 4),
    ensures
        x == y,
{
    let x0 = x as nat;
    let y0 = y as nat;
    lemma_be_bytes_step(x0, y0, 4);
    lemma_be_bytes_step(x0 / 256, y0 / 256, 3);
    lemma_be_bytes_step(x0 / 256 / 256, y0 / 256 / 256, 2);
    lemma_be_bytes_step(x0 / 256 / 256 / 256, y0 / 256 / 256 / 256, 1);
    assert(x0 / 256 / 256 / 256 / 256 == 0);
    assert(y0 / 256 / 256 / 256 / 256 == 0);
}

/// The `N` bytes of `s` that start at `start`, as an array.
pub fn array_from_slice<const N: usize>(s: &[u8], start: usize) -> (out: [u8; N])
    requires
        start + N <= s.len(),
    ensures
        out@ == s@.subrange(start as int, start + N),
{
    let mut out: [u8; N] = [0u8; N];
    for i in 0..N
        invariant
            start + N <= s.len(),
            forall|k: int| 0 <= k < i ==> out@[k] == s@[start + k],
    {
        out[i] = s[start + i];
    }
    out
}

/// The four bytes of `x`, most significant first.
///
/// Trusted: `hacspec_lib::u32_to_be_bytes` hands `x` to `u32::to_be_bytes`
/// and wraps the array it returns, which is taken out again here.
#[verifier::external_body]
pub(crate) fn u32_to_be_bytes(x: u32) -> (r: [u8; 4])
    ensures
        r@ == be_bytes_spec(x as nat, 4),
{
    hacspec_lib::u32_to_be_bytes(x).0
}

/// The eight bytes of `x`, most significant first.
///
/// Trusted: `hacspec_lib::u64_to_be_bytes` hands `x` to `u64::to_be_bytes`
/// and wraps the array it returns, which is taken out again here.
#[verifier::external_body]
pub(crate) fn u64_to_be_bytes(x: u64) -> (r: [u8; 8])
    ensures
        r@ == be_bytes_spec(x as nat, 8),
{
    hacspec_lib::u64_to_be_bytes(x).0
}

/// The sixteen bytes of `x`, most significant first.
///
/// Trusted: `hacspec_lib::u128_to_be_bytes` hands `x` to `u128::to_be_bytes`
/// and wraps the array it returns, which is taken out again here.
#[verifier::external_body]
pub(crate) fn u128_to_be_bytes(x: u128) -> (r: [u8; 16])
    ensures
        r@ == be_bytes_spec(x as nat, 16),
{
    hacspec_lib::u128_to_be_bytes(x).0
}

/// The number that the sixteen bytes of `b` represent, most significant
/// first.
///
/// Trusted: `hacspec_lib::u128_from_be_bytes` takes the array out of its
/// argument, into which `b` is put here, and hands it to
/// `u128::from_be_bytes`.
#[verifier::external_body]
pub(crate) fn u128_from_be_bytes(b: [u8; 16]) -> (r: u128)
    ensures
        r == be_value_spec(b@),
{
    hacspec_lib::u128_from_be_bytes(hacspec_lib::u128Word(b))
}

} // verus!
