//! Fixed-width big-endian readers over a byte slice.
//!
//! Every reader takes the unread input and gives back the value it read
//! together with the input that follows it, or says why it could not.

use vstd::prelude::*;
use vstd::slice::slice_subrange;

verus! {

/// Why a decode stopped.
#[derive(Clone, Copy, Debug, PartialEq, Eq)]
pub enum DecodeError {
    /// The input ended before a field was complete; the payload is the
    /// number of bytes that field needs.
    Incomplete(usize),
    /// A label's bytes are not UTF-8.
    InvalidLabel,
    /// A length prefix leaves bytes of the enclosing field unaccounted for.
    TrailingData,
}

/// The number that a byte string denotes when read most significant byte first.
pub open spec fn be_value(s: Seq<u8>) -> nat
    decreases s.len(),
{
    if s.len() == 0 {
        0
    } else {
        be_value(s.drop_last()) * 256 + s.last() as nat
    }
}

/// 256 to the power `n`.
pub open spec fn pow256(n: nat) -> nat
    decreases n,
{
    if n == 0 {
        1
    } else {
        256 * pow256((n - 1) as nat)
    }
}

/// A byte string of length `n` denotes a number below `256^n`.
pub proof fn lemma_be_value_bound(s: Seq<u8>)
    ensures
        be_value(s) < pow256(s.len()),
    decreases s.len(),
{
    if s.len() > 0 {
        lemma_be_value_bound(s.drop_last());
    }
}

/// What reading a `width`-byte unsigned number from the front of `i` gives:
/// the number and the count of bytes read, or the shortfall.
pub open spec fn spec_uint(i: Seq<u8>, width: nat) -> Result<(nat, int), DecodeError> {
    if i.len() < width {
        Err(DecodeError::Incomplete(width as usize))
    } else {
        Ok((be_value(i.take(width as int)), width as int))
    }
}

/// What taking `n` bytes from the front of `i` gives.
pub open spec fn spec_take(i: Seq<u8>, n: nat) -> Result<(Seq<u8>, int), DecodeError> {
    if i.len() < n {
        Err(DecodeError::Incomplete(n as usize))
    } else {
        Ok((i.take(n as int), n as int))
    }
}

proof fn lemma_pow256_values()
    ensures
        pow256(1) == 0x100,
        pow256(2) == 0x1_0000,
        pow256(4) == 0x1_0000_0000,
        pow256(15) == 0x1_0000_0000_0000_0000_0000_0000_0000_00,
        pow256(16) == 0x1_0000_0000_0000_0000_0000_0000_0000_0000,
{
    reveal_with_fuel(pow256, 17);
}

proof fn lemma_pow256_monotonic(a: nat, b: nat)
    requires
        a <= b,
    ensures
        pow256(a) <= pow256(b),
    decreases b,
{
    if a < b {
        lemma_pow256_monotonic(a, (b - 1) as nat);
    }
}

/// A number read from one, two, four or sixteen bytes fits the unsigned
/// type of that width.
pub proof fn lemma_uint_fits(i: Seq<u8>)
    ensures
        spec_uint(i, 1) is Ok ==> spec_uint(i, 1)->Ok_0.0 <= u8::MAX,
        spec_uint(i, 2) is Ok ==> spec_uint(i, 2)->Ok_0.0 <= u16::MAX,
        spec_uint(i, 4) is Ok ==> spec_uint(i, 4)->Ok_0.0 <= u32::MAX,
        spec_uint(i, 16) is Ok ==> spec_uint(i, 16)->Ok_0.0 <= u128::MAX,
{
    lemma_pow256_values();
    lemma_be_value_bound(i.take(1));
    lemma_be_value_bound(i.take(2));
    lemma_be_value_bound(i.take(4));
    lemma_be_value_bound(i.take(16));
}

fn read_uint(i: &[u8], n: usize) -> (v: u128)
    requires
        n <= 16,
        n <= i@.len(),
    ensures
        v == be_value(i@.take(n as int)),
        v < pow256(n as nat),
{
    let mut acc: u128 = 0;
    let mut k: usize = 0;
    while k < n
        invariant
            k <= n <= 16,
            n <= i@.len(),
            acc == be_value(i@.take(k as int)),
        decreases n - k,
    {
        proof {
            let prefix = i@.take(k as int);
            let next = i@.take(k + 1);
            assert(next.drop_last() == prefix);
            assert(next.last() == i@[k as int]);
            lemma_be_value_bound(prefix);
            lemma_pow256_monotonic(k as nat, 15);
            lemma_pow256_values();
        }
        acc = acc * 256 + i[k] as u128;
        k = k + 1;
    }
    proof {
        lemma_be_value_bound(i@.take(n as int));
    }
    acc
}

/// Reads one byte.
pub fn be_u8(i: &[u8]) -> (r: Result<(&[u8], u8), DecodeError>)
    ensures
        (match spec_uint(i@, 1) {
            Ok((v, n)) => r is Ok && r->Ok_0.0@ == i@.skip(n) && r->Ok_0.1 == v,
            Err(e) => r is Err && r->Err_0 == e,
        }),
{
    if i.len() < 1 {
        Err(DecodeError::Incomplete(1))
    } else {
        let v: u128 = read_uint(i, 1);
        proof {
            lemma_pow256_values();
        }
        Ok((slice_subrange(i, 1, i.len()), v as u8))
    }
}

/// Reads a 16-bit number, most significant byte first.
pub fn be_u16(i: &[u8]) -> (r: Result<(&[u8], u16), DecodeError>)
    ensures
        (match spec_uint(i@, 2) {
            Ok((v, n)) => r is Ok && r->Ok_0.0@ == i@.skip(n) && r->Ok_0.1 == v,
            Err(e) => r is Err && r->Err_0 == e,
        }),
{
    if i.len() < 2 {
        Err(DecodeError::Incomplete(2))
    } else {
        let v: u128 = read_uint(i, 2);
        proof {
            lemma_pow256_values();
        }
        Ok((slice_subrange(i, 2, i.len()), v as u16))
    }
}

/// Reads a 32-bit number, most significant byte first.
pub fn be_u32(i: &[u8]) -> (r: Result<(&[u8], u32), DecodeError>)
    ensures
        (match spec_uint(i@, 4) {
            Ok((v, n)) => r is Ok && r->Ok_0.0@ == i@.skip(n) && r->Ok_0.1 == v,
            Err(e) => r is Err && r->Err_0 == e,
        }),
{
    if i.len() < 4 {
        Err(DecodeError::Incomplete(4))
    } else {
        let v: u128 = read_uint(i, 4);
        proof {
            lemma_pow256_values();
        }
        Ok((slice_subrange(i, 4, i.len()), v as u32))
    }
}

/// Reads a 128-bit number, most significant byte first.
pub fn be_u128(i: &[u8]) -> (r: Result<(&[u8], u128), DecodeError>)
    ensures
        (match spec_uint(i@, 16) {
            Ok((v, n)) => r is Ok && r->Ok_0.0@ == i@.skip(n) && r->Ok_0.1 == v,
            Err(e) => r is Err && r->Err_0 == e,
        }),
{
    if i.len() < 16 {
        Err(DecodeError::Incomplete(16))
    } else {
        let v: u128 = read_uint(i, 16);
        Ok((slice_subrange(i, 16, i.len()), v))
    }
}

/// Splits off the first `n` bytes.
pub fn take(i: &[u8], n: usize) -> (r: Result<(&[u8], &[u8]), DecodeError>)
    ensures
        (match spec_take(i@, n as nat) {
            Ok((v, used)) => r is Ok && r->Ok_0.0@ == i@.skip(used) && r->Ok_0.1@ == v,
            Err(e) => r is Err && r->Err_0 == e,
        }),
{
    if i.len() < n {
        Err(DecodeError::Incomplete(n))
    } else {
        Ok((slice_subrange(i, n, i.len()), slice_subrange(i, 0, n)))
    }
}

} // verus!
