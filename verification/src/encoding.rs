//! The wire format of non-negative integers: big-endian bytes.
//!
//! Any byte string denotes a number ([`be_value`]); the empty string and any
//! number of leading zero bytes are accepted on input. Each number has exactly
//! one canonical string ([`be_bytes`]): the shortest one, and the single byte
//! `0` for zero.

use vstd::arithmetic::power::{lemma_pow0, pow};
use vstd::prelude::*;

verus! {

/// The number that a big-endian byte string denotes.
pub open spec fn be_value(bytes: Seq<u8>) -> nat
    decreases bytes.len(),
{
    if bytes.len() == 0 {
        0
    } else {
        be_value(bytes.drop_last()) * 256 + bytes.last() as nat
    }
}

/// The canonical big-endian byte string of a number.
pub open spec fn be_bytes(n: nat) -> Seq<u8>
    decreases n,
{
    if n < 256 {
        seq![n as u8]
    } else {
        be_bytes(n / 256).push((n % 256) as u8)
    }
}

/// A byte string is canonical when it is not empty and has no leading zero
/// byte, except that the single byte `0` stands for zero.
pub open spec fn is_canonical(bytes: Seq<u8>) -> bool {
    bytes.len() >= 1 && (bytes.len() == 1 || bytes[0] != 0)
}

/// A string whose first byte is not zero denotes a positive number.
pub proof fn lemma_leading_byte_positive(bytes: Seq<u8>)
    requires
        bytes.len() >= 1,
        bytes[0] != 0,
    ensures
        be_value(bytes) >= 1,
    decreases bytes.len(),
{
    if bytes.len() > 1 {
        lemma_leading_byte_positive(bytes.drop_last());
    } else {
        assert(bytes.drop_last().len() == 0);
        assert(be_value(bytes.drop_last()) == 0);
    }
}

/// Decoding the canonical string of a number gives the number back.
pub proof fn lemma_value_of_bytes(n: nat)
    ensures
        be_value(be_bytes(n)) == n,
    decreases n,
{
    if n < 256 {
        let s = seq![n as u8];
        assert(s.drop_last().len() == 0);
        assert(be_value(s.drop_last()) == 0);
    } else {
        lemma_value_of_bytes(n / 256);
        let s = be_bytes(n / 256).push((n % 256) as u8);
        assert(s.drop_last() =~= be_bytes(n / 256));
    }
}

/// The string that `be_bytes` gives is canonical.
pub proof fn lemma_bytes_canonical(n: nat)
    ensures
        is_canonical(be_bytes(n)),
        n >= 1 ==> be_bytes(n)[0] != 0,
    decreases n,
{
    if n >= 256 {
        lemma_bytes_canonical(n / 256);
    }
}

/// A canonical string is the canonical string of the number it denotes: no
/// two canonical strings denote the same number.
pub proof fn lemma_bytes_of_value(bytes: Seq<u8>)
    requires
        is_canonical(bytes),
    ensures
        be_bytes(be_value(bytes)) == bytes,
    decreases bytes.len(),
{
    let head = bytes.drop_last();
    if bytes.len() == 1 {
        assert(head.len() == 0);
        assert(be_value(head) == 0);
        assert(be_bytes(be_value(bytes)) =~= bytes);
    } else {
        lemma_leading_byte_positive(head);
        lemma_bytes_of_value(head);
        assert(head.push(bytes.last()) =~= bytes);
    }
}

/// Leading zero bytes do not change the number.
pub proof fn lemma_skip_leading_zero(bytes: Seq<u8>)
    requires
        bytes.len() >= 1,
        bytes[0] == 0,
    ensures
        be_value(bytes.skip(1)) == be_value(bytes),
    decreases bytes.len(),
{
    if bytes.len() == 1 {
        assert(bytes.drop_last().len() == 0);
        assert(be_value(bytes.drop_last()) == 0);
        assert(bytes.skip(1).len() == 0);
    } else {
        lemma_skip_leading_zero(bytes.drop_last());
        assert(bytes.skip(1).drop_last() =~= bytes.drop_last().skip(1));
    }
}

/// The first byte bounds the number: a string of `n` bytes that starts with
/// the byte `b` denotes a number from `b * 256^(n-1)` up to, but not
/// including, `(b + 1) * 256^(n-1)`.
pub proof fn lemma_leading_byte_bounds(bytes: Seq<u8>)
    requires
        bytes.len() >= 1,
    ensures
        bytes[0] * pow(256, (bytes.len() - 1) as nat) <= be_value(bytes),
        be_value(bytes) < (bytes[0] + 1) * pow(256, (bytes.len() - 1) as nat),
        pow(256, (bytes.len() - 1) as nat) >= 1,
    decreases bytes.len(),
{
    let head = bytes.drop_last();
    if bytes.len() == 1 {
        assert(head.len() == 0);
        assert(be_value(head) == 0);
        lemma_pow0(256);
    } else {
        lemma_leading_byte_bounds(head);
        let lead = bytes[0] as int;
        let low = pow(256, (head.len() - 1) as nat);
        let high = pow(256, (bytes.len() - 1) as nat);
        let value = be_value(head) as int;
        let last = bytes.last() as int;
        assert(high == 256 * low) by {
            reveal(pow);
        }
        assert(lead * high <= value * 256 + last && value * 256 + last < (lead + 1) * high)
            by (nonlinear_arith)
            requires
                high == 256 * low,
                lead * low <= value,
                value < (lead + 1) * low,
                0 <= last < 256,
        ;
    }
}

} // verus!
