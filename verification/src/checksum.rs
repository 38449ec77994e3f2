//! Checksums of what a benchmark moved.

use sha2::{Digest, Sha256};
use vstd::prelude::*;

use crate::text;

verus! {

/// The SHA-256 digest of some bytes, as `Sha256::digest` computes it.
pub uninterp spec fn sha256_digest(data: Seq<u8>) -> Seq<u8>;

/// `Sha256::digest`: the digest of these bytes, which depends on nothing else.
#[verifier::external_body]
fn sha256(data: &[u8]) -> (digest: [u8; 32])
    ensures
        digest@ == sha256_digest(data@),
{
    Sha256::digest(data).into()
}

/// Bytes as hexadecimal digits, two for each.
pub open spec fn hex_digits(bytes: Seq<u8>) -> Seq<char>
    decreases bytes.len(),
{
    if bytes.len() == 0 {
        Seq::empty()
    } else {
        hex_digits(bytes.drop_last()) + text::hex_byte(bytes.last())
    }
}

/// Writes bytes as hexadecimal digits.
pub fn hex_text(bytes: &[u8]) -> (digits: String)
    ensures
        digits@ == hex_digits(bytes@),
{
    let mut digits = String::new();
    let mut i: usize = 0;
    assert(bytes@.take(0) =~= Seq::<u8>::empty());
    while i < bytes.len()
        invariant
            i <= bytes@.len(),
            digits@ == hex_digits(bytes@.take(i as int)),
        decreases bytes@.len() - i,
    {
        text::push_hex_byte(&mut digits, bytes[i]);
        i += 1;
        assert(bytes@.take(i as int).drop_last() =~= bytes@.take(i - 1));
    }
    assert(bytes@.take(i as int) =~= bytes@);
    digits
}

/// The checksum of a payload, as it stands in the log: the hexadecimal digits of its SHA-256 digest.
pub fn checksum_hex(payload: &[u8]) -> (checksum: String)
    ensures
        checksum@ == hex_digits(sha256_digest(payload@)),
{
    let digest = sha256(payload);
    hex_text(&digest)
}

/// Two checksums are the same only where the digests are.
pub proof fn law_digits_tell_bytes_apart(a: Seq<u8>, b: Seq<u8>)
    requires
        hex_digits(a) == hex_digits(b),
    ensures
        a == b,
    decreases a.len(),
{
    lemma_two_digits_each(a);
    lemma_two_digits_each(b);
    if a.len() > 0 {
        let s = hex_digits(a);
        let front_a = hex_digits(a.drop_last());
        let front_b = hex_digits(b.drop_last());
        lemma_two_digits_each(a.drop_last());
        lemma_two_digits_each(b.drop_last());
        assert(front_a =~= s.take(s.len() - 2));
        assert(front_b =~= s.take(s.len() - 2));
        law_digits_tell_bytes_apart(a.drop_last(), b.drop_last());
        assert(text::hex_byte(a.last()) =~= s.skip(s.len() - 2));
        assert(text::hex_byte(b.last()) =~= s.skip(s.len() - 2));
        assert(text::hex_byte(a.last())[0] == text::hex_byte(b.last())[0]);
        assert(text::hex_byte(a.last())[1] == text::hex_byte(b.last())[1]);
        assert(a =~= a.drop_last().push(a.last()));
        assert(b =~= b.drop_last().push(b.last()));
    } else {
        assert(a =~= b);
    }
}

/// Each byte is written as two digits at its own place, the higher first.
pub proof fn law_two_digits_for_each_byte(bytes: Seq<u8>, i: int)
    requires
        0 <= i < bytes.len(),
    ensures
        hex_digits(bytes).len() == 2 * bytes.len(),
        ({
            let high = text::digit_value(hex_digits(bytes)[2 * i], 16);
            let low = text::digit_value(hex_digits(bytes)[2 * i + 1], 16);
            high is Some && low is Some && high->0 * 16 + low->0 == bytes[i]
        }),
    decreases bytes.len(),
{
    lemma_two_digits_each(bytes);
    lemma_two_digits_each(bytes.drop_last());
    let front = bytes.drop_last();
    if i < front.len() {
        law_two_digits_for_each_byte(front, i);
        assert(hex_digits(bytes)[2 * i] == hex_digits(front)[2 * i]);
        assert(hex_digits(bytes)[2 * i + 1] == hex_digits(front)[2 * i + 1]);
    } else {
        text::law_hex_byte_by_place(bytes[i]);
        assert(hex_digits(bytes)[2 * i] == text::hex_byte(bytes[i])[0]);
        assert(hex_digits(bytes)[2 * i + 1] == text::hex_byte(bytes[i])[1]);
    }
}

proof fn lemma_two_digits_each(bytes: Seq<u8>)
    ensures
        hex_digits(bytes).len() == 2 * bytes.len(),
    decreases bytes.len(),
{
    if bytes.len() > 0 {
        lemma_two_digits_each(bytes.drop_last());
    }
}

} // verus!
