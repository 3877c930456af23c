//! Hashes of file contents.

use vstd::prelude::*;

use crate::text::is_digit;

verus! {

/// The BLAKE3 digest of `data`: what `blake3::hash` gives.
pub uninterp spec fn blake3_digest(data: Seq<u8>) -> Seq<u8>;

/// `blake3::hash`: the digest of the data, 32 bytes long.
#[verifier::external_body]
fn blake3_hash(data: &[u8]) -> (r: [u8; 32])
    ensures
        r@ == blake3_digest(data@),
{
    *blake3::hash(data).as_bytes()
}

/// The character that writes the value `v` below sixteen.
pub open spec fn hex_char(v: int) -> char {
    if v < 10 {
        ('0' as u32 + v) as char
    } else {
        ('a' as u32 + v - 10) as char
    }
}

/// `data` written as two lower case hexadecimal digits for each byte, the high one first.
pub open spec fn hex_text(data: Seq<u8>) -> Seq<char> {
    Seq::new(
        2 * data.len(),
        |i: int|
            if i % 2 == 0 {
                hex_char(data[i / 2] as int / 16)
            } else {
                hex_char(data[i / 2] as int % 16)
            },
    )
}

/// `hex::encode`: two lower case hexadecimal digits for each byte.
#[verifier::external_body]
fn hex_encode(data: &[u8]) -> (r: String)
    ensures
        r@ == hex_text(data@),
{
    hex::encode(data)
}

/// The hash of a file with the given contents, as it is listed and compared.
pub open spec fn content_hash(data: Seq<u8>) -> Seq<char> {
    hex_text(blake3_digest(data))
}

/// Writes a digest the way hashes are listed and compared.
pub fn digest_text(digest: &[u8]) -> (r: String)
    ensures
        r@ == hex_text(digest@),
{
    hex_encode(digest)
}

/// Hashes the contents of a file.
pub fn hash_content(data: &[u8]) -> (r: String)
    ensures
        r@ == content_hash(data@),
        r@.len() == 64,
{
    let digest = blake3_hash(data);
    digest_text(digest.as_slice())
}

/// A hash is written with the digits and the letters `a` to `f`.
pub proof fn hash_is_hexadecimal(data: Seq<u8>)
    ensures
        forall|i: int|
            0 <= i < content_hash(data).len() ==> is_digit(#[trigger] content_hash(data)[i]) || 'a'
                <= content_hash(data)[i] <= 'f',
{
}

/// Two byte sequences that are written alike are equal, so hashes are equal exactly when the
/// digests are.
pub proof fn hex_text_is_injective(a: Seq<u8>, b: Seq<u8>)
    requires
        hex_text(a) == hex_text(b),
    ensures
        a == b,
{
    assert(hex_text(a).len() == 2 * a.len());
    assert(hex_text(b).len() == 2 * b.len());
    assert forall|i: int| 0 <= i < a.len() implies a[i] == b[i] by {
        let (x, y) = (a[i] as int, b[i] as int);
        assert((2 * i) / 2 == i && (2 * i) % 2 == 0);
        assert((2 * i + 1) / 2 == i && (2 * i + 1) % 2 == 1);
        assert(hex_text(a)[2 * i] == hex_char(x / 16));
        assert(hex_text(b)[2 * i] == hex_char(y / 16));
        assert(hex_text(a)[2 * i + 1] == hex_char(x % 16));
        assert(hex_text(b)[2 * i + 1] == hex_char(y % 16));
        lemma_hex_char(x / 16, y / 16);
        lemma_hex_char(x % 16, y % 16);
    }
    assert(a =~= b);
}

proof fn lemma_hex_char(v: int, w: int)
    requires
        0 <= v < 16,
        0 <= w < 16,
        hex_char(v) == hex_char(w),
    ensures
        v == w,
{
    assert(hex_char(v) as u32 == if v < 10 { 48 + v } else { 87 + v });
    assert(hex_char(w) as u32 == if w < 10 { 48 + w } else { 87 + w });
}

/// The value of a hexadecimal digit.
pub open spec fn hex_value(c: char) -> int {
    if is_digit(c) {
        c as u32 - '0' as u32
    } else {
        c as u32 - 'a' as u32 + 10
    }
}

/// Each byte is written with two digits, of which the first counts sixteen times as much.
pub proof fn bytes_are_written_as_two_digits(data: Seq<u8>, i: int)
    requires
        0 <= i < data.len(),
    ensures
        hex_text(data).len() == 2 * data.len(),
        0 <= hex_value(hex_text(data)[2 * i]) < 16,
        0 <= hex_value(hex_text(data)[2 * i + 1]) < 16,
        data[i] == 16 * hex_value(hex_text(data)[2 * i]) + hex_value(hex_text(data)[2 * i + 1]),
{
    let x = data[i] as int;
    assert((2 * i) / 2 == i && (2 * i) % 2 == 0);
    assert((2 * i + 1) / 2 == i && (2 * i + 1) % 2 == 1);
    lemma_hex_value(x / 16);
    lemma_hex_value(x % 16);
}

proof fn lemma_hex_value(v: int)
    requires
        0 <= v < 16,
    ensures
        hex_value(hex_char(v)) == v,
{
    assert(hex_char(v) as u32 == if v < 10 { 48 + v } else { 87 + v });
}

/// Contents have the same hash exactly when they have the same digest, and the hash has two digits
/// for each byte of it.
pub proof fn hashes_stand_for_digests(a: Seq<u8>, b: Seq<u8>)
    ensures
        content_hash(a) == content_hash(b) <==> blake3_digest(a) == blake3_digest(b),
        content_hash(a).len() == 2 * blake3_digest(a).len(),
        content_hash(a) == hex_text(blake3_digest(a)),
{
    if content_hash(a) == content_hash(b) {
        hex_text_is_injective(blake3_digest(a), blake3_digest(b));
    }
}

} // verus!
