//! SHA-256 digests and their hexadecimal text.

use crate::text::{is_hex_digit, lower, lower_char};
use vstd::prelude::*;

verus! {

/// The SHA-256 digest of `bytes`.
pub uninterp spec fn sha256(bytes: Seq<u8>) -> Seq<u8>;

/// `sha2::Sha256::digest`: the SHA-256 digest of the bytes, which is always 32
/// bytes long. What those bytes are is left to the name [`sha256`].
#[verifier::external_body]
fn sha256_digest(bytes: &[u8]) -> (out: Vec<u8>)
    ensures
        out@ == sha256(bytes@),
        out@.len() == 32,
{
    <sha2::Sha256 as sha2::Digest>::digest(bytes).to_vec()
}

/// The small hexadecimal digit for `n`.
pub open spec fn hex_char(n: u8) -> char {
    if n < 10 {
        (n + 48) as char
    } else {
        (n + 87) as char
    }
}

/// The hexadecimal text of `bytes`: two digits for each, the high one first.
pub open spec fn hex_of(bytes: Seq<u8>) -> Seq<char> {
    Seq::new(
        2 * bytes.len(),
        |i: int|
            if i % 2 == 0 {
                hex_char(bytes[i / 2] / 16)
            } else {
                hex_char(bytes[i / 2] % 16)
            },
    )
}

fn to_hex_char(n: u8) -> (c: char)
    requires
        n < 16,
    ensures
        c == hex_char(n),
{
    if n < 10 {
        (n + 48) as char
    } else {
        (n + 87) as char
    }
}

/// The hexadecimal text of `bytes`.
pub fn hex_text(bytes: &[u8]) -> (out: String)
    ensures
        out@ == hex_of(bytes@),
{
    let mut out: String = String::new();
    let mut i: usize = 0;
    while i < bytes.len()
        invariant
            i <= bytes@.len(),
            out@ == hex_of(bytes@).take(2 * i),
        decreases bytes@.len() - i,
    {
        let b: u8 = bytes[i];
        out.push(to_hex_char(b / 16));
        out.push(to_hex_char(b % 16));
        i = i + 1;
        assert(out@ =~= hex_of(bytes@).take(2 * i));
    }
    assert(hex_of(bytes@).take(2 * i) =~= hex_of(bytes@));
    out
}

/// The SHA-256 digest of `bytes`, in hexadecimal.
pub fn hex_digest(bytes: &[u8]) -> (out: String)
    ensures
        out@ == hex_of(sha256(bytes@)),
        out@.len() == 64,
{
    hex_text(sha256_digest(bytes).as_slice())
}

/// Hexadecimal text is written in digits and small letters.
pub proof fn hex_is_small(bytes: Seq<u8>)
    ensures
        hex_of(bytes).len() == 2 * bytes.len(),
        forall|i: int|
            0 <= i < hex_of(bytes).len() ==> is_hex_digit(#[trigger] hex_of(bytes)[i]),
        lower(hex_of(bytes)) == hex_of(bytes),
{
    let h = hex_of(bytes);
    assert forall|i: int| 0 <= i < h.len() implies is_hex_digit(#[trigger] h[i]) && lower_char(
        h[i],
    ) == h[i] by {
        let b = bytes[i / 2];
        assert(b / 16 < 16 && b % 16 < 16);
    }
    assert(lower(h) =~= h);
}

/// Hexadecimal text stands for one sequence of bytes only.
pub proof fn hex_is_injective(a: Seq<u8>, b: Seq<u8>)
    requires
        hex_of(a) == hex_of(b),
    ensures
        a == b,
{
    assert(hex_of(a).len() == 2 * a.len());
    assert(hex_of(b).len() == 2 * b.len());
    assert forall|i: int| 0 <= i < a.len() implies a[i] == b[i] by {
        assert(hex_of(a)[2 * i] == hex_char(a[i] / 16));
        assert(hex_of(b)[2 * i] == hex_char(b[i] / 16));
        assert((2 * i + 1) / 2 == i && (2 * i + 1) % 2 == 1);
        assert(hex_of(a)[2 * i + 1] == hex_char(a[i] % 16));
        assert(hex_of(b)[2 * i + 1] == hex_char(b[i] % 16));
    }
    assert(a =~= b);
}

}
