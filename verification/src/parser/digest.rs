//! SHA-256 digests of text, as lower-case hexadecimal.

use vstd::prelude::*;
use crate::json::{hex_digit, hex_digit_char};
use crate::text::push_char;

verus! {

/// The SHA-256 digest of a byte sequence.
pub uninterp spec fn sha256_digest(bytes: Seq<u8>) -> Seq<u8>;

/// Calls `<sha2::Sha256 as digest::Digest>::digest`; claims the result is
/// `sha256_digest` of the input, 32 bytes long (SHA-256's output size).
#[verifier::external_body]
fn sha256(bytes: &[u8]) -> (d: Vec<u8>)
    ensures
        d@ == sha256_digest(bytes@),
        d@.len() == 32,
{
    <sha2::Sha256 as sha2::Digest>::digest(bytes).to_vec()
}

/// The SHA-256 digest of the UTF-8 encoding of `text`.
pub fn digest_of_text(text: &str) -> (d: Vec<u8>)
    ensures
        d@ == sha256_digest(vstd::utf8::encode_utf8(text@)),
        d@.len() == 32,
{
    sha256(text.as_bytes())
}

/// Two lower-case hexadecimal digits per byte.
pub open spec fn hex_text(bytes: Seq<u8>) -> Seq<char>
    decreases bytes.len(),
{
    if bytes.len() == 0 {
        Seq::empty()
    } else {
        hex_text(bytes.drop_last()) + seq![
            hex_digit((bytes.last() / 16) as nat),
            hex_digit((bytes.last() % 16) as nat),
        ]
    }
}

proof fn lemma_hex_digit_table(d: nat)
    requires
        d < 16,
    ensures
        hex_digit(d) == "0123456789abcdef"@[d as int],
{
    reveal_strlit("0123456789abcdef");
}

/// Each byte is written as two lower-case hexadecimal digits, the high
/// half first, in the order of the bytes.
pub proof fn law_hex_digits(bytes: Seq<u8>)
    ensures
        hex_text(bytes).len() == 2 * bytes.len(),
        forall|i: int|
            0 <= i < bytes.len() ==> hex_text(bytes)[2 * i] == "0123456789abcdef"@[((#[trigger] bytes[i]) / 16) as int]
                && hex_text(bytes)[2 * i + 1] == "0123456789abcdef"@[(bytes[i] % 16) as int],
    decreases bytes.len(),
{
    if bytes.len() > 0 {
        let t = bytes.drop_last();
        law_hex_digits(t);
        let b = bytes.last();
        lemma_hex_digit_table((b / 16) as nat);
        lemma_hex_digit_table((b % 16) as nat);
        assert forall|i: int|
            0 <= i < bytes.len() implies hex_text(bytes)[2 * i] == "0123456789abcdef"@[((#[trigger] bytes[i]) / 16) as int]
                && hex_text(bytes)[2 * i + 1] == "0123456789abcdef"@[(bytes[i] % 16) as int] by {
            if i < t.len() {
                assert(bytes[i] == t[i]);
                assert(hex_text(bytes)[2 * i] == hex_text(t)[2 * i]);
                assert(hex_text(bytes)[2 * i + 1] == hex_text(t)[2 * i + 1]);
            }
        }
    }
}

/// Formats bytes as lower-case hexadecimal, two digits each.
pub fn hex_lower(bytes: &[u8]) -> (s: String)
    ensures
        s@ == hex_text(bytes@),
{
    let mut s = String::new();
    let mut i: usize = 0;
    while i < bytes.len()
        invariant
            i <= bytes@.len(),
            s@ == hex_text(bytes@.subrange(0, i as int)),
        decreases bytes.len() - i,
    {
        let b = bytes[i];
        push_char(&mut s, hex_digit_char(b / 16));
        push_char(&mut s, hex_digit_char(b % 16));
        proof {
            let next = bytes@.subrange(0, i + 1);
            assert(next.drop_last() =~= bytes@.subrange(0, i as int));
            assert(s@ =~= hex_text(next));
        }
        i = i + 1;
    }
    assert(bytes@.subrange(0, bytes@.len() as int) =~= bytes@);
    s
}

} // verus!
