//! SHA-256 digests, written as lowercase hexadecimal.
use vstd::prelude::*;

use sha2::Digest;

verus! {

/// The SHA-256 digest of `bytes`.
pub uninterp spec fn sha256_digest(bytes: Seq<u8>) -> Seq<u8>;

/// `sha2::Sha256::digest`: the 32-byte SHA-256 digest of `bytes`. The
/// contract names the digest and states its length, nothing more.
#[verifier::external_body]
fn sha256(bytes: &[u8]) -> (digest: Vec<u8>)
    ensures
        digest@ == sha256_digest(bytes@),
        digest@.len() == 32,
{
    sha2::Sha256::digest(bytes).to_vec()
}

/// The lowercase hexadecimal digit of `n` (below 16).
pub open spec fn hex_digit(n: int) -> char {
    if n < 10 {
        (48 + n) as char
    } else {
        (87 + n) as char
    }
}

/// Each byte as two lowercase hexadecimal digits, the high one first.
pub open spec fn hex_text(bytes: Seq<u8>) -> Seq<char>
    decreases bytes.len(),
{
    if bytes.len() == 0 {
        Seq::empty()
    } else {
        hex_text(bytes.drop_last()) + seq![
            hex_digit(bytes.last() as int / 16),
            hex_digit(bytes.last() as int % 16),
        ]
    }
}

fn hex_char(n: u8) -> (c: char)
    requires
        n < 16,
    ensures
        c == hex_digit(n as int),
{
    let table: [char; 16] = [
        '0', '1', '2', '3', '4', '5', '6', '7', '8', '9', 'a', 'b', 'c', 'd', 'e', 'f',
    ];
    proof {
        assert(table@[n as int] == hex_digit(n as int)) by {
            assert(hex_digit(0) == '0');
            assert(hex_digit(1) == '1');
            assert(hex_digit(2) == '2');
            assert(hex_digit(3) == '3');
            assert(hex_digit(4) == '4');
            assert(hex_digit(5) == '5');
            assert(hex_digit(6) == '6');
            assert(hex_digit(7) == '7');
            assert(hex_digit(8) == '8');
            assert(hex_digit(9) == '9');
            assert(hex_digit(10) == 'a');
            assert(hex_digit(11) == 'b');
            assert(hex_digit(12) == 'c');
            assert(hex_digit(13) == 'd');
            assert(hex_digit(14) == 'e');
            assert(hex_digit(15) == 'f');
        }
    }
    table[n as usize]
}

/// `bytes` in lowercase hexadecimal, as `{:x}` writes a digest.
pub fn hex_lower(bytes: &Vec<u8>) -> (text: String)
    ensures
        text@ == hex_text(bytes@),
{
    let mut chars: Vec<char> = Vec::new();
    let mut k: usize = 0;
    assert(bytes@.take(0) =~= Seq::<u8>::empty());
    while k < bytes.len()
        invariant
            k <= bytes@.len(),
            chars@ == hex_text(bytes@.take(k as int)),
        decreases bytes@.len() - k,
    {
        let b: u8 = bytes[k];
        chars.push(hex_char(b / 16));
        chars.push(hex_char(b % 16));
        assert(bytes@.take(k as int + 1).drop_last() =~= bytes@.take(k as int));
        k = k + 1;
        assert(chars@ =~= hex_text(bytes@.take(k as int)));
    }
    assert(bytes@.take(bytes@.len() as int) =~= bytes@);
    crate::text::string_from_chars(chars.as_slice())
}

/// The SHA-256 digest of the UTF-8 bytes of `text`, in lowercase hexadecimal.
pub open spec fn sha256_hex(text: Seq<char>) -> Seq<char> {
    hex_text(sha256_digest(vstd::utf8::encode_utf8(text)))
}

/// The lowercase hexadecimal SHA-256 digest of the UTF-8 bytes of `text`.
pub fn digest_hex(text: &str) -> (hex: String)
    ensures
        hex@ == sha256_hex(text@),
        hex@.len() == 64,
{
    let digest: Vec<u8> = sha256(text.as_bytes());
    let hex: String = hex_lower(&digest);
    proof {
        lemma_hex_len(digest@);
    }
    hex
}

proof fn lemma_hex_len(bytes: Seq<u8>)
    ensures
        hex_text(bytes).len() == 2 * bytes.len(),
    decreases bytes.len(),
{
    if bytes.len() > 0 {
        lemma_hex_len(bytes.drop_last());
    }
}

} // verus!
