//! SHA-256 digests and their lowercase hexadecimal spelling.
use vstd::prelude::*;

verus! {

/// The SHA-256 digest of `data`, as the `sha2` crate computes it.
pub uninterp spec fn sha256_digest(data: Seq<u8>) -> Seq<u8>;

/// Calls `sha2::Sha256::digest`. The result is named `sha256_digest` of the
/// input; the crate's output type fixes its length at 32 bytes.
#[verifier::external_body]
pub fn sha256(data: &[u8]) -> (r: Vec<u8>)
    ensures
        r@ == sha256_digest(data@),
        r@.len() == 32,
{
    <sha2::Sha256 as sha2::Digest>::digest(data).to_vec()
}

pub open spec fn hex_digit(v: nat) -> char
    recommends
        v < 16,
{
    if v < 10 { ((v + 48) as u8) as char } else { ((v - 10 + 97) as u8) as char }
}

/// Two lowercase hexadecimal digits per byte, most significant nibble first.
pub open spec fn lower_hex(bytes: Seq<u8>) -> Seq<char>
    decreases bytes.len(),
{
    if bytes.len() == 0 {
        Seq::empty()
    } else {
        lower_hex(bytes.drop_last()) + seq![hex_digit((bytes.last() / 16) as nat), hex_digit((bytes.last() % 16) as nat)]
    }
}

proof fn lemma_lower_hex_len(bytes: Seq<u8>)
    ensures
        lower_hex(bytes).len() == 2 * bytes.len(),
    decreases bytes.len(),
{
    if bytes.len() > 0 {
        lemma_lower_hex_len(bytes.drop_last());
    }
}

fn hex_char(v: u8) -> (c: char)
    requires
        v < 16,
    ensures
        c == hex_digit(v as nat),
{
    if v < 10 { (v + 48) as char } else { (v - 10 + 97) as char }
}

/// The lowercase hexadecimal spelling of `bytes`, as `{:x}` writes a digest.
pub fn lower_hex_chars(bytes: &[u8]) -> (r: Vec<char>)
    ensures
        r@ == lower_hex(bytes@),
        r@.len() == 2 * bytes@.len(),
{
    let mut out: Vec<char> = Vec::new();
    let mut i: usize = 0;
    while i < bytes.len()
        invariant
            i <= bytes@.len(),
            out@ == lower_hex(bytes@.take(i as int)),
        decreases bytes@.len() - i,
    {
        let b = bytes[i];
        out.push(hex_char(b / 16));
        out.push(hex_char(b % 16));
        assert(bytes@.take(i + 1).drop_last() =~= bytes@.take(i as int));
        assert(out@ =~= lower_hex(bytes@.take(i + 1)));
        i = i + 1;
    }
    assert(bytes@.take(bytes@.len() as int) =~= bytes@);
    proof { lemma_lower_hex_len(bytes@); }
    out
}

/// The first `count` characters of the hexadecimal spelling.
pub fn hex_prefix(bytes: &[u8], count: usize) -> (r: String)
    ensures
        r@ == (if count <= 2 * bytes@.len() { lower_hex(bytes@).take(count as int) } else { lower_hex(bytes@) }),
{
    let mut hex = lower_hex_chars(bytes);
    if count < hex.len() {
        hex.truncate(count);
    }
    crate::text::string_from_chars(hex.as_slice())
}

} // verus!
