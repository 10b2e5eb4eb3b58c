//! File identifiers: the lowercase hex of a prefix of the SHA-256 digest of
//! fresh random bytes.
use sha2::{Digest, Sha256};
use vstd::prelude::*;

verus! {

/// How many digest bytes an identifier is made from (two hex digits each).
pub const ID_DIGEST_BYTES: usize = 8;

/// The SHA-256 digest of a byte sequence.
pub uninterp spec fn sha256_of(data: Seq<u8>) -> Seq<u8>;

/// Relies on sha2's `Sha256` (through digest's `Digest::update` and
/// `Digest::finalize`): the SHA-256 digest of `data`, 32 bytes long.
#[verifier::external_body]
fn sha256(data: &Vec<u8>) -> (r: Vec<u8>)
    ensures
        r@ == sha256_of(data@),
        r@.len() == 32,
{
    let mut hasher = Sha256::new();
    hasher.update(data);
    hasher.finalize().to_vec()
}

/// Relies on `String::push`: appends one character at the end.
#[verifier::external_body]
fn push_char(s: &mut String, c: char)
    ensures
        final(s)@ == old(s)@.push(c),
{
    s.push(c)
}

/// The lowercase hex digit for a value below 16.
pub open spec fn hex_digit(n: u8) -> char {
    if n < 10 {
        ((48 + n) as u8) as char
    } else {
        ((87 + n) as u8) as char
    }
}

/// Two lowercase hex digits per byte, high nibble first.
pub open spec fn hex_text(bytes: Seq<u8>) -> Seq<char>
    decreases bytes.len(),
{
    if bytes.len() == 0 {
        Seq::empty()
    } else {
        let b = bytes.last();
        hex_text(bytes.drop_last()) + seq![hex_digit(b / 16), hex_digit(b % 16)]
    }
}

/// The identifier that a digest gives: the hex of its first bytes.
pub open spec fn id_of_digest(digest: Seq<u8>) -> Seq<char> {
    hex_text(digest.take(ID_DIGEST_BYTES as int))
}

/// The identifier that a block of random bytes gives.
pub open spec fn file_id_of(entropy: Seq<u8>) -> Seq<char> {
    id_of_digest(sha256_of(entropy))
}

pub proof fn lemma_hex_text_len(bytes: Seq<u8>)
    ensures
        hex_text(bytes).len() == 2 * bytes.len(),
    decreases bytes.len(),
{
    if bytes.len() > 0 {
        lemma_hex_text_len(bytes.drop_last());
    }
}

fn hex_digit_char(n: u8) -> (c: char)
    requires
        n < 16,
    ensures
        c == hex_digit(n),
{
    if n < 10 {
        (48 + n) as char
    } else {
        (87 + n) as char
    }
}

/// The identifier made from a digest: lowercase hex of its first
/// `ID_DIGEST_BYTES` bytes.
pub fn id_from_digest(digest: &Vec<u8>) -> (id: String)
    requires
        digest@.len() >= ID_DIGEST_BYTES,
    ensures
        id@ == id_of_digest(digest@),
        id@.len() == 2 * ID_DIGEST_BYTES,
{
    let mut id = String::new();
    let mut i: usize = 0;
    while i < ID_DIGEST_BYTES
        invariant
            i <= ID_DIGEST_BYTES <= digest@.len(),
            id@ == hex_text(digest@.take(i as int)),
        decreases ID_DIGEST_BYTES - i,
    {
        let b = digest[i];
        push_char(&mut id, hex_digit_char(b / 16));
        push_char(&mut id, hex_digit_char(b % 16));
        assert(digest@.take(i + 1).drop_last() =~= digest@.take(i as int));
        i = i + 1;
    }
    proof {
        lemma_hex_text_len(digest@.take(ID_DIGEST_BYTES as int));
    }
    id
}

/// A fresh identifier from a block of random bytes: hashes them and keeps
/// the hex of the digest's first bytes.
pub fn generate_file_id(entropy: &Vec<u8>) -> (id: String)
    ensures
        id@ == file_id_of(entropy@),
        id@.len() == 2 * ID_DIGEST_BYTES,
{
    let digest = sha256(entropy);
    id_from_digest(&digest)
}

} // verus!
