//! The digest that identities and block links are derived from.

use sha2::{Digest, Sha256};
use vstd::prelude::*;

verus! {

/// The number of characters of a digest: two for each of its 32 bytes.
pub const DIGEST_LENGTH: usize = 64;

/// The SHA-256 digest of a text's UTF-8 bytes, in lower-case hexadecimal.
pub uninterp spec fn sha256_hex(data: Seq<char>) -> Seq<char>;

/// The digest of a text: what `calculate_hash` returns for it, which is the
/// text named by `sha256_hex` and has `DIGEST_LENGTH` characters. The second
/// branch is what makes the length hold of every text in a proof; the
/// hashing call never gives a text of another length.
pub open spec fn digest_of(data: Seq<char>) -> Seq<char> {
    if sha256_hex(data).len() == DIGEST_LENGTH {
        sha256_hex(data)
    } else {
        Seq::new(DIGEST_LENGTH as nat, |i: int| '0')
    }
}

/// Whether no two texts have one digest. No digest of a fixed length has
/// this of all texts; it stands for the texts at hand, as what a search for
/// a collision is taken never to find.
pub open spec fn collision_free() -> bool {
    forall|x: Seq<char>, y: Seq<char>| #[trigger] digest_of(x) == #[trigger] digest_of(y) ==> x == y
}

/// Hashes the bytes of `data` with `sha2::Sha256` (`new`, `update`,
/// `finalize`) and writes the 32 bytes of the digest in lower-case
/// hexadecimal, two characters each. Not proved: that the result is the text
/// named by `sha256_hex`, which is to say that it depends on the characters
/// of `data` alone, and that it has 64 characters.
#[verifier::external_body]
fn sha256_lower_hex(data: &str) -> (digest: String)
    ensures
        digest@ == sha256_hex(data@),
        digest@.len() == 64,
{
    let mut hasher = Sha256::new();
    hasher.update(data.as_bytes());
    let result = hasher.finalize();
    format!("{:x}", result)
}

/// The digest of a text.
pub fn calculate_hash(data: &str) -> (digest: String)
    ensures
        digest@ == digest_of(data@),
        digest@.len() == DIGEST_LENGTH,
{
    sha256_lower_hex(data)
}

} // verus!
