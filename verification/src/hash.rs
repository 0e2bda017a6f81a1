//! Hashing of canonical deed text: SHA-256 rendered as lower-case hex, and
//! the genesis sentinel that anchors every chain.

use sha2::Digest;
use vstd::prelude::*;
use vstd::string::StringExecFns;

verus! {

/// The digest of a character sequence: SHA-256 of its UTF-8 bytes, rendered
/// as 64 lower-case hex characters. The digest is a function of the input
/// alone; its value is not described further here.
pub uninterp spec fn sha256_hex_of(s: Seq<char>) -> Seq<char>;

/// Holds of every character a digest rendering can contain.
pub open spec fn is_hex_lower(c: char) -> bool {
    ('0' <= c && c <= '9') || ('a' <= c && c <= 'f')
}

/// Relies on sha2::Sha256: a 32-byte digest of the input's UTF-8 bytes,
/// a pure function of the input, written here as 64 lower-case hex digits.
#[verifier::external_body]
pub fn sha256_hex(s: &str) -> (r: String)
    ensures
        r@ == sha256_hex_of(s@),
        r@.len() == 64,
        forall|i: int| 0 <= i < r@.len() ==> is_hex_lower(#[trigger] r@[i]),
{
    let mut hasher = sha2::Sha256::new();
    hasher.update(s.as_bytes());
    format!("{:x}", hasher.finalize())
}

/// The genesis sentinel: 64 ASCII zero characters, used as the `prev_hash`
/// of a chain's first record.
pub open spec fn genesis_seq() -> Seq<char> {
    Seq::new(64, |i: int| '0')
}

/// Builds the genesis sentinel string.
pub fn genesis_hash() -> (r: String)
    ensures
        r@ == genesis_seq(),
{
    let mut s = String::new();
    proof {
        reveal_strlit("0");
    }
    let mut i: usize = 0;
    while i < 64
        invariant
            i <= 64,
            s@.len() == i,
            forall|j: int| 0 <= j < i ==> s@[j] == '0',
            "0"@ =~= seq!['0'],
        decreases 64 - i,
    {
        s.append("0");
        i = i + 1;
    }
    proof {
        assert(s@ =~= genesis_seq());
    }
    s
}

} // verus!
