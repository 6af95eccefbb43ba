//! Content digests in the `sha256:` + lowercase hex form.
use vstd::prelude::*;
use crate::text::{hex_lower, hex_digit, hex_encode, string_of};
use crate::manifest::{valid_digest, is_lower_hex};
use sha2::{Digest, Sha256};

verus! {

/// The SHA-256 digest of `data` (32 bytes).
pub uninterp spec fn sha256_spec(data: Seq<u8>) -> Seq<u8>;

/// SHA-256 of `data`, computed by `sha2::Sha256::digest`. The contract claims
/// that the result is the SHA-256 function of the input and is 32 bytes long.
#[verifier::external_body]
fn sha256(data: &[u8]) -> (r: Vec<u8>)
    ensures
        r@ == sha256_spec(data@),
        r@.len() == 32,
{
    Sha256::digest(data).to_vec()
}

/// `sha256:` followed by the lowercase hex of the SHA-256 of `bytes`.
pub open spec fn content_digest_spec(bytes: Seq<u8>) -> Seq<char> {
    "sha256:"@ + hex_lower(sha256_spec(bytes))
}

proof fn lemma_hex_lower_digits(b: Seq<u8>)
    ensures
        hex_lower(b).len() == 2 * b.len(),
        forall|i: int| 0 <= i < hex_lower(b).len() ==> is_lower_hex(#[trigger] hex_lower(b)[i]),
    decreases b.len(),
{
    if b.len() > 0 {
        lemma_hex_lower_digits(b.drop_last());
        let hi = (b.last() / 16) as nat;
        let lo = (b.last() % 16) as nat;
        assert(is_lower_hex(hex_digit(hi)));
        assert(is_lower_hex(hex_digit(lo)));
        let pre = hex_lower(b.drop_last());
        assert(hex_lower(b) == pre + seq![hex_digit(hi), hex_digit(lo)]);
        assert forall|i: int| 0 <= i < hex_lower(b).len() implies is_lower_hex(#[trigger] hex_lower(b)[i]) by {
            if i < pre.len() {
                assert(hex_lower(b)[i] == pre[i]);
            }
        }
    }
}

/// Content digest matching Impetus ownership style: `sha256:` + lowercase hex.
pub fn content_digest(bytes: &[u8]) -> (r: String)
    ensures
        r@ == content_digest_spec(bytes@),
        r@.len() == 71,
        valid_digest(r@),
{
    let hash = sha256(bytes);
    let hex = hex_encode(hash.as_slice());
    let hs = string_of(hex.as_slice());
    let mut out = String::from_str("sha256:");
    out.append(hs.as_str());
    proof {
        reveal_strlit("sha256:");
        lemma_hex_lower_digits(hash@);
        assert(out@.take(7) =~= "sha256:"@);
        assert forall|i: int| 7 <= i < out@.len() implies is_lower_hex(out@[i]) by {
            assert(out@[i] == hex@[i - 7]);
        }
    }
    out
}

} // verus!
