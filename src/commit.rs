use vstd::prelude::*;

use crate::addr::{bytes_equal, Addr};
use crate::types::Side;

verus! {

/// The bytes of "coinflip_v1", which open every commitment preimage.
pub open spec fn domain_tag() -> Seq<u8> {
    seq![99u8, 111u8, 105u8, 110u8, 102u8, 108u8, 105u8, 112u8, 95u8, 118u8, 49u8]
}

/// The bytes that stand for a side in a preimage: "heads" or "tails".
pub open spec fn side_tag(side: Side) -> Seq<u8> {
    match side {
        Side::Heads => seq![104u8, 101u8, 97u8, 100u8, 115u8],
        Side::Tails => seq![116u8, 97u8, 105u8, 108u8, 115u8],
    }
}

/// What a maker hashes to commit to `side` with `secret`.
pub open spec fn commitment_preimage(maker: Seq<u8>, side: Side, secret: Seq<u8>) -> Seq<u8> {
    domain_tag() + maker + side_tag(side) + secret
}

/// The SHA-256 digest of `data`.
pub uninterp spec fn sha256_of(data: Seq<u8>) -> Seq<u8>;

/// The commitment that binds `maker` to `side` with `secret`.
pub open spec fn commitment_of(maker: Seq<u8>, side: Side, secret: Seq<u8>) -> Seq<u8> {
    sha256_of(commitment_preimage(maker, side, secret))
}

/// Relies on sha2::Sha256::digest: the SHA-256 digest of the input, which is
/// 32 bytes long and depends on the input alone.
#[verifier::external_body]
fn sha256(data: &[u8]) -> (r: Vec<u8>)
    ensures
        r@ == sha256_of(data@),
        r@.len() == 32,
{
    <sha2::Sha256 as sha2::Digest>::digest(data).to_vec()
}

fn append_bytes(out: &mut Vec<u8>, b: &[u8])
    ensures
        final(out)@ == old(out)@ + b@,
{
    let mut i: usize = 0;
    while i < b.len()
        invariant
            0 <= i <= b@.len(),
            out@ == old(out)@ + b@.subrange(0, i as int),
        decreases b@.len() - i,
    {
        out.push(b[i]);
        i = i + 1;
        assert(b@.subrange(0, i as int) == b@.subrange(0, i - 1) + seq![b@[i - 1]]);
    }
    assert(b@.subrange(0, b@.len() as int) =~= b@);
}

/// The tag bytes of `side`.
pub fn side_bytes(side: Side) -> (r: Vec<u8>)
    ensures
        r@ == side_tag(side),
{
    let r: Vec<u8> = match side {
        Side::Heads => vec![104u8, 101u8, 97u8, 100u8, 115u8],
        Side::Tails => vec![116u8, 97u8, 105u8, 108u8, 115u8],
    };
    assert(r@ =~= side_tag(side));
    r
}

/// The preimage bytes that a commitment to `side` with `secret` hashes.
pub fn preimage_bytes(maker: &Addr, side: Side, secret: &[u8]) -> (r: Vec<u8>)
    ensures
        r@ == commitment_preimage(maker@, side, secret@),
{
    let mut out: Vec<u8> = vec![99u8, 111u8, 105u8, 110u8, 102u8, 108u8, 105u8, 112u8, 95u8, 118u8, 49u8];
    assert(out@ =~= domain_tag());
    append_bytes(&mut out, maker.as_bytes());
    let tag = side_bytes(side);
    append_bytes(&mut out, tag.as_slice());
    append_bytes(&mut out, secret);
    out
}

/// The commitment that binds `maker` to `side` with `secret`: the SHA-256
/// digest of the tag, the maker's address, the side's tag and the secret.
pub fn compute_commitment(maker: &Addr, side: Side, secret: &[u8]) -> (r: Vec<u8>)
    ensures
        r@ == commitment_of(maker@, side, secret@),
        r@.len() == 32,
{
    let data = preimage_bytes(maker, side, secret);
    sha256(data.as_slice())
}

/// Whether a digest computed from a reveal equals the stored commitment.
pub fn digest_matches(digest: &[u8], commitment: &[u8]) -> (r: bool)
    ensures
        r == (digest@ == commitment@),
{
    bytes_equal(digest, commitment)
}

/// Whether revealing `side` with `secret` opens `commitment` for `maker`.
pub fn verify_commitment(maker: &Addr, side: Side, secret: &[u8], commitment: &[u8]) -> (r: bool)
    ensures
        r == (commitment_of(maker@, side, secret@) == commitment@),
{
    let digest = compute_commitment(maker, side, secret);
    digest_matches(digest.as_slice(), commitment)
}

} // verus!
