//! SHA-256, of whole byte sequences and of data that comes in parts.
use crate::text;
use sha2::Digest;
use vstd::prelude::*;

verus! {

/// A SHA-256 computation that is under way.
#[verifier::external_type_specification]
#[verifier::external_body]
pub struct ExSha256(sha2::Sha256);

/// The SHA-256 digest, as `sha2::Sha256` computes it.
pub uninterp spec fn sha256(data: Seq<u8>) -> Seq<u8>;

/// The bytes that a computation has taken in so far.
pub uninterp spec fn absorbed(hasher: sha2::Sha256) -> Seq<u8>;

/// `Sha256::digest`: 32 bytes, a function of the data alone.
#[verifier::external_body]
pub(crate) fn sha256_digest(data: &[u8]) -> (r: Vec<u8>)
    ensures
        r@ == sha256(data@),
        r@.len() == 32,
{
    sha2::Sha256::digest(data).to_vec()
}

/// `Sha256::new`: nothing has been taken in.
#[verifier::external_body]
pub(crate) fn new_hasher() -> (r: sha2::Sha256)
    ensures
        absorbed(r) == Seq::<u8>::empty(),
{
    sha2::Sha256::new()
}

/// `Digest::update`: the data is taken in behind what came before.
#[verifier::external_body]
pub(crate) fn update_hasher(hasher: &mut sha2::Sha256, data: &[u8])
    ensures
        absorbed(*final(hasher)) == absorbed(*old(hasher)) + data@,
{
    hasher.update(data);
}

/// `Digest::finalize`: the digest of all that was taken in.
#[verifier::external_body]
pub(crate) fn finish_hasher(hasher: sha2::Sha256) -> (r: Vec<u8>)
    ensures
        r@ == sha256(absorbed(hasher)),
        r@.len() == 32,
{
    hasher.finalize().to_vec()
}

/// The lower-case hexadecimal notation of the digest.
pub open spec fn digest_text(data: Seq<u8>) -> Seq<char> {
    text::hex_of(sha256(data))
}

/// The lower-case hexadecimal notation of the SHA-256 digest of the bytes.
pub fn hash_bytes(bytes: &[u8]) -> (r: String)
    ensures
        r@ == digest_text(bytes@),
        r@.len() == 64,
{
    let digest = sha256_digest(bytes);
    proof {
        text::lemma_hex_length(digest@);
    }
    text::hex(&digest)
}

/// The notation of the digest of all that the computation has taken in.
pub fn finish_text(hasher: sha2::Sha256) -> (r: String)
    ensures
        r@ == digest_text(absorbed(hasher)),
        r@.len() == 64,
{
    let digest = finish_hasher(hasher);
    proof {
        text::lemma_hex_length(digest@);
    }
    text::hex(&digest)
}

/// A digest is shown with digits to the base sixteen.
pub proof fn lemma_digest_text(data: Seq<u8>)
    ensures
        forall|i: int|
            0 <= i < digest_text(data).len() ==> '0' <= #[trigger] digest_text(data)[i] <= '9' || 'a'
                <= digest_text(data)[i] <= 'f',
{
    text::lemma_hex_digits(sha256(data));
}

/// The digest of data that was taken in piece by piece is that of the data as a whole.
pub proof fn law_pieces_have_the_digest_of_the_whole(
    hasher: sha2::Sha256,
    data: &[u8],
    pieces: String,
    whole: String,
)
    requires
        absorbed(hasher) == data@,
        call_ensures(finish_text, (hasher,), pieces),
        call_ensures(hash_bytes, (data,), whole),
    ensures
        pieces@ == whole@,
        whole@.len() == 64,
{
}

/// The digest that is shown is the SHA-256 digest of the data, byte by byte.
pub proof fn law_digest_is_of_the_data(
    data: &[u8],
    digest: Vec<u8>,
    shown: String,
    r: String,
)
    requires
        digest@ == sha256(data@),
        call_ensures(text::hex, (&digest,), shown),
        call_ensures(hash_bytes, (data,), r),
    ensures
        r@ == shown@,
{
}

} // verus!
