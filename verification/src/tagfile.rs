//! The per-bill tag files that `apply` writes and `publish` reads: their
//! metadata, and the SHA-256 stamp of the tag configuration.
use vstd::prelude::*;
use sha2::Digest;
use crate::text::copy_str;

verus! {

/// The lowercase hexadecimal SHA-256 digest of the UTF-8 bytes of `text`.
pub uninterp spec fn sha256_hex(text: Seq<char>) -> Seq<char>;

/// A lowercase hexadecimal digit.
pub open spec fn is_lower_hex(c: char) -> bool {
    ('0' <= c && c <= '9') || ('a' <= c && c <= 'f')
}

/// `sha2::Sha256::digest` over the bytes of `text`, formatted with `{:x}`: the
/// result is named `sha256_hex(text)`, and, as a SHA-256 output is 32
/// bytes and `LowerHex` writes two lowercase digits per byte, it is 64
/// lowercase hexadecimal digits.
#[verifier::external_body]
fn sha256_hex_digest(text: &str) -> (r: String)
    ensures
        r@ == sha256_hex(text@),
        r@.len() == 64,
        forall|i: int| 0 <= i < r@.len() ==> is_lower_hex(#[trigger] r@[i]),
{
    format!("{:x}", sha2::Sha256::digest(text.as_bytes()))
}

/// Hash text (SHA-256, lowercase hex) for de-duplication and for stamping a
/// tag file with the configuration it was made with.
pub fn hash_text(text: &str) -> (r: String)
    ensures
        r@ == sha256_hex(text@),
        r@.len() == 64,
        forall|i: int| 0 <= i < r@.len() ==> is_lower_hex(#[trigger] r@[i]),
{
    sha256_hex_digest(text)
}

/// Metadata about a tag file.
pub struct TagFileMetadata {
    /// When the tag file was last written (RFC 3339).
    pub last_run: String,
    /// What classified the bills in it.
    pub model: String,
    /// The SHA-256 of the serialized tag configuration.
    pub tag_config_hash: String,
}

impl TagFileMetadata {
    /// The metadata of a fresh tag file written at `now` by fastclass,
    /// stamped with the hash of `tag_config_json`, the serialized tag
    /// configuration.
    pub fn fresh(now: &str, tag_config_json: &str) -> (r: TagFileMetadata)
        ensures
            r.last_run@ == now@,
            r.model@ == "fastclass"@,
            r.tag_config_hash@ == sha256_hex(tag_config_json@),
    {
        TagFileMetadata {
            last_run: copy_str(now),
            model: copy_str("fastclass"),
            tag_config_hash: hash_text(tag_config_json),
        }
    }

    /// Re-stamp the metadata for a write at `now`: the run time and the
    /// model change, the configuration hash stays.
    pub fn touch(&mut self, now: &str)
        ensures
            final(self).last_run@ == now@,
            final(self).model@ == "fastclass"@,
            final(self).tag_config_hash@ == old(self).tag_config_hash@,
    {
        self.last_run = copy_str(now);
        self.model = copy_str("fastclass");
    }
}

} // verus!
