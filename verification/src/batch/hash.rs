//! The hash by which a batch notices that its file has changed.

use vstd::prelude::*;
use vstd::string::*;
use super::op::{BatchError, BatchErrorView};

verus! {

/// The BLAKE3 hash of `content`, in 64 lower-case hexadecimal digits, as
/// `blake3::hash` and `Hash::to_hex` give it.
pub uninterp spec fn blake3_hex(content: Seq<u8>) -> Seq<char>;

/// Calls `blake3::hash` and `to_hex` on the result. The digest depends on
/// the bytes alone.
#[verifier::external_body]
pub(crate) fn blake3_hash(content: &[u8]) -> (hex: String)
    ensures
        hex@ == blake3_hex(content@),
{
    blake3::hash(content).to_hex().to_string()
}

/// The hash by which a batch notices that its file has changed: the
/// BLAKE3 hash of the bytes of the text.
pub fn content_hash(content: &str) -> (hex: String)
    ensures
        hex@ == blake3_hex(content.spec_bytes()),
{
    blake3_hash(content.as_bytes())
}

/// Whether a batch may be written: the file must have the hash it had when
/// the batch began.
pub fn check_unchanged(base_hash: &str, current_hash: &str) -> (r: Result<(), BatchError>)
    ensures
        match r {
            Ok(_) => base_hash@ == current_hash@,
            Err(e) => base_hash@ != current_hash@ && e@ == (BatchErrorView::Changed {
                base_hash: base_hash@,
                current_hash: current_hash@,
            }),
        },
{
    let base = base_hash.to_owned();
    let current = current_hash.to_owned();
    if base == current {
        Ok(())
    } else {
        Err(BatchError::Changed { base_hash: base, current_hash: current })
    }
}

} // verus!
