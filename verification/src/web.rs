//! Serving the dashboard: the validator of embedded assets.

use vstd::prelude::*;
use crate::text::{hex_prefix, hex_text};

verus! {

/// First 8 bytes of a hash as lower-case hex: short but ample to detect asset
/// changes.
pub fn hex8(bytes: &[u8]) -> (s: String)
    ensures
        s@ == hex_text(bytes@.take(if bytes@.len() < 8 {
            bytes@.len() as int
        } else {
            8
        })),
{
    hex_prefix(bytes, 8)
}

/// The entity tag of an asset whose content hash is `hash`: its [`hex8`] text
/// in double quotes.
pub fn asset_etag(hash: &[u8]) -> (tag: String)
    ensures
        tag@ == seq!['"'] + hex_text(hash@.take(if hash@.len() < 8 {
            hash@.len() as int
        } else {
            8
        })) + seq!['"'],
{
    proof {
        reveal_strlit("\"");
    }
    let mut tag = "\"".to_owned();
    tag.append(hex8(hash).as_str());
    tag.append("\"");
    tag
}

} // verus!
