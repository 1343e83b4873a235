//! Recognising gzipped data.
use vstd::prelude::*;

verus! {

/// Whether the first two bytes of a file are the gzip signature 0x1f 0x8b, in either order.
pub fn is_gzipped(header: &[u8; 2]) -> (r: bool)
    ensures
        r == ((header@[0] == 0x1f && header@[1] == 0x8b) || (header@[0] == 0x8b && header@[1]
            == 0x1f)),
{
    (header[0] == 0x1f && header[1] == 0x8b) || (header[0] == 0x8b && header[1] == 0x1f)
}

} // verus!
