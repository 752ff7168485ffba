//! The image formats that the viewer opens, told by the extension of a file
//! name.

use vstd::prelude::*;
use vstd::utf8::{encode_utf8, encode_utf8_decode_utf8};

verus! {

/// The extensions of the files that count as images, as they are written:
/// in lower case and without the dot.
pub open spec fn supported_formats() -> Seq<Seq<char>> {
    seq!["bmp"@, "png"@, "gif"@, "jpg"@, "jpeg"@, "tif"@, "tiff"@]
}

/// Decides whether two strings hold the same text.
pub fn same_text(a: &str, b: &str) -> (same: bool)
    ensures
        same == (a@ == b@),
{
    let x = a.as_bytes();
    let y = b.as_bytes();
    if x.len() != y.len() {
        return false;
    }
    let mut i: usize = 0;
    while i < x.len()
        invariant
            i <= x.len(),
            x.len() == y.len(),
            x@ == encode_utf8(a@),
            y@ == encode_utf8(b@),
            forall|k: int| 0 <= k < i ==> x@[k] == y@[k],
        decreases x.len() - i,
    {
        if x[i] != y[i] {
            return false;
        }
        i += 1;
    }
    proof {
        assert(x@ =~= y@);
        encode_utf8_decode_utf8(a@);
        encode_utf8_decode_utf8(b@);
    }
    true
}

/// Decides whether `extension` is one of the [`supported_formats`].
pub fn is_supported_format(extension: &str) -> (supported: bool)
    ensures
        supported == supported_formats().contains(extension@),
{
    same_text(extension, "bmp")
        || same_text(extension, "png")
        || same_text(extension, "gif")
        || same_text(extension, "jpg")
        || same_text(extension, "jpeg")
        || same_text(extension, "tif")
        || same_text(extension, "tiff")
}

} // verus!
