//! Where a fetched image is kept.

use crate::text::{
    chars_of, contains_text, lowercase_of, part_starts_with, text_contains, to_lowercase,
};
use vstd::prelude::*;

verus! {

/// The number of images that are fetched at one time.
pub const DOWNLOAD_CONCURRENCY: usize = 16;

/// The kind of content that stands for a vector image.
pub const SVG_CONTENT_TYPE: &'static str = "image/svg+xml";

/// Whether what was fetched is a vector image: its kind of content says so, or its
/// address, in lower case, holds `.svg`.
pub open spec fn is_svg(content_type: Option<Seq<char>>, url: Seq<char>) -> bool {
    ||| content_type is Some && SVG_CONTENT_TYPE@.is_prefix_of(content_type->0)
    ||| contains_text(lowercase_of(url), ".svg"@)
}

/// Whether what was fetched is a vector image, which is kept as it is; any other image
/// is kept as PNG.
pub fn is_svg_download(content_type: Option<&str>, url: &str) -> (svg: bool)
    ensures
        svg == is_svg(
            match content_type {
                Some(kind) => Some(kind@),
                None => None,
            },
            url@,
        ),
{
    let by_kind = match content_type {
        Some(kind) => {
            let chars = chars_of(kind);
            assert(chars@.subrange(0, chars@.len() as int) =~= kind@);
            part_starts_with(&chars, 0, chars.len(), SVG_CONTENT_TYPE)
        },
        None => false,
    };
    if by_kind {
        true
    } else {
        let lower = to_lowercase(url);
        text_contains(lower.as_str(), ".svg")
    }
}

} // verus!
