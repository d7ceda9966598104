//! Logo finishing: dominant-colour analysis, background keying, border
//! trimming and composition of a centred SVG document for one logo image.

use vstd::prelude::*;
use vstd::utf8::{encode_utf8, is_char_boundary};

pub mod background_works;
pub mod config;
pub mod image_loader;
pub mod image_worker;
pub mod job_loaders;
pub mod otp;
pub mod parsers;
pub mod raster;
pub mod svg_saver;
pub mod text;
pub mod vectorize;

verus! {

/// The greatest number of bytes of the greeting.
pub const GREETING_LIMIT: usize = 100;

/// The greeting for a caller, before it is cut.
pub open spec fn greeting(name: Seq<char>) -> Seq<char> {
    "Тестовый вызов библиотеки "@ + name
}

/// Greets a caller by name, with at most `GREETING_LIMIT` bytes of text. The cut must
/// not fall inside a character.
pub fn test(str: &str) -> (res: String)
    requires
        encode_utf8(greeting(str@)).len() <= GREETING_LIMIT || is_char_boundary(
            encode_utf8(greeting(str@)),
            GREETING_LIMIT as int,
        ),
    ensures
        encode_utf8(greeting(str@)).len() <= GREETING_LIMIT ==> res@ == greeting(str@),
        encode_utf8(greeting(str@)).len() > GREETING_LIMIT ==> encode_utf8(res@) == encode_utf8(
            greeting(str@),
        ).subrange(0, GREETING_LIMIT as int),
{
    let mut whole = String::from_str("Тестовый вызов библиотеки ");
    whole.append(str);
    if whole.as_str().as_bytes().len() <= GREETING_LIMIT {
        whole
    } else {
        let (kept, _) = whole.as_str().split_at(GREETING_LIMIT);
        String::from_str(kept)
    }
}

} // verus!
