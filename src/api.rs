use vstd::prelude::*;

use crate::utils::{after_last, last_segment};

verus! {

/// The query of the image proxy: the image's URL, and the edge length wanted.
#[derive(Debug, Clone, PartialEq, Eq)]
pub struct UrlQuery {
    pub url: String,
    pub size: Option<u32>,
}

/// The smallest cap on the edge of a served image.
pub const MIN_SIZE_CAP: u32 = 1000;

/// The image's file name: the last segment of its URL.
pub fn image_path(url: &str) -> (r: &str)
    ensures
        r@ == after_last(url@, '/'),
{
    last_segment(url, '/')
}

/// The edge length of the square served: the one asked for, else the image's height;
/// at least 1, and at most the larger of the height and 1000.
pub fn image_size(requested: Option<u32>, height: u32) -> (r: u32)
    ensures
        ({
            let want = match requested {
                Some(s) => s as int,
                None => height as int,
            };
            let cap = if height >= MIN_SIZE_CAP { height as int } else { MIN_SIZE_CAP as int };
            r == if want < 1 { 1 } else if want > cap { cap } else { want }
        }),
{
    let want = match requested {
        Some(s) => s,
        None => height,
    };
    let cap = if height >= MIN_SIZE_CAP { height } else { MIN_SIZE_CAP };
    if want < 1 {
        1
    } else if want > cap {
        cap
    } else {
        want
    }
}

} // verus!
