use vstd::prelude::*;

use crate::utils::{after_last, last_segment};

verus! {

/// The content type served for a file extension.
pub open spec fn content_type_of(ext: Seq<char>) -> Seq<char> {
    if ext == "css"@ {
        "text/css"@
    } else if ext == "svg"@ {
        "image/svg+xml"@
    } else if ext == "woff2"@ {
        "font/woff2"@
    } else if ext == "json"@ {
        "application/json"@
    } else {
        "text/plain"@
    }
}

/// The content type of a static file, chosen by its extension.
pub fn content_type(path: &str) -> (r: &'static str)
    ensures
        r@ == content_type_of(after_last(path@, '.')),
{
    let ext = String::from_str(last_segment(path, '.'));
    if ext == String::from_str("css") {
        "text/css"
    } else if ext == String::from_str("svg") {
        "image/svg+xml"
    } else if ext == String::from_str("woff2") {
        "font/woff2"
    } else if ext == String::from_str("json") {
        "application/json"
    } else {
        "text/plain"
    }
}

} // verus!
