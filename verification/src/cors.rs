//! The cross-origin headers every response carries.
use vstd::prelude::*;

verus! {

/// The headers (name, value) that allow any origin to call the API: on every
/// response the allowed origin, methods and request headers, and on a
/// preflight answer also how long it may be cached (one day).
pub open spec fn cors_header_list(preflight: bool) -> Seq<(Seq<char>, Seq<char>)> {
    let base = seq![
        ("Access-Control-Allow-Origin"@, "*"@),
        ("Access-Control-Allow-Methods"@, "GET,POST,OPTIONS"@),
        ("Access-Control-Allow-Headers"@, "Content-Type,Authorization"@),
    ];
    if preflight {
        base.push(("Access-Control-Max-Age"@, "86400"@))
    } else {
        base
    }
}

/// The cross-origin headers to set, for a preflight answer or any other response.
pub fn cors_headers(preflight: bool) -> (h: Vec<(String, String)>)
    ensures
        h@.len() == cors_header_list(preflight).len(),
        forall|k: int| 0 <= k < h@.len() ==> (#[trigger] h@[k]).0@ == cors_header_list(preflight)[k].0
            && h@[k].1@ == cors_header_list(preflight)[k].1,
{
    let mut h: Vec<(String, String)> = Vec::new();
    h.push(("Access-Control-Allow-Origin".to_owned(), "*".to_owned()));
    h.push(("Access-Control-Allow-Methods".to_owned(), "GET,POST,OPTIONS".to_owned()));
    h.push(("Access-Control-Allow-Headers".to_owned(), "Content-Type,Authorization".to_owned()));
    if preflight {
        h.push(("Access-Control-Max-Age".to_owned(), "86400".to_owned()));
    }
    h
}

} // verus!
