//! The headers that every answer carries to guard the caller's browser.

use vstd::prelude::*;

verus! {

/// The headers as names and values, in the order in which they are set.
pub open spec fn security_header_table() -> Seq<(Seq<char>, Seq<char>)> {
    seq![
        ("X-Content-Type-Options"@, "nosniff"@),
        ("X-Frame-Options"@, "DENY"@),
        ("Strict-Transport-Security"@, "max-age=31536000; includeSubDomains"@),
        ("X-XSS-Protection"@, "1; mode=block"@),
    ]
}

/// The headers that are set on every answer:
///
/// - `X-Content-Type-Options: nosniff` keeps the browser from guessing the
///   type of the content
/// - `X-Frame-Options: DENY` forbids showing the answer inside a frame
/// - `Strict-Transport-Security` asks for HTTPS for a year, subdomains
///   included
/// - `X-XSS-Protection: 1; mode=block` switches on the filter of older
///   browsers
pub fn security_headers() -> (r: Vec<(&'static str, &'static str)>)
    ensures
        r@.len() == security_header_table().len(),
        forall|i: int|
            0 <= i < r@.len() ==> (#[trigger] r@[i]).0@ == security_header_table()[i].0
                && r@[i].1@ == security_header_table()[i].1,
{
    let mut v: Vec<(&'static str, &'static str)> = Vec::new();
    v.push(("X-Content-Type-Options", "nosniff"));
    v.push(("X-Frame-Options", "DENY"));
    v.push(("Strict-Transport-Security", "max-age=31536000; includeSubDomains"));
    v.push(("X-XSS-Protection", "1; mode=block"));
    v
}

} // verus!
