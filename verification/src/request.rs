//! The method dispatch of the generic HTTP request command: a method name
//! is accepted case-insensitively and anything else is rejected.

use vstd::prelude::*;
use vstd::string::StrSliceExecFns;

verus! {

/// The HTTP methods the request proxy supports.
#[derive(Clone, Copy, PartialEq, Eq, Structural, Debug)]
pub enum HttpMethod {
    Get,
    Post,
    Put,
    Delete,
}

/// The character `c` reads as the upper-case character `u`, mapping ASCII
/// letters only.
pub open spec fn reads_as_upper(c: char, u: char) -> bool {
    c == u || (97 <= (c as u32) <= 122 && (c as u32) - 32 == (u as u32))
}

/// The text spells `upper` when its ASCII letters are read without case.
pub open spec fn spells_upper(s: Seq<char>, upper: Seq<char>) -> bool {
    s.len() == upper.len() && (forall|i: int| 0 <= i < s.len() ==> reads_as_upper(s[i], upper[i]))
}

/// The method a name denotes, read case-insensitively over ASCII.
pub open spec fn method_of(s: Seq<char>) -> Option<HttpMethod> {
    if spells_upper(s, "GET"@) {
        Some(HttpMethod::Get)
    } else if spells_upper(s, "POST"@) {
        Some(HttpMethod::Post)
    } else if spells_upper(s, "PUT"@) {
        Some(HttpMethod::Put)
    } else if spells_upper(s, "DELETE"@) {
        Some(HttpMethod::Delete)
    } else {
        None
    }
}

/// Whether `s` spells the upper-case name `upper` when read without ASCII
/// case.
fn matches_upper(s: &str, upper: &str) -> (b: bool)
    ensures
        b == spells_upper(s@, upper@),
{
    let n = s.unicode_len();
    if n != upper.unicode_len() {
        return false;
    }
    let mut i: usize = 0;
    while i < n
        invariant
            n == s@.len(),
            n == upper@.len(),
            0 <= i <= n,
            forall|k: int| 0 <= k < i ==> reads_as_upper(s@[k], upper@[k]),
        decreases n - i,
    {
        let c = s.get_char(i);
        let u = upper.get_char(i);
        let cu = c as u32;
        let uu = u as u32;
        if !(c == u || (97 <= cu && cu <= 122 && cu - 32 == uu)) {
            return false;
        }
        i += 1;
    }
    true
}

/// Read a method name, accepting any ASCII casing of the supported
/// methods and rejecting everything else.
pub fn parse_http_method(s: &str) -> (r: Option<HttpMethod>)
    ensures
        r == method_of(s@),
{
    if matches_upper(s, "GET") {
        Some(HttpMethod::Get)
    } else if matches_upper(s, "POST") {
        Some(HttpMethod::Post)
    } else if matches_upper(s, "PUT") {
        Some(HttpMethod::Put)
    } else if matches_upper(s, "DELETE") {
        Some(HttpMethod::Delete)
    } else {
        None
    }
}

} // verus!
