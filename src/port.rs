use crate::cache::{acquires, AcquirePlan, RuntimeCache};
use vstd::prelude::*;

verus! {

/// A white-space character: ASCII tab to carriage return and space, and the
/// other characters of Unicode's `White_Space` property.
pub open spec fn white_space(c: char) -> bool {
    ('\u{9}' <= c && c <= '\u{d}') || c == ' ' || c == '\u{85}' || c == '\u{a0}' || c
        == '\u{1680}' || ('\u{2000}' <= c && c <= '\u{200a}') || c == '\u{2028}' || c
        == '\u{2029}' || c == '\u{202f}' || c == '\u{205f}' || c == '\u{3000}'
}

/// Nothing but white space.
pub open spec fn is_blank(s: Seq<char>) -> bool {
    forall|i: int| 0 <= i < s.len() ==> white_space(#[trigger] s[i])
}

/// The name given to an application whose manifest names none.
pub open spec fn fallback_name() -> Seq<char> {
    "asd"@
}

/// Whether `c` is white space, as `char::is_whitespace` has it.
pub fn is_white_space(c: char) -> (r: bool)
    ensures
        r == white_space(c),
{
    ('\u{9}' <= c && c <= '\u{d}') || c == ' ' || c == '\u{85}' || c == '\u{a0}' || c
        == '\u{1680}' || ('\u{2000}' <= c && c <= '\u{200a}') || c == '\u{2028}' || c
        == '\u{2029}' || c == '\u{202f}' || c == '\u{205f}' || c == '\u{3000}'
}

/// Whether `s` holds nothing but white space.
pub fn blank(s: &str) -> (r: bool)
    ensures
        r == is_blank(s@),
{
    let n = s.unicode_len();
    let mut i: usize = 0;
    while i < n
        invariant
            n == s@.len(),
            i <= n,
            forall|k: int| 0 <= k < i ==> white_space(#[trigger] s@[k]),
        decreases n - i,
    {
        if !is_white_space(s.get_char(i)) {
            return false;
        }
        i = i + 1;
    }
    true
}

/// What porting an application takes.
pub struct PortPlan {
    /// The name to write into the application's manifest, where it names none.
    pub new_name: Option<String>,
    /// How to acquire the runtime to overlay onto the application.
    pub runtime: AcquirePlan,
}

/// Decides how to port an application whose manifest gives `package_name`:
/// a blank name is replaced, and the runtime of `version` and variant `sdk`
/// is acquired through `cache`.
pub fn port(package_name: &str, cache: &mut RuntimeCache, version: &str, sdk: bool) -> (r:
    PortPlan)
    ensures
        (r.new_name is Some) == is_blank(package_name@),
        r.new_name is Some ==> r.new_name->Some_0@ == fallback_name(),
        acquires(*old(cache), *final(cache), r.runtime, version@, sdk),
{
    let new_name = if blank(package_name) {
        Some(String::from_str("asd"))
    } else {
        None
    };
    let runtime = cache.acquire(version, sdk);
    PortPlan { new_name, runtime }
}

} // verus!
