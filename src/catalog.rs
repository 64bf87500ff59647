use crate::errors::Errors;
use crate::text::texts;
use crate::version::NWJS;
use vstd::prelude::*;

verus! {

/// Whether the `regex` crate accepts `pattern`.
pub uninterp spec fn pattern_accepted(pattern: Seq<char>) -> bool;

/// The successive non-overlapping matches of `pattern` in `hay`, leftmost first.
pub uninterp spec fn pattern_matches(pattern: Seq<char>, hay: Seq<char>) -> Seq<Seq<char>>;

/// Relies on `regex::Regex::new`, which accepts or refuses a pattern by the
/// pattern alone, and on `regex::Regex::find_iter`, which yields the
/// successive non-overlapping matches in the haystack, in order.
#[verifier::external_body]
fn find_matches(pattern: &str, hay: &str) -> (r: Result<Vec<String>, regex::Error>)
    ensures
        r is Ok == pattern_accepted(pattern@),
        r is Ok ==> texts(r->Ok_0@) == pattern_matches(pattern@, hay@),
{
    let re = regex::Regex::new(pattern)?;
    Ok(re.find_iter(hay).map(|m| m.as_str().to_string()).collect())
}

/// The pattern text for one character of a version: a `.` stands for itself,
/// a `*` for any run of digits.
pub open spec fn escape_char(c: char) -> Seq<char> {
    if c == '.' {
        "\\."@
    } else if c == '*' {
        "\\d+"@
    } else {
        seq![c]
    }
}

/// The pattern text for a version, character by character.
pub open spec fn escape_version(v: Seq<char>) -> Seq<char>
    decreases v.len(),
{
    if v.len() == 0 {
        v
    } else {
        escape_version(v.drop_last()) + escape_char(v.last())
    }
}

/// The pattern that finds the catalog's directory entries `v<version>/` that
/// match a declared version.
pub open spec fn catalog_pattern(v: Seq<char>) -> Seq<char> {
    "v"@ + escape_version(v) + "/"@
}

/// The characters of `s` but `/`.
pub open spec fn without_slashes(s: Seq<char>) -> Seq<char> {
    s.filter(|c: char| c != '/')
}

/// The version that a catalog entry names: the entry without its leading `v`
/// and without `/`.
pub open spec fn entry_version(m: Seq<char>) -> Seq<char> {
    if m.len() > 0 && m[0] == 'v' {
        without_slashes(m.drop_first())
    } else {
        without_slashes(m)
    }
}

/// The version that a list of catalog entries resolves to: that of the last.
pub open spec fn latest_entry(entries: Seq<Seq<char>>) -> Option<Seq<char>> {
    if entries.len() == 0 {
        None
    } else {
        Some(entry_version(entries.last()))
    }
}

/// Builds the search pattern for a declared version.
pub fn version_pattern(v: &str) -> (r: String)
    ensures
        r@ == catalog_pattern(v@),
{
    let n = v.unicode_len();
    let mut out = String::from_str("v");
    let mut i: usize = 0;
    while i < n
        invariant
            n == v@.len(),
            i <= n,
            out@ == "v"@ + escape_version(v@.subrange(0, i as int)),
        decreases n - i,
    {
        let c = v.get_char(i);
        proof {
            assert(v@.subrange(0, i + 1).drop_last() =~= v@.subrange(0, i as int));
        }
        if c == '.' {
            out.append("\\.");
        } else if c == '*' {
            out.append("\\d+");
        } else {
            let one = v.substring_char(i, i + 1);
            proof {
                assert(one@ =~= seq![c]);
            }
            out.append(one);
        }
        proof {
            assert(out@ =~= "v"@ + escape_version(v@.subrange(0, i + 1)));
        }
        i = i + 1;
    }
    out.append("/");
    proof {
        assert(v@.subrange(0, n as int) =~= v@);
    }
    out
}

/// The version that a catalog entry names, as `entry_version` gives it.
pub fn entry_version_of(m: &str) -> (r: String)
    ensures
        r@ == entry_version(m@),
{
    let n = m.unicode_len();
    let mut i: usize = 0;
    if n > 0 && m.get_char(0) == 'v' {
        i = 1;
    }
    let start = i;
    let ghost body = m@.subrange(start as int, n as int);
    proof {
        assert(body =~= if m@.len() > 0 && m@[0] == 'v' {
            m@.drop_first()
        } else {
            m@
        });
    }
    let mut out = String::new();
    while i < n
        invariant
            n == m@.len(),
            start <= i <= n,
            body == m@.subrange(start as int, n as int),
            out@ == without_slashes(m@.subrange(start as int, i as int)),
        decreases n - i,
    {
        let c = m.get_char(i);
        proof {
            let pre = m@.subrange(start as int, i + 1);
            assert(pre =~= m@.subrange(start as int, i as int).push(c));
            reveal_with_fuel(Seq::filter, 1);
            assert(pre.drop_last() =~= m@.subrange(start as int, i as int));
        }
        if c != '/' {
            let one = m.substring_char(i, i + 1);
            proof {
                assert(one@ =~= seq![c]);
            }
            out.append(one);
        }
        proof {
            assert(out@ =~= without_slashes(m@.subrange(start as int, i + 1)));
        }
        i = i + 1;
    }
    out
}

/// Picks the resolved version out of the catalog entries that matched, taken
/// in the catalog's order: the last entry wins; none at all is `Unknown`.
pub fn latest_match(entries: &Vec<String>) -> (r: Result<String, Errors>)
    ensures
        match latest_entry(texts(entries@)) {
            Some(v) => r is Ok && r->Ok_0@ == v,
            None => r is Err && r->Err_0 is Unknown,
        },
{
    let n = entries.len();
    if n == 0 {
        return Err(Errors::Unknown);
    }
    Ok(entry_version_of(entries[n - 1].as_str()))
}

/// What resolving `version` against the catalog text gives: `None` where the
/// pattern is refused, else the latest matching entry, if any.
pub open spec fn resolve_spec(version: Seq<char>, catalog: Seq<char>) -> Option<Option<Seq<char>>> {
    let p = catalog_pattern(version);
    if pattern_accepted(p) {
        Some(latest_entry(pattern_matches(p, catalog)))
    } else {
        None
    }
}

impl NWJS {
    /// Resolves the declared version against the text of the runtime catalog:
    /// the last entry `v<version>/` of the catalog that matches it, where a
    /// `*` segment matches any run of digits.
    pub fn get_version(&self, catalog: &str) -> (r: Result<String, Errors>)
        ensures
            match resolve_spec(self.nwjs_version@, catalog@) {
                None => r is Err && r->Err_0 is InvalidNWJSVersion,
                Some(None) => r is Err && r->Err_0 is Unknown,
                Some(Some(v)) => r is Ok && r->Ok_0@ == v,
            },
    {
        let pattern = version_pattern(self.nwjs_version.as_str());
        match find_matches(pattern.as_str(), catalog) {
            Ok(entries) => latest_match(&entries),
            Err(e) => Err(Errors::InvalidNWJSVersion(e)),
        }
    }
}

} // verus!
