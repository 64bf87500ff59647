use std::cmp::Ordering;
use vstd::prelude::*;

verus! {

/// An ASCII decimal digit.
pub open spec fn is_digit(c: char) -> bool {
    '0' <= c && c <= '9'
}

/// The value of a run of decimal digits, most significant first.
pub open spec fn decimal_value(d: Seq<char>) -> nat
    decreases d.len(),
{
    if d.len() == 0 {
        0
    } else {
        decimal_value(d.drop_last()) * 10 + (d.last() as int - '0' as int) as nat
    }
}

/// What follows an optional leading `+`.
pub open spec fn unsigned_digits(seg: Seq<char>) -> Seq<char> {
    if seg.len() > 0 && seg[0] == '+' {
        seg.drop_first()
    } else {
        seg
    }
}

/// At least one character, and only ASCII digits.
pub open spec fn is_numeral(d: Seq<char>) -> bool {
    d.len() > 0 && forall|i: int| 0 <= i < d.len() ==> is_digit(#[trigger] d[i])
}

/// The numeric value of one version segment: the segment read as a `u32` in
/// decimal (an optional `+`, then ASCII digits), or 0 where it is no such
/// number (a wildcard, text, an empty segment, a value beyond `u32::MAX`).
pub open spec fn segment_value(seg: Seq<char>) -> u32 {
    let d = unsigned_digits(seg);
    if is_numeral(d) && decimal_value(d) <= u32::MAX {
        decimal_value(d) as u32
    } else {
        0
    }
}

/// The segments of a version string, split at every `.`; never empty.
pub open spec fn split_dots(s: Seq<char>) -> Seq<Seq<char>>
    decreases s.len(),
{
    if s.len() == 0 {
        seq![Seq::<char>::empty()]
    } else {
        let prev = split_dots(s.drop_last());
        if s.last() == '.' {
            prev.push(Seq::<char>::empty())
        } else {
            prev.update(prev.len() - 1, prev.last().push(s.last()))
        }
    }
}

/// The numeric values of the segments of a version string.
pub open spec fn version_values(s: Seq<char>) -> Seq<u32> {
    split_dots(s).map_values(|seg: Seq<char>| segment_value(seg))
}

/// Segment by segment, the first difference decides; where one sequence is a
/// prefix of the other, the longer one is greater.
pub open spec fn compare_values(a: Seq<u32>, b: Seq<u32>) -> Ordering
    decreases a.len(),
{
    if a.len() == 0 || b.len() == 0 {
        if a.len() < b.len() {
            Ordering::Less
        } else if a.len() == b.len() {
            Ordering::Equal
        } else {
            Ordering::Greater
        }
    } else if a[0] < b[0] {
        Ordering::Less
    } else if a[0] > b[0] {
        Ordering::Greater
    } else {
        compare_values(a.drop_first(), b.drop_first())
    }
}

/// The order of two dotted version strings.
pub open spec fn compare_spec(a: Seq<char>, b: Seq<char>) -> Ordering {
    compare_values(version_values(a), version_values(b))
}

/// `x` comes before `y` at their first differing position.
pub open spec fn lex_less(x: Seq<u32>, y: Seq<u32>) -> bool {
    exists|k: int|
        0 <= k < x.len() && k < y.len() && #[trigger] x[k] < y[k] && (forall|j: int|
            0 <= j < k ==> x[j] == y[j])
}

proof fn lemma_decimal_step(d: Seq<char>, c: char)
    ensures
        decimal_value(d.push(c)) == decimal_value(d) * 10 + (c as int - '0' as int) as nat,
{
    assert(d.push(c).drop_last() =~= d);
}

/// Reads the segment `s[start..end]` as `segment_value` does.
fn segment_value_of(s: &str, start: usize, end: usize) -> (r: u32)
    requires
        start <= end <= s@.len(),
    ensures
        r == segment_value(s@.subrange(start as int, end as int)),
{
    let ghost seg = s@.subrange(start as int, end as int);
    let mut i: usize = start;
    if i < end && s.get_char(i) == '+' {
        i = i + 1;
    }
    let first = i;
    proof {
        assert(unsigned_digits(seg) =~= s@.subrange(first as int, end as int));
    }
    if i == end {
        return 0;
    }
    let mut acc: u64 = 0;
    let mut fits = true;
    while i < end
        invariant
            first < end,
            first <= i <= end,
            unsigned_digits(s@.subrange(start as int, end as int)) == s@.subrange(
                first as int,
                end as int,
            ),
            end <= s@.len(),
            forall|k: int| first <= k < i ==> is_digit(#[trigger] s@[k]),
            fits ==> acc == decimal_value(s@.subrange(first as int, i as int)) && acc
                <= u32::MAX,
            !fits ==> decimal_value(s@.subrange(first as int, i as int)) > u32::MAX,
        decreases end - i,
    {
        let c = s.get_char(i);
        if !('0' <= c && c <= '9') {
            proof {
                let d = s@.subrange(first as int, end as int);
                assert(d[i - first] == c);
                assert(!is_digit(d[i - first]));
                assert(!is_numeral(d));
            }
            return 0;
        }
        proof {
            lemma_decimal_step(s@.subrange(first as int, i as int), c);
            assert(s@.subrange(first as int, i as int).push(c) =~= s@.subrange(
                first as int,
                i + 1,
            ));
        }
        if fits {
            let next: u64 = acc * 10 + ((c as u32) - ('0' as u32)) as u64;
            if next > u32::MAX as u64 {
                fits = false;
            } else {
                acc = next;
            }
        }
        i = i + 1;
    }
    proof {
        let d = s@.subrange(first as int, end as int);
        assert(is_numeral(d)) by {
            assert forall|k: int| 0 <= k < d.len() implies is_digit(#[trigger] d[k]) by {
                assert(d[k] == s@[first + k]);
            }
        }
    }
    if fits {
        acc as u32
    } else {
        0
    }
}

/// The numeric values of the segments of `s`.
pub fn version_values_of(s: &str) -> (r: Vec<u32>)
    ensures
        r@ == version_values(s@),
{
    let n = s.unicode_len();
    let mut out: Vec<u32> = Vec::new();
    let mut start: usize = 0;
    let mut i: usize = 0;
    while i < n
        invariant
            n == s@.len(),
            start <= i <= n,
            split_dots(s@.subrange(0, i as int)).len() == out@.len() + 1,
            forall|k: int|
                0 <= k < out@.len() ==> out@[k] == segment_value(
                    #[trigger] split_dots(s@.subrange(0, i as int))[k],
                ),
            split_dots(s@.subrange(0, i as int)).last() == s@.subrange(start as int, i as int),
        decreases n - i,
    {
        let c = s.get_char(i);
        proof {
            assert(s@.subrange(0, i + 1).drop_last() =~= s@.subrange(0, i as int));
            assert(s@.subrange(start as int, i + 1) =~= s@.subrange(start as int, i as int).push(
                c,
            ));
        }
        if c == '.' {
            let v = segment_value_of(s, start, i);
            out.push(v);
            start = i + 1;
            proof {
                assert(s@.subrange(start as int, i + 1) =~= Seq::<char>::empty());
            }
        }
        i = i + 1;
    }
    let v = segment_value_of(s, start, n);
    out.push(v);
    proof {
        assert(s@.subrange(0, n as int) =~= s@);
        assert(out@ =~= version_values(s@));
    }
    out
}

/// Orders two dotted version strings: segment by segment by numeric value,
/// where a segment that is no `u32` (a wildcard among them) counts as 0; where
/// all paired segments are equal, the one with more segments is greater.
pub fn compare_versions(a: &str, b: &str) -> (r: Ordering)
    ensures
        r == compare_spec(a@, b@),
{
    let va = version_values_of(a);
    let vb = version_values_of(b);
    let mut i: usize = 0;
    proof {
        assert(va@.skip(0) =~= va@);
        assert(vb@.skip(0) =~= vb@);
    }
    while i < va.len() && i < vb.len()
        invariant
            i <= va@.len(),
            i <= vb@.len(),
            va@ == version_values(a@),
            vb@ == version_values(b@),
            compare_values(va@, vb@) == compare_values(va@.skip(i as int), vb@.skip(i as int)),
        decreases va@.len() - i,
    {
        if va[i] < vb[i] {
            return Ordering::Less;
        }
        if va[i] > vb[i] {
            return Ordering::Greater;
        }
        proof {
            assert(va@.skip(i as int).drop_first() =~= va@.skip(i + 1));
            assert(vb@.skip(i as int).drop_first() =~= vb@.skip(i + 1));
        }
        i = i + 1;
    }
    if va.len() < vb.len() {
        Ordering::Less
    } else if va.len() == vb.len() {
        Ordering::Equal
    } else {
        Ordering::Greater
    }
}

proof fn lemma_values_lex(x: Seq<u32>, y: Seq<u32>)
    requires
        x.len() == y.len(),
    ensures
        (compare_values(x, y) == Ordering::Less) == lex_less(x, y),
        (compare_values(x, y) == Ordering::Greater) == lex_less(y, x),
        (compare_values(x, y) == Ordering::Equal) == (x == y),
    decreases x.len(),
{
    if x.len() == 0 {
        assert(x =~= y);
    } else if x[0] < y[0] {
        assert(lex_less(x, y)) by {
            assert(x[0] < y[0]);
        }
        assert(x != y);
    } else if x[0] > y[0] {
        assert(lex_less(y, x)) by {
            assert(y[0] < x[0]);
        }
        assert(x != y);
    } else {
        let x1 = x.drop_first();
        let y1 = y.drop_first();
        lemma_values_lex(x1, y1);
        assert(lex_less(x, y) == lex_less(x1, y1)) by {
            if lex_less(x, y) {
                let k = choose|k: int|
                    0 <= k < x.len() && k < y.len() && #[trigger] x[k] < y[k] && (forall|j: int|
                        0 <= j < k ==> x[j] == y[j]);
                assert(k != 0);
                assert(x1[k - 1] < y1[k - 1]);
                assert forall|j: int| 0 <= j < k - 1 implies x1[j] == y1[j] by {
                    assert(x[j + 1] == y[j + 1]);
                }
            }
            if lex_less(x1, y1) {
                let k = choose|k: int|
                    0 <= k < x1.len() && k < y1.len() && #[trigger] x1[k] < y1[k] && (forall|
                        j: int,
                    | 0 <= j < k ==> x1[j] == y1[j]);
                assert(x[k + 1] < y[k + 1]);
                assert forall|j: int| 0 <= j < k + 1 implies x[j] == y[j] by {
                    if j > 0 {
                        assert(x1[j - 1] == y1[j - 1]);
                    }
                }
            }
        }
        assert(lex_less(y, x) == lex_less(y1, x1)) by {
            if lex_less(y, x) {
                let k = choose|k: int|
                    0 <= k < y.len() && k < x.len() && #[trigger] y[k] < x[k] && (forall|j: int|
                        0 <= j < k ==> y[j] == x[j]);
                assert(k != 0);
                assert(y1[k - 1] < x1[k - 1]);
                assert forall|j: int| 0 <= j < k - 1 implies y1[j] == x1[j] by {
                    assert(y[j + 1] == x[j + 1]);
                }
            }
            if lex_less(y1, x1) {
                let k = choose|k: int|
                    0 <= k < y1.len() && k < x1.len() && #[trigger] y1[k] < x1[k] && (forall|
                        j: int,
                    | 0 <= j < k ==> y1[j] == x1[j]);
                assert(y[k + 1] < x[k + 1]);
                assert forall|j: int| 0 <= j < k + 1 implies y[j] == x[j] by {
                    if j > 0 {
                        assert(y1[j - 1] == x1[j - 1]);
                    }
                }
            }
        }
        if x1 == y1 {
            assert(x =~= y) by {
                assert forall|j: int| 0 <= j < x.len() implies x[j] == y[j] by {
                    if j > 0 {
                        assert(x1[j - 1] == y1[j - 1]);
                    }
                }
            }
        }
        if x == y {
            assert(x1 =~= y1);
        }
    }
}

/// For two version strings with the same number of segments, the order is the
/// lexicographic order of their segment values: `Less` exactly where `a` is
/// smaller at the first differing segment, `Greater` exactly where `b` is, and
/// `Equal` exactly where all segment values agree.
pub proof fn lemma_compare_lexicographic(a: Seq<char>, b: Seq<char>)
    requires
        split_dots(a).len() == split_dots(b).len(),
    ensures
        (compare_spec(a, b) == Ordering::Less) == lex_less(version_values(a), version_values(b)),
        (compare_spec(a, b) == Ordering::Greater) == lex_less(
            version_values(b),
            version_values(a),
        ),
        (compare_spec(a, b) == Ordering::Equal) == (version_values(a) == version_values(b)),
{
    lemma_values_lex(version_values(a), version_values(b));
}

proof fn lemma_prefix_less(x: Seq<u32>, y: Seq<u32>)
    requires
        x.len() < y.len(),
        x =~= y.subrange(0, x.len() as int),
    ensures
        compare_values(x, y) == Ordering::Less,
    decreases x.len(),
{
    if x.len() > 0 {
        assert(x[0] == y[0]);
        assert(x.drop_first() =~= y.drop_first().subrange(0, x.len() - 1));
        lemma_prefix_less(x.drop_first(), y.drop_first());
    }
}

/// A version whose segment values are a proper prefix of another's is the
/// smaller one: fewer segments lose ties.
pub proof fn lemma_fewer_segments_lose_ties(a: Seq<char>, b: Seq<char>)
    requires
        version_values(a).len() < version_values(b).len(),
        version_values(a) == version_values(b).subrange(0, version_values(a).len() as int),
    ensures
        compare_spec(a, b) == Ordering::Less,
{
    lemma_prefix_less(version_values(a), version_values(b));
}

proof fn lemma_values_antisymmetric(a: Seq<u32>, b: Seq<u32>)
    ensures
        (compare_values(a, b) == Ordering::Less) == (compare_values(b, a) == Ordering::Greater),
        (compare_values(a, b) == Ordering::Equal) == (compare_values(b, a) == Ordering::Equal),
    decreases a.len(),
{
    if a.len() > 0 && b.len() > 0 && a[0] == b[0] {
        lemma_values_antisymmetric(a.drop_first(), b.drop_first());
    }
}

proof fn lemma_values_transitive(a: Seq<u32>, b: Seq<u32>, c: Seq<u32>)
    requires
        compare_values(a, b) != Ordering::Greater,
        compare_values(b, c) != Ordering::Greater,
    ensures
        compare_values(a, c) != Ordering::Greater,
        compare_values(a, b) == Ordering::Less ==> compare_values(a, c) == Ordering::Less,
        compare_values(b, c) == Ordering::Less ==> compare_values(a, c) == Ordering::Less,
    decreases a.len(),
{
    if a.len() > 0 && b.len() > 0 && c.len() > 0 && a[0] == b[0] && b[0] == c[0] {
        lemma_values_transitive(a.drop_first(), b.drop_first(), c.drop_first());
    }
}

/// The order of version strings is a total preorder: swapping the operands
/// swaps `Less` and `Greater`, and it is transitive, strictly so where
/// either step is strict.
pub proof fn lemma_compare_total_preorder(a: Seq<char>, b: Seq<char>, c: Seq<char>)
    ensures
        (compare_spec(a, b) == Ordering::Less) == (compare_spec(b, a) == Ordering::Greater),
        (compare_spec(a, b) == Ordering::Equal) == (compare_spec(b, a) == Ordering::Equal),
        compare_spec(a, b) != Ordering::Greater && compare_spec(b, c) != Ordering::Greater
            ==> compare_spec(a, c) != Ordering::Greater,
        compare_spec(a, b) == Ordering::Less && compare_spec(b, c) != Ordering::Greater
            ==> compare_spec(a, c) == Ordering::Less,
        compare_spec(a, b) != Ordering::Greater && compare_spec(b, c) == Ordering::Less
            ==> compare_spec(a, c) == Ordering::Less,
{
    lemma_values_antisymmetric(version_values(a), version_values(b));
    if compare_spec(a, b) != Ordering::Greater && compare_spec(b, c) != Ordering::Greater {
        lemma_values_transitive(version_values(a), version_values(b), version_values(c));
    }
}

/// A runtime version that an application declares it was checked with, with
/// the commands that go with that runtime.
#[derive(Debug, Clone)]
pub struct NWJS {
    pub nwjs_version: String,
    pub especific_nwjs_commands: Vec<String>,
}

impl NWJS {
    /// The order of the two declared versions, as `compare_versions` gives it.
    pub fn compare(&self, other: &Self) -> (r: Ordering)
        ensures
            r == compare_spec(self.nwjs_version@, other.nwjs_version@),
    {
        compare_versions(self.nwjs_version.as_str(), other.nwjs_version.as_str())
    }
}

impl Default for NWJS {
    /// Any version at all: `*.*.*`, with no commands.
    fn default() -> (r: Self)
        ensures
            r.nwjs_version@ == "*.*.*"@,
            r.especific_nwjs_commands@.len() == 0,
    {
        NWJS { nwjs_version: String::from_str("*.*.*"), especific_nwjs_commands: Vec::new() }
    }
}

impl PartialEq for NWJS {
    /// Two declarations are equal where their version strings are.
    fn eq(&self, other: &NWJS) -> (r: bool) {
        self.nwjs_version == other.nwjs_version
    }
}

impl vstd::std_specs::cmp::PartialEqSpecImpl for NWJS {
    open spec fn obeys_eq_spec() -> bool {
        true
    }

    open spec fn eq_spec(&self, other: &NWJS) -> bool {
        self.nwjs_version@ == other.nwjs_version@
    }
}

impl Eq for NWJS {

}

impl PartialOrd for NWJS {
    fn partial_cmp(&self, other: &NWJS) -> (r: Option<Ordering>) {
        Some(self.compare(other))
    }
}

impl vstd::std_specs::cmp::PartialOrdSpecImpl for NWJS {
    open spec fn obeys_partial_cmp_spec() -> bool {
        true
    }

    open spec fn partial_cmp_spec(&self, other: &NWJS) -> Option<Ordering> {
        Some(compare_spec(self.nwjs_version@, other.nwjs_version@))
    }
}

} // verus!
