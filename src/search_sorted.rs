use vstd::prelude::*;
use crate::order::{compare_with_prefix, lemma_lex_lt_order_asym, lemma_lex_lt_transitive, lex_lt, strictly_sorted};

verus! {

/// The character sequences held by a vector of character vectors.
pub open spec fn views(s: Seq<Vec<char>>) -> Seq<Seq<char>> {
    s.map_values(|v: Vec<char>| v@)
}

/// Binary search of the first `k` characters of `t` in a strictly sorted vector.
/// Returns whether it is present and where it stands or would stand.
pub fn find_sorted(s: &Vec<Vec<char>>, t: &Vec<char>, k: usize) -> (r: (bool, usize))
    requires
        strictly_sorted(views(s@)),
        k <= t.len(),
    ensures
        r.0 <==> exists|i: int| 0 <= i < s.len() && #[trigger] s@[i]@ == t@.take(k as int),
        r.0 ==> r.1 < s.len() && s@[r.1 as int]@ == t@.take(k as int),
        !r.0 ==> r.1 <= s.len(),
        !r.0 ==> forall|i: int| 0 <= i < r.1 ==> lex_lt(#[trigger] s@[i]@, t@.take(k as int)),
        !r.0 ==> forall|i: int| r.1 <= i < s.len() ==> lex_lt(t@.take(k as int), #[trigger] s@[i]@),
{
    let ghost key = t@.take(k as int);
    let ghost vs = views(s@);
    let mut lo: usize = 0;
    let mut hi: usize = s.len();
    while lo < hi
        invariant
            key == t@.take(k as int),
            vs == views(s@),
            strictly_sorted(vs),
            k <= t.len(),
            lo <= hi <= s.len(),
            forall|i: int| 0 <= i < lo ==> lex_lt(#[trigger] s@[i]@, key),
            forall|i: int| hi <= i < s.len() ==> lex_lt(key, #[trigger] s@[i]@),
        decreases hi - lo,
    {
        let mid = lo + (hi - lo) / 2;
        let c = compare_with_prefix(&s[mid], t, k);
        assert(vs[mid as int] == s@[mid as int]@);
        match c {
            core::cmp::Ordering::Equal => {
                return (true, mid);
            },
            core::cmp::Ordering::Less => {
                assert forall|i: int| 0 <= i < mid + 1 implies lex_lt(#[trigger] s@[i]@, key) by {
                    if i < mid {
                        assert(vs[i] == s@[i]@);
                        assert(lex_lt(vs[i], vs[mid as int]));
                        lemma_lex_lt_transitive(s@[i]@, s@[mid as int]@, key);
                    }
                }
                lo = mid + 1;
            },
            core::cmp::Ordering::Greater => {
                assert forall|i: int| mid <= i < s.len() implies lex_lt(key, #[trigger] s@[i]@) by {
                    if i > mid {
                        assert(vs[i] == s@[i]@);
                        assert(lex_lt(vs[mid as int], vs[i]));
                        lemma_lex_lt_transitive(key, s@[mid as int]@, s@[i]@);
                    }
                }
                hi = mid;
            },
        }
    }
    assert forall|i: int| 0 <= i < s.len() implies #[trigger] s@[i]@ != key by {
        if i < lo {
            lemma_lex_lt_order_asym(s@[i]@, key);
        } else {
            lemma_lex_lt_order_asym(key, s@[i]@);
        }
    }
    (false, lo)
}

} // verus!
