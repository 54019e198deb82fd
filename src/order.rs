use vstd::prelude::*;

verus! {

/// `a` and `b` agree on their first `n` characters.
pub open spec fn agree_upto(a: Seq<char>, b: Seq<char>, n: int) -> bool {
    &&& 0 <= n <= a.len()
    &&& n <= b.len()
    &&& forall|j: int| 0 <= j < n ==> a[j] == b[j]
}

/// `a` comes strictly before `b` in lexicographic order, with `n` the length of
/// their common prefix.
pub open spec fn lex_lt_at(a: Seq<char>, b: Seq<char>, n: int) -> bool {
    &&& agree_upto(a, b, n)
    &&& n < b.len()
    &&& (n == a.len() || a[n] < b[n])
}

/// Strict lexicographic order on character sequences, the order of `str`.
pub open spec fn lex_lt(a: Seq<char>, b: Seq<char>) -> bool {
    exists|n: int| lex_lt_at(a, b, n)
}

/// Every earlier entry is strictly below every later one: sorted, without repeats.
pub open spec fn strictly_sorted(s: Seq<Seq<char>>) -> bool {
    forall|i: int, j: int| 0 <= i < j < s.len() ==> lex_lt(#[trigger] s[i], #[trigger] s[j])
}

pub proof fn lemma_lex_lt_irreflexive(a: Seq<char>)
    ensures
        !lex_lt(a, a),
{
}

pub proof fn lemma_lex_lt_transitive(a: Seq<char>, b: Seq<char>, c: Seq<char>)
    requires
        lex_lt(a, b),
        lex_lt(b, c),
    ensures
        lex_lt(a, c),
{
    let i = choose|n: int| lex_lt_at(a, b, n);
    let k = choose|n: int| lex_lt_at(b, c, n);
    if i <= k {
        assert(lex_lt_at(a, c, i));
    } else {
        assert(lex_lt_at(a, c, k));
    }
}

/// Compares `a` with the first `k` characters of `b`.
pub fn compare_with_prefix(a: &Vec<char>, b: &Vec<char>, k: usize) -> (r: core::cmp::Ordering)
    requires
        k <= b.len(),
    ensures
        r == core::cmp::Ordering::Less <==> lex_lt(a@, b@.take(k as int)),
        r == core::cmp::Ordering::Equal <==> a@ == b@.take(k as int),
        r == core::cmp::Ordering::Greater <==> lex_lt(b@.take(k as int), a@),
{
    let ghost t = b@.take(k as int);
    let n = if a.len() < k { a.len() } else { k };
    let mut i: usize = 0;
    while i < n
        invariant
            n <= a.len(),
            n <= k <= b.len(),
            n == a.len() || n == k,
            t == b@.take(k as int),
            i <= n,
            agree_upto(a@, t, i as int),
        decreases n - i,
    {
        let x = a[i];
        let y = b[i];
        if x < y {
            assert(lex_lt_at(a@, t, i as int));
            proof {
                lemma_lex_lt_irreflexive(a@);
                lemma_lex_lt_order_asym(a@, t);
            }
            return core::cmp::Ordering::Less;
        }
        if y < x {
            assert(lex_lt_at(t, a@, i as int));
            proof {
                lemma_lex_lt_order_asym(t, a@);
            }
            return core::cmp::Ordering::Greater;
        }
        i = i + 1;
    }
    if a.len() < k {
        assert(lex_lt_at(a@, t, n as int));
        proof {
            lemma_lex_lt_order_asym(a@, t);
        }
        core::cmp::Ordering::Less
    } else if k < a.len() {
        assert(lex_lt_at(t, a@, n as int));
        proof {
            lemma_lex_lt_order_asym(t, a@);
        }
        core::cmp::Ordering::Greater
    } else {
        assert(a@ =~= t);
        proof {
            lemma_lex_lt_irreflexive(a@);
        }
        core::cmp::Ordering::Equal
    }
}

/// Of two sequences in order, neither equals the other nor comes first.
pub proof fn lemma_lex_lt_order_asym(a: Seq<char>, b: Seq<char>)
    requires
        lex_lt(a, b),
    ensures
        a != b,
        !lex_lt(b, a),
{
    lemma_lex_lt_irreflexive(a);
    if lex_lt(b, a) {
        lemma_lex_lt_transitive(a, b, a);
    }
}

} // verus!
