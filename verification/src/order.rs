//! The order in which texts are compared: character by character, a proper
//! prefix before its extensions. This is the order of `str` itself.

use vstd::prelude::*;

verus! {

/// The two texts agree on their first `k` characters.
pub open spec fn common_prefix(a: Seq<char>, b: Seq<char>, k: int) -> bool {
    &&& 0 <= k <= a.len()
    &&& k <= b.len()
    &&& forall|j: int| 0 <= j < k ==> a[j] == b[j]
}

/// The texts agree up to position `k`, where `a` ends or has the smaller
/// character.
pub open spec fn precedes_at(a: Seq<char>, b: Seq<char>, k: int) -> bool {
    &&& common_prefix(a, b, k)
    &&& k < b.len()
    &&& (k == a.len() || a[k] < b[k])
}

/// `a` comes strictly before `b`.
pub open spec fn precedes(a: Seq<char>, b: Seq<char>) -> bool {
    exists|k: int| precedes_at(a, b, k)
}

/// No text comes before itself, and no two texts come before each other.
pub proof fn lemma_precedes_asymmetric(a: Seq<char>, b: Seq<char>)
    ensures
        !(precedes(a, b) && precedes(b, a)),
        !precedes(a, a),
{
    if precedes(a, b) && precedes(b, a) {
        let k = choose|k: int| precedes_at(a, b, k);
        let m = choose|m: int| precedes_at(b, a, m);
        if k < m {
            assert(b[k] == a[k]);
        } else if m < k {
            assert(a[m] == b[m]);
        }
    }
    if precedes(a, a) {
        let k = choose|k: int| precedes_at(a, a, k);
    }
}

/// What comes before a text also comes before everything after that text.
pub proof fn lemma_precedes_transitive(a: Seq<char>, b: Seq<char>, c: Seq<char>)
    requires
        precedes(a, b),
        precedes(b, c),
    ensures
        precedes(a, c),
{
    let k = choose|k: int| precedes_at(a, b, k);
    let m = choose|m: int| precedes_at(b, c, m);
    let n = if k <= m {
        k
    } else {
        m
    };
    assert forall|j: int| 0 <= j < n implies a[j] == c[j] by {
        assert(a[j] == b[j]);
        assert(b[j] == c[j]);
    }
    if k < m {
        assert(b[k] == c[k]);
    } else if m < k {
        assert(a[m] == b[m]);
    }
    assert(precedes_at(a, c, n));
}

/// Of two different texts one comes before the other.
pub proof fn lemma_precedes_total(a: Seq<char>, b: Seq<char>)
    ensures
        a == b || precedes(a, b) || precedes(b, a),
{
    lemma_precedes_total_from(a, b, 0);
}

proof fn lemma_precedes_total_from(a: Seq<char>, b: Seq<char>, k: int)
    requires
        common_prefix(a, b, k),
    ensures
        a == b || precedes(a, b) || precedes(b, a),
    decreases a.len() - k,
{
    if k == a.len() {
        if k == b.len() {
            assert(a =~= b);
        } else {
            assert(precedes_at(a, b, k));
        }
    } else if k == b.len() {
        assert(common_prefix(b, a, k));
        assert(precedes_at(b, a, k));
    } else if a[k] == b[k] {
        lemma_precedes_total_from(a, b, k + 1);
    } else {
        if a[k] < b[k] {
            assert(precedes_at(a, b, k));
        } else {
            assert(common_prefix(b, a, k));
            assert(precedes_at(b, a, k));
        }
    }
}

/// Whether `a` comes strictly before `b`.
pub fn chars_precede(a: &Vec<char>, b: &Vec<char>) -> (r: bool)
    ensures
        r == precedes(a@, b@),
{
    let mut i: usize = 0;
    while i < a.len() && i < b.len()
        invariant
            common_prefix(a@, b@, i as int),
        decreases a.len() - i,
    {
        if a[i] != b[i] {
            let r = a[i] < b[i];
            proof {
                if r {
                    assert(precedes_at(a@, b@, i as int));
                } else {
                    assert(common_prefix(b@, a@, i as int));
                    assert(precedes_at(b@, a@, i as int));
                    lemma_precedes_asymmetric(a@, b@);
                }
            }
            return r;
        }
        i += 1;
    }
    proof {
        if i < b.len() {
            assert(precedes_at(a@, b@, i as int));
        } else {
            if a.len() == b.len() {
                assert(a@ =~= b@);
                lemma_precedes_asymmetric(a@, b@);
            } else {
                assert(common_prefix(b@, a@, i as int));
                assert(precedes_at(b@, a@, i as int));
                lemma_precedes_asymmetric(a@, b@);
            }
        }
    }
    i < b.len()
}

} // verus!
