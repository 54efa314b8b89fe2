//! The distinct strings of a list, in ascending order.

use vstd::prelude::*;
use crate::merkle::texts;
use crate::order::{
    lemma_text_le_antisymmetric, lemma_text_le_total, lemma_text_le_transitive, str_eq, str_le, text_le, text_lt,
};

verus! {

/// Whether each string comes strictly before the next: the strings are in
/// ascending order and none occurs twice.
pub open spec fn strictly_ascending(ids: Seq<Seq<char>>) -> bool {
    forall|i: int, j: int| 0 <= i < j < ids.len() ==> text_lt(#[trigger] ids[i], #[trigger] ids[j])
}

/// Whether two lists hold the same strings, however often and in whatever
/// order.
pub open spec fn same_elements(a: Seq<Seq<char>>, b: Seq<Seq<char>>) -> bool {
    forall|x: Seq<char>| a.contains(x) <==> b.contains(x)
}

/// Whether `sorted` is the list of the distinct strings of `ids` in ascending
/// order. There is one such list for every `ids`.
pub open spec fn is_sorted_set_of(sorted: Seq<Seq<char>>, ids: Seq<Seq<char>>) -> bool {
    strictly_ascending(sorted) && same_elements(sorted, ids)
}

/// Coming strictly before is transitive.
pub proof fn lemma_text_lt_transitive(a: Seq<char>, b: Seq<char>, c: Seq<char>)
    requires
        text_lt(a, b),
        text_le(b, c),
    ensures
        text_lt(a, c),
{
    lemma_text_le_transitive(a, b, c);
    if a == c {
        lemma_text_le_antisymmetric(a, b);
    }
}

/// Two ascending lists without repetition that hold the same strings are the
/// same list.
pub proof fn lemma_sorted_set_unique(a: Seq<Seq<char>>, b: Seq<Seq<char>>)
    requires
        strictly_ascending(a),
        strictly_ascending(b),
        same_elements(a, b),
    ensures
        a == b,
    decreases a.len(),
{
    if a.len() == 0 {
        if b.len() > 0 {
            assert(b.contains(b[0]));
        }
        assert(a =~= b);
    } else if b.len() == 0 {
        assert(a.contains(a[0]));
    } else {
        // The last elements are both the greatest string.
        let x = a.last();
        let y = b.last();
        assert(a.contains(x));
        assert(b.contains(y));
        let i = choose|i: int| 0 <= i < b.len() && b[i] == x;
        let j = choose|j: int| 0 <= j < a.len() && a[j] == y;
        if x != y {
            assert(text_lt(b[i], y));
            assert(text_lt(a[j], x));
            lemma_text_le_antisymmetric(x, y);
        }
        let a0 = a.drop_last();
        let b0 = b.drop_last();
        assert forall|z: Seq<char>| a0.contains(z) <==> b0.contains(z) by {
            if a0.contains(z) {
                let k = choose|k: int| 0 <= k < a0.len() && a0[k] == z;
                assert(a[k] == z);
                assert(text_lt(a[k], x));
                assert(a.contains(z));
                let m = choose|m: int| 0 <= m < b.len() && b[m] == z;
                assert(m < b.len() - 1);
                assert(b0[m] == z);
            }
            if b0.contains(z) {
                let k = choose|k: int| 0 <= k < b0.len() && b0[k] == z;
                assert(b[k] == z);
                assert(text_lt(b[k], y));
                assert(b.contains(z));
                let m = choose|m: int| 0 <= m < a.len() && a[m] == z;
                assert(m < a.len() - 1);
                assert(a0[m] == z);
            }
        }
        assert(strictly_ascending(a0)) by {
            assert forall|p: int, q: int| 0 <= p < q < a0.len() implies text_lt(#[trigger] a0[p], #[trigger] a0[q]) by {
                assert(text_lt(a[p], a[q]));
            }
        }
        assert(strictly_ascending(b0)) by {
            assert forall|p: int, q: int| 0 <= p < q < b0.len() implies text_lt(#[trigger] b0[p], #[trigger] b0[q]) by {
                assert(text_lt(b[p], b[q]));
            }
        }
        lemma_sorted_set_unique(a0, b0);
        assert(a =~= a0.push(x));
        assert(b =~= b0.push(y));
    }
}

/// The distinct strings of `ids` in ascending order.
pub fn sorted_set(ids: &Vec<String>) -> (sorted: Vec<String>)
    ensures
        is_sorted_set_of(texts(sorted@), texts(ids@)),
{
    let mut sorted: Vec<String> = Vec::new();
    let mut i: usize = 0;
    while i < ids.len()
        invariant
            i <= ids.len(),
            strictly_ascending(texts(sorted@)),
            same_elements(texts(sorted@), texts(ids@).take(i as int)),
        decreases ids.len() - i,
    {
        let id = &ids[i];
        let ghost before = texts(sorted@);
        let ghost seen = texts(ids@).take(i as int);
        let ghost seen_next = texts(ids@).take(i + 1);
        let mut j: usize = 0;
        while j < sorted.len() && str_le(sorted[j].as_str(), id.as_str()) && !str_eq(sorted[j].as_str(), id.as_str())
            invariant
                j <= sorted.len(),
                before == texts(sorted@),
                forall|k: int| 0 <= k < j ==> text_lt(#[trigger] before[k], id@),
            decreases sorted.len() - j,
        {
            assert(before[j as int] == sorted@[j as int]@);
            j += 1;
        }
        proof {
            assert(seen_next =~= seen.push(id@));
            if j < sorted.len() {
                assert(before[j as int] == sorted@[j as int]@);
            }
        }
        if j < sorted.len() && str_eq(sorted[j].as_str(), id.as_str()) {
            proof {
                assert(before.contains(id@));
                assert forall|x: Seq<char>| before.contains(x) <==> seen_next.contains(x) by {
                    if seen_next.contains(x) {
                        let k = choose|k: int| 0 <= k < seen_next.len() && seen_next[k] == x;
                        if k < i {
                            assert(seen[k] == x);
                            assert(seen.contains(x));
                        }
                    }
                    if before.contains(x) {
                        assert(seen.contains(x));
                        let k = choose|k: int| 0 <= k < seen.len() && seen[k] == x;
                        assert(seen_next[k] == x);
                    }
                }
            }
        } else {
            sorted.insert(j, id.clone());
            proof {
                let after = texts(sorted@);
                assert(after =~= before.insert(j as int, id@));
                if j < before.len() {
                    lemma_text_le_total(before[j as int], id@);
                }
                assert forall|p: int, q: int| 0 <= p < q < after.len() implies text_lt(
                    #[trigger] after[p],
                    #[trigger] after[q],
                ) by {
                    if q < j {
                        assert(text_lt(before[p], before[q]));
                    } else if q == j {
                        assert(text_lt(before[p], id@));
                    } else if p < j {
                        assert(text_lt(before[p], id@));
                        if q - 1 > j {
                            assert(text_lt(before[j as int], before[q - 1]));
                            lemma_text_le_transitive(id@, before[j as int], before[q - 1]);
                        }
                        lemma_text_lt_transitive(before[p], id@, before[q - 1]);
                    } else if p == j {
                        if q - 1 > j {
                            assert(text_lt(before[j as int], before[q - 1]));
                            lemma_text_le_transitive(id@, before[j as int], before[q - 1]);
                        }
                        if id@ == before[q - 1] {
                            lemma_text_le_antisymmetric(id@, before[j as int]);
                        }
                    } else {
                        assert(text_lt(before[p - 1], before[q - 1]));
                    }
                }
                assert forall|x: Seq<char>| after.contains(x) <==> seen_next.contains(x) by {
                    if after.contains(x) {
                        let k = choose|k: int| 0 <= k < after.len() && after[k] == x;
                        if k == j {
                            assert(seen_next[i as int] == x);
                        } else {
                            let k0 = if k < j {
                                k
                            } else {
                                k - 1
                            };
                            assert(before[k0] == x);
                            assert(before.contains(x));
                            assert(seen.contains(x));
                            let m = choose|m: int| 0 <= m < seen.len() && seen[m] == x;
                            assert(seen_next[m] == x);
                        }
                    }
                    if seen_next.contains(x) {
                        let k = choose|k: int| 0 <= k < seen_next.len() && seen_next[k] == x;
                        if k == i {
                            assert(after[j as int] == x);
                        } else {
                            assert(seen[k] == x);
                            assert(seen.contains(x));
                            assert(before.contains(x));
                            let m = choose|m: int| 0 <= m < before.len() && before[m] == x;
                            let m1 = if m < j {
                                m
                            } else {
                                m + 1
                            };
                            assert(after[m1] == x);
                        }
                    }
                }
            }
        }
        i += 1;
    }
    proof {
        assert(texts(ids@).take(i as int) =~= texts(ids@));
    }
    sorted
}

} // verus!
