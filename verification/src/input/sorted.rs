//! Sets of key codes kept as strictly increasing vectors.
use vstd::prelude::*;

verus! {

/// The sequence is strictly increasing (sorted, without duplicates).
pub open spec fn strictly_sorted(s: Seq<u32>) -> bool {
    forall|i: int, j: int| 0 <= i < j < s.len() ==> #[trigger] s[i] < #[trigger] s[j]
}

/// Searches a strictly increasing vector, as `slice::binary_search` does: `Ok` with the index of
/// the key when present, otherwise `Err` with the index at which it would be inserted.
pub fn binary_search(v: &Vec<u32>, key: u32) -> (r: Result<usize, usize>)
    requires
        strictly_sorted(v@),
    ensures
        match r {
            Ok(i) => i < v@.len() && v@[i as int] == key,
            Err(i) => i <= v@.len() && !v@.contains(key) && (forall|k: int|
                0 <= k < i ==> #[trigger] v@[k] < key) && (forall|k: int|
                i <= k < v@.len() ==> #[trigger] v@[k] > key),
        },
{
    let mut lo: usize = 0;
    let mut hi: usize = v.len();
    while lo < hi
        invariant
            strictly_sorted(v@),
            lo <= hi <= v@.len(),
            forall|k: int| 0 <= k < lo ==> #[trigger] v@[k] < key,
            forall|k: int| hi <= k < v@.len() ==> #[trigger] v@[k] > key,
        decreases hi - lo,
    {
        let mid = lo + (hi - lo) / 2;
        if v[mid] == key {
            return Ok(mid);
        } else if v[mid] < key {
            lo = mid + 1;
        } else {
            hi = mid;
        }
    }
    proof {
        if v@.contains(key) {
            let k = choose|k: int| 0 <= k < v@.len() && v@[k] == key;
            if k < lo {
                assert(v@[k] < key);
            } else {
                assert(v@[k] > key);
            }
        }
    }
    Err(lo)
}

/// Inserts the key when absent, keeping the vector strictly increasing.
pub fn insert_key(v: &mut Vec<u32>, key: u32)
    requires
        strictly_sorted(old(v)@),
    ensures
        strictly_sorted(final(v)@),
        final(v)@.to_set() == old(v)@.to_set().insert(key),
{
    match binary_search(v, key) {
        Ok(_) => {
            proof {
                assert(v@.to_set() =~= v@.to_set().insert(key));
            }
        },
        Err(idx) => {
            let ghost s0 = v@;
            v.insert(idx, key);
            proof {
                assert(v@ == s0.insert(idx as int, key));
                assert forall|i: int, j: int| 0 <= i < j < v@.len() implies #[trigger] v@[i]
                    < #[trigger] v@[j] by {
                    if j < idx {
                        assert(v@[i] == s0[i] && v@[j] == s0[j]);
                    } else if j == idx {
                        assert(v@[i] == s0[i]);
                    } else if i == idx {
                        assert(v@[j] == s0[j - 1]);
                    } else if i < idx {
                        assert(v@[i] == s0[i] && v@[j] == s0[j - 1]);
                    } else {
                        assert(v@[i] == s0[i - 1] && v@[j] == s0[j - 1]);
                    }
                }
                assert forall|x: u32| v@.to_set().contains(x) <==> s0.to_set().insert(key).contains(
                    x,
                ) by {
                    if v@.contains(x) {
                        let k = choose|k: int| 0 <= k < v@.len() && v@[k] == x;
                        if k < idx {
                            assert(s0[k] == x);
                        } else if k > idx {
                            assert(s0[k - 1] == x);
                        }
                    }
                    if s0.contains(x) {
                        let k = choose|k: int| 0 <= k < s0.len() && s0[k] == x;
                        if k < idx {
                            assert(v@[k] == x);
                        } else {
                            assert(v@[k + 1] == x);
                        }
                    }
                    if x == key {
                        assert(v@[idx as int] == x);
                    }
                }
                assert(v@.to_set() =~= s0.to_set().insert(key));
            }
        },
    }
}

/// Removes the key when present, keeping the vector strictly increasing.
pub fn remove_key(v: &mut Vec<u32>, key: u32)
    requires
        strictly_sorted(old(v)@),
    ensures
        strictly_sorted(final(v)@),
        final(v)@.to_set() == old(v)@.to_set().remove(key),
{
    match binary_search(v, key) {
        Ok(idx) => {
            let ghost s0 = v@;
            v.remove(idx);
            proof {
                assert(v@ == s0.remove(idx as int));
                assert forall|i: int, j: int| 0 <= i < j < v@.len() implies #[trigger] v@[i]
                    < #[trigger] v@[j] by {
                    if j < idx {
                        assert(v@[i] == s0[i] && v@[j] == s0[j]);
                    } else if i < idx {
                        assert(v@[i] == s0[i] && v@[j] == s0[j + 1]);
                    } else {
                        assert(v@[i] == s0[i + 1] && v@[j] == s0[j + 1]);
                    }
                }
                assert forall|x: u32| v@.to_set().contains(x) <==> s0.to_set().remove(key).contains(
                    x,
                ) by {
                    if v@.contains(x) {
                        let k = choose|k: int| 0 <= k < v@.len() && v@[k] == x;
                        if k < idx {
                            assert(s0[k] == x);
                            assert(s0[k] < s0[idx as int]);
                        } else {
                            assert(s0[k + 1] == x);
                            assert(s0[k + 1] > s0[idx as int]);
                        }
                    }
                    if s0.contains(x) && x != key {
                        let k = choose|k: int| 0 <= k < s0.len() && s0[k] == x;
                        if k < idx {
                            assert(v@[k] == x);
                        } else {
                            assert(k != idx);
                            assert(v@[k - 1] == x);
                        }
                    }
                }
                assert(v@.to_set() =~= s0.to_set().remove(key));
            }
        },
        Err(_) => {
            proof {
                assert(v@.to_set() =~= v@.to_set().remove(key));
            }
        },
    }
}

/// Whether the strictly increasing vector holds the key.
pub fn contains_key(v: &Vec<u32>, key: u32) -> (r: bool)
    requires
        strictly_sorted(v@),
    ensures
        r == v@.to_set().contains(key),
{
    match binary_search(v, key) {
        Ok(i) => {
            proof {
                assert(v@.contains(key)) by {
                    assert(v@[i as int] == key);
                }
            }
            true
        },
        Err(_) => false,
    }
}

} // verus!
