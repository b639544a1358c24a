use vstd::prelude::*;

verus! {

/// Strictly increasing: ascending order and no duplicates at once.
pub open spec fn sorted_strict(s: Seq<u64>) -> bool {
    forall|i: int, j: int| 0 <= i < j < s.len() ==> s[i] < s[j]
}

/// `r` is the missing-block set for `archived` within the canonical range
/// `[0, latest]`: strictly increasing, and a number is in `r` exactly when
/// it lies in the range and is not archived.
pub open spec fn is_missing_set(r: Seq<u64>, archived: Seq<u64>, latest: u64) -> bool {
    &&& sorted_strict(r)
    &&& forall|m: u64| #![trigger r.contains(m)] #![trigger archived.contains(m)]
        r.contains(m) <==> (m <= latest && !archived.contains(m))
}

/// The whole canonical range `[0, latest]` as an ascending sequence.
pub open spec fn full_range(latest: u64) -> Seq<u64> {
    Seq::new(latest as nat + 1, |i: int| i as u64)
}

/// Membership test on a vector of block numbers.
pub fn contains_block(v: &Vec<u64>, x: u64) -> (r: bool)
    ensures
        r == v@.contains(x),
{
    let mut i: usize = 0;
    while i < v.len()
        invariant
            i <= v@.len(),
            forall|j: int| 0 <= j < i ==> v@[j] != x,
        decreases v@.len() - i,
    {
        if v[i] == x {
            return true;
        }
        i += 1;
    }
    false
}

/// The gap calculator: every block number in `[0, latest]` that is not in
/// `archived`, in ascending order.  `archived` need not be sorted.
pub fn missing_blocks(archived: &Vec<u64>, latest: u64) -> (r: Vec<u64>)
    ensures
        is_missing_set(r@, archived@, latest),
{
    let mut out: Vec<u64> = Vec::new();
    let mut n: u64 = 0;
    loop
        invariant_except_break
            forall|i: int| 0 <= i < out@.len() ==> #[trigger] out@[i] < n,
            forall|m: u64| #![trigger out@.contains(m)] #![trigger archived@.contains(m)]
                out@.contains(m) <==> (m < n && !archived@.contains(m)),
        invariant
            n <= latest,
            sorted_strict(out@),
        ensures
            forall|m: u64| #![trigger out@.contains(m)] #![trigger archived@.contains(m)]
                out@.contains(m) <==> (m <= latest && !archived@.contains(m)),
        decreases latest - n,
    {
        let missing = !contains_block(archived, n);
        if missing {
            let ghost prev = out@;
            out.push(n);
            proof {
                assert forall|m: u64| #![trigger out@.contains(m)]
                    out@.contains(m) <==> (m < n + 1 && !archived@.contains(m)) by {
                    if out@.contains(m) {
                        let k = choose|k: int| 0 <= k < out@.len() && out@[k] == m;
                        if k < prev.len() {
                            assert(prev.contains(m));
                        }
                    }
                    if m < n + 1 && !archived@.contains(m) {
                        if m < n {
                            assert(prev.contains(m));
                            let k = choose|k: int| 0 <= k < prev.len() && prev[k] == m;
                            assert(out@[k] == m);
                        } else {
                            assert(out@.last() == m);
                        }
                    }
                }
            }
        } else {
            proof {
                assert forall|m: u64| #![trigger out@.contains(m)]
                    out@.contains(m) <==> (m < n + 1 && !archived@.contains(m)) by {
                    if m < n + 1 && !archived@.contains(m) && m == n {
                        assert(false);
                    }
                }
            }
        }
        if n == latest {
            break;
        }
        n += 1;
    }
    out
}

/// The missing set is disjoint from the archive and lies within the
/// canonical range; and whenever the archive itself lies within the range,
/// the two together cover the whole range.
pub proof fn lemma_missing_set_properties(r: Seq<u64>, archived: Seq<u64>, latest: u64)
    requires
        is_missing_set(r, archived, latest),
    ensures
        forall|m: u64| #[trigger] r.contains(m) ==> !archived.contains(m),
        forall|m: u64| #[trigger] r.contains(m) ==> m <= latest,
        (forall|m: u64| #[trigger] archived.contains(m) ==> m <= latest) ==> (forall|m: u64|
            m <= latest ==> r.contains(m) || archived.contains(m)),
{
}

/// Two strictly increasing sequences with the same members are equal.
pub proof fn lemma_sorted_unique(a: Seq<u64>, b: Seq<u64>)
    requires
        sorted_strict(a),
        sorted_strict(b),
        forall|m: u64| #![trigger a.contains(m)] #![trigger b.contains(m)]
            a.contains(m) <==> b.contains(m),
    ensures
        a == b,
    decreases a.len(),
{
    if a.len() == 0 {
        if b.len() > 0 {
            assert(b.contains(b[0]));
            assert(a.contains(b[0]));
        }
        assert(a =~= b);
    } else {
        assert(a.contains(a[0]));
        assert(b.contains(a[0]));
        assert(b.len() > 0);
        assert(b.contains(b[0]));
        assert(a.contains(b[0]));
        let j = choose|j: int| 0 <= j < b.len() && b[j] == a[0];
        assert(b[0] <= b[j]);
        let k = choose|k: int| 0 <= k < a.len() && a[k] == b[0];
        assert(a[0] <= a[k]);
        assert(a[0] == b[0]);
        let at = a.drop_first();
        let bt = b.drop_first();
        assert forall|m: u64| #![trigger at.contains(m)] #![trigger bt.contains(m)]
            at.contains(m) <==> bt.contains(m) by {
            if at.contains(m) {
                let i = choose|i: int| 0 <= i < at.len() && at[i] == m;
                assert(a[i + 1] == m);
                assert(a.contains(m));
                assert(a[0] < m);
                assert(b.contains(m));
                let i2 = choose|i2: int| 0 <= i2 < b.len() && b[i2] == m;
                assert(i2 != 0);
                assert(bt[i2 - 1] == m);
                assert(bt.contains(m));
            }
            if bt.contains(m) {
                let i = choose|i: int| 0 <= i < bt.len() && bt[i] == m;
                assert(b[i + 1] == m);
                assert(b.contains(m));
                assert(b[0] < m);
                assert(a.contains(m));
                let i2 = choose|i2: int| 0 <= i2 < a.len() && a[i2] == m;
                assert(i2 != 0);
                assert(at[i2 - 1] == m);
                assert(at.contains(m));
            }
        }
        lemma_sorted_unique(at, bt);
        assert(a.len() == at.len() + 1);
        assert(b.len() == bt.len() + 1);
        assert forall|i: int| 0 <= i < a.len() implies a[i] == b[i] by {
            if i > 0 {
                assert(at[i - 1] == a[i]);
                assert(bt[i - 1] == b[i]);
            }
        }
        assert(a =~= b);
    }
}

/// With nothing archived, the missing set is the whole canonical range.
pub proof fn lemma_missing_set_of_empty(r: Seq<u64>, latest: u64)
    requires
        is_missing_set(r, Seq::<u64>::empty(), latest),
    ensures
        r == full_range(latest),
{
    let f = full_range(latest);
    assert forall|m: u64| #![trigger f.contains(m)] f.contains(m) <==> m <= latest by {
        if m <= latest {
            assert(f[m as int] == m);
        }
        if f.contains(m) {
            let i = choose|i: int| 0 <= i < f.len() && f[i] == m;
            assert(f[i] == i as u64);
        }
    }
    assert forall|m: u64| #![trigger r.contains(m)] #![trigger f.contains(m)]
        r.contains(m) <==> f.contains(m) by {
        assert(!Seq::<u64>::empty().contains(m));
    }
    lemma_sorted_unique(r, f);
}

/// Inserts `x` into a strictly increasing vector, keeping it strictly
/// increasing; a duplicate is dropped.
fn insert_sorted(out: &mut Vec<u64>, x: u64)
    requires
        sorted_strict(old(out)@),
    ensures
        sorted_strict(final(out)@),
        forall|m: u64| #![trigger final(out)@.contains(m)]
            final(out)@.contains(m) <==> (old(out)@.contains(m) || m == x),
{
    let mut i: usize = 0;
    while i < out.len() && out[i] < x
        invariant
            i <= out@.len(),
            sorted_strict(out@),
            forall|j: int| 0 <= j < i ==> #[trigger] out@[j] < x,
        decreases out@.len() - i,
    {
        i += 1;
    }
    if i < out.len() && out[i] == x {
        proof {
            assert(out@.contains(x));
        }
        return;
    }
    let ghost prev = out@;
    out.insert(i, x);
    proof {
        assert(out@ =~= prev.take(i as int) + seq![x] + prev.skip(i as int));
        assert forall|p: int, q: int| 0 <= p < q < out@.len() implies out@[p] < out@[q] by {
            assert(forall|j: int| i <= j < prev.len() ==> x < #[trigger] prev[j]);
        }
        assert forall|m: u64| #![trigger out@.contains(m)]
            out@.contains(m) <==> (prev.contains(m) || m == x) by {
            if out@.contains(m) {
                let k = choose|k: int| 0 <= k < out@.len() && out@[k] == m;
                if k < i {
                    assert(prev[k] == m);
                    assert(prev.contains(m));
                } else if k > i {
                    assert(prev[k - 1] == m);
                    assert(prev.contains(m));
                }
            }
            if prev.contains(m) {
                let k = choose|k: int| 0 <= k < prev.len() && prev[k] == m;
                if k < i {
                    assert(out@[k] == m);
                } else {
                    assert(out@[k + 1] == m);
                }
            }
            if m == x {
                assert(out@[i as int] == m);
            }
        }
    }
}

/// Sorts block numbers ascending and removes duplicates.
pub fn sort_dedup(v: &Vec<u64>) -> (r: Vec<u64>)
    ensures
        sorted_strict(r@),
        forall|m: u64| #![trigger r@.contains(m)] #![trigger v@.contains(m)]
            r@.contains(m) <==> v@.contains(m),
{
    let mut out: Vec<u64> = Vec::new();
    let mut i: usize = 0;
    while i < v.len()
        invariant
            i <= v@.len(),
            sorted_strict(out@),
            forall|m: u64| #![trigger out@.contains(m)]
                out@.contains(m) <==> v@.take(i as int).contains(m),
        decreases v@.len() - i,
    {
        let ghost before = out@;
        insert_sorted(&mut out, v[i]);
        proof {
            assert forall|m: u64| #![trigger out@.contains(m)]
                out@.contains(m) <==> v@.take(i + 1).contains(m) by {
                assert(v@.take(i + 1).drop_last() =~= v@.take(i as int));
                assert(v@.take(i + 1).last() == v@[i as int]);
                if out@.contains(m) {
                    if m == v@[i as int] {
                        assert(v@.take(i + 1)[i as int] == m);
                    } else {
                        assert(before.contains(m));
                        let k = choose|k: int| 0 <= k < i && v@.take(i as int)[k] == m;
                        assert(v@.take(i + 1)[k] == m);
                    }
                }
                if v@.take(i + 1).contains(m) {
                    let k = choose|k: int|
                        #![trigger v@.take(i + 1)[k]]
                        0 <= k < i + 1 && v@.take(i + 1)[k] == m;
                    if k < i {
                        assert(v@.take(i as int)[k] == m);
                    }
                }
            }
        }
        i += 1;
    }
    proof {
        assert(v@.take(v@.len() as int) =~= v@);
    }
    out
}

/// Appends every element of `src` to `dst`, in order.
fn append_all(dst: &mut Vec<u64>, src: &Vec<u64>)
    ensures
        final(dst)@ == old(dst)@ + src@,
{
    let mut i: usize = 0;
    while i < src.len()
        invariant
            i <= src@.len(),
            dst@ == old(dst)@ + src@.take(i as int),
        decreases src@.len() - i,
    {
        dst.push(src[i]);
        proof {
            assert(old(dst)@ + src@.take(i + 1) =~= (old(dst)@ + src@.take(i as int)).push(
                src@[i as int],
            ));
        }
        i += 1;
    }
    proof {
        assert(src@.take(src@.len() as int) =~= src@);
    }
}

/// Merges two scanned archive sources into one de-duplicated ascending
/// set of block numbers: a number is in the result exactly when either
/// source reported it, each exactly once.
pub fn merge_block_numbers(a: &Vec<u64>, b: &Vec<u64>) -> (r: Vec<u64>)
    ensures
        sorted_strict(r@),
        forall|m: u64| #![trigger r@.contains(m)]
            r@.contains(m) <==> (a@.contains(m) || b@.contains(m)),
{
    let mut all: Vec<u64> = Vec::new();
    append_all(&mut all, a);
    append_all(&mut all, b);
    let r = sort_dedup(&all);
    proof {
        assert forall|m: u64| #![trigger r@.contains(m)]
            r@.contains(m) <==> (a@.contains(m) || b@.contains(m)) by {
            assert(all@ == a@ + b@);
            if all@.contains(m) {
                let k = choose|k: int| 0 <= k < all@.len() && all@[k] == m;
                if k < a@.len() {
                    assert(a@[k] == m);
                } else {
                    assert(b@[k - a@.len()] == m);
                }
            }
            if a@.contains(m) {
                let k = choose|k: int| 0 <= k < a@.len() && a@[k] == m;
                assert(all@[k] == m);
            }
            if b@.contains(m) {
                let k = choose|k: int| 0 <= k < b@.len() && b@[k] == m;
                assert(all@[k + a@.len()] == m);
            }
        }
    }
    r
}

} // verus!
