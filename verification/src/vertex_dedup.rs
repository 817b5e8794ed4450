//! Welding the vertices of sibling clusters before a group is simplified:
//! vertices with identical bits become one, numbered in the order they are
//! first referenced.
//!
//! A vertex is known here by its key, the bit patterns of its attributes.

use vstd::prelude::*;

verus! {

/// The keys as plain values.
pub open spec fn key_views(keys: Seq<Vec<u32>>) -> Seq<Seq<u32>> {
    keys.map_values(|k: Vec<u32>| k@)
}

/// The distinct keys of `r` in the order of their first occurrence.
pub open spec fn distinct_in_order(r: Seq<Seq<u32>>) -> Seq<Seq<u32>>
    decreases r.len(),
{
    if r.len() == 0 {
        seq![]
    } else {
        let d = distinct_in_order(r.drop_last());
        if d.contains(r.last()) { d } else { d.push(r.last()) }
    }
}

/// Whether two keys are equal.
fn same_key(a: &Vec<u32>, b: &Vec<u32>) -> (same: bool)
    ensures
        same == (a@ == b@),
{
    if a.len() != b.len() {
        return false;
    }
    let mut i: usize = 0;
    while i < a.len()
        invariant
            a@.len() == b@.len(),
            i <= a@.len(),
            forall|j: int| 0 <= j < i ==> a@[j] == b@[j],
        decreases a.len() - i,
    {
        if a[i] != b[i] {
            return false;
        }
        i = i + 1;
    }
    assert(a@ =~= b@);
    true
}

/// Welds the referenced vertices `keys` (one per index, in index order):
/// returns where each distinct vertex is first referenced, in that order,
/// and for each reference the number of its distinct vertex.
pub fn weld_vertices(keys: &Vec<Vec<u32>>) -> (result: (Vec<usize>, Vec<u32>))
    requires
        keys@.len() <= u32::MAX,
    ensures
        ({
            let r = key_views(keys@);
            let u = distinct_in_order(r);
            let (first, indices) = result;
            &&& first@.len() == u.len()
            &&& u.no_duplicates()
            &&& forall|j: int| 0 <= j < u.len() ==> {
                &&& (#[trigger] first@[j]) < r.len()
                &&& r[first@[j] as int] == u[j]
                &&& forall|i: int| 0 <= i < first@[j] ==> r[i] != u[j]
            }
            &&& indices@.len() == r.len()
            &&& forall|k: int| 0 <= k < r.len() ==> (#[trigger] indices@[k]) < u.len() && u[indices@[k] as int] == r[k]
        }),
{
    let ghost r = key_views(keys@);
    let mut first: Vec<usize> = Vec::new();
    let mut indices: Vec<u32> = Vec::new();
    let mut k: usize = 0;
    while k < keys.len()
        invariant
            r == key_views(keys@),
            keys@.len() <= u32::MAX,
            k <= keys@.len(),
            first@.len() <= k,
            first@.len() == distinct_in_order(r.take(k as int)).len(),
            distinct_in_order(r.take(k as int)).no_duplicates(),
            forall|j: int| 0 <= j < first@.len() ==> {
                &&& (#[trigger] first@[j]) < k
                &&& r[first@[j] as int] == distinct_in_order(r.take(k as int))[j]
                &&& forall|i: int| 0 <= i < first@[j] ==> r[i] != distinct_in_order(r.take(k as int))[j]
            },
            indices@.len() == k,
            forall|m: int| 0 <= m < k ==> (#[trigger] indices@[m]) < first@.len()
                && distinct_in_order(r.take(k as int))[indices@[m] as int] == r[m],
        decreases keys.len() - k,
    {
        let ghost d = distinct_in_order(r.take(k as int));
        assert(r.take(k + 1).drop_last() =~= r.take(k as int));
        assert(r.take(k + 1).last() == r[k as int]);
        assert(keys@[k as int]@ == r[k as int]);
        let mut j: usize = 0;
        let mut found = false;
        while j < first.len() && !found
            invariant
                r == key_views(keys@),
                k < keys@.len(),
                j <= first@.len(),
                first@.len() == d.len(),
                forall|x: int| 0 <= x < first@.len() ==> (#[trigger] first@[x]) < k && r[first@[x] as int] == d[x],
                forall|x: int| 0 <= x < j ==> d[x] != r[k as int],
                found ==> j < first@.len() && d[j as int] == r[k as int],
            decreases first.len() - j + if found { 0int } else { 1int },
        {
            let p = first[j];
            assert(keys@[p as int]@ == r[p as int]);
            if same_key(&keys[p], &keys[k]) {
                found = true;
            } else {
                j = j + 1;
            }
        }
        proof {
            if !found {
                assert(!d.contains(r[k as int])) by {
                    if d.contains(r[k as int]) {
                        let x = choose|x: int| 0 <= x < d.len() && d[x] == r[k as int];
                        assert(d[x] != r[k as int]);
                    }
                }
            }
        }
        if found {
            indices.push(j as u32);
            assert(distinct_in_order(r.take(k + 1)) == d);
        } else {
            let ghost old_first = first@;
            first.push(k);
            indices.push(j as u32);
            assert(distinct_in_order(r.take(k + 1)) == d.push(r[k as int]));
            proof {
                let d2 = d.push(r[k as int]);
                assert(d2.no_duplicates()) by {
                    assert forall|x: int, y: int| 0 <= x < d2.len() && 0 <= y < d2.len() && x != y implies d2[x] != d2[y] by {
                        if x == d.len() as int && y < d.len() {
                            assert(d.contains(d[y]));
                        } else if y == d.len() as int && x < d.len() {
                            assert(d.contains(d[x]));
                        }
                    }
                }
                assert forall|i: int| 0 <= i < k implies r[i] != r[k as int] by {
                    if r[i] == r[k as int] {
                        let m = i;
                        assert(d[indices@[m] as int] == r[m]);
                        assert(d.contains(r[k as int]));
                    }
                }
                assert forall|x: int| 0 <= x < first@.len() implies {
                    &&& (#[trigger] first@[x]) < k + 1
                    &&& r[first@[x] as int] == d2[x]
                    &&& forall|i: int| 0 <= i < first@[x] ==> r[i] != d2[x]
                } by {
                    if x < old_first.len() {
                        assert(first@[x] == old_first[x]);
                    }
                }
            }
        }
        k = k + 1;
    }
    assert(r.take(keys@.len() as int) =~= r);
    (first, indices)
}

} // verus!
