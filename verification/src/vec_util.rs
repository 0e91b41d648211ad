//! Small verified vector utilities.

use vstd::prelude::*;

verus! {

/// A copy of `v` with `n` added to every element.
pub fn add_n(v: Vec<i32>, n: i32) -> (r: Vec<i32>)
    requires
        forall|i: int| #![trigger v@[i]] 0 <= i < v@.len() ==> i32::MIN <= v@[i] + n <= i32::MAX,
    ensures
        r@.len() == v@.len(),
        forall|i: int| 0 <= i < v@.len() ==> r@[i] == v@[i] + n,
{
    let mut r: Vec<i32> = Vec::new();
    let mut i: usize = 0;
    while i < v.len()
        invariant
            i <= v@.len(),
            r@.len() == i,
            forall|k: int| 0 <= k < i ==> r@[k] == v@[k] + n,
            forall|k: int| #![trigger v@[k]] 0 <= k < v@.len() ==> i32::MIN <= v@[k] + n <= i32::MAX,
        decreases v@.len() - i,
    {
        r.push(v[i] + n);
        i += 1;
    }
    r
}

/// Adds `n` to every element of `v` in place.
pub fn add_n_inplace(v: &mut Vec<i32>, n: i32)
    requires
        forall|i: int| #![trigger old(v)@[i]] 0 <= i < old(v)@.len() ==> i32::MIN <= old(v)@[i] + n <= i32::MAX,
    ensures
        final (v)@.len() == old(v)@.len(),
        forall|i: int| 0 <= i < old(v)@.len() ==> final (v)@[i] == old(v)@[i] + n,
{
    let n_elems = v.len();
    let mut i: usize = 0;
    while i < n_elems
        invariant
            i <= n_elems,
            n_elems == v@.len(),
            v@.len() == old(v)@.len(),
            forall|k: int| 0 <= k < i ==> v@[k] == old(v)@[k] + n,
            forall|k: int| i <= k < v@.len() ==> v@[k] == old(v)@[k],
            forall|k: int| #![trigger old(v)@[k]] 0 <= k < old(v)@.len() ==> i32::MIN <= old(v)@[k] + n <= i32::MAX,
        decreases n_elems - i,
    {
        let x = v[i];
        v.set(i, x + n);
        i += 1;
    }
}

/// `s` reduced to the first occurrence of each value, in order.
pub open spec fn spec_dedup(s: Seq<i32>) -> Seq<i32>
    decreases s.len(),
{
    if s.len() == 0 {
        Seq::empty()
    } else {
        let pre = spec_dedup(s.drop_last());
        if s.drop_last().contains(s.last()) {
            pre
        } else {
            pre.push(s.last())
        }
    }
}

/// Deduplication keeps exactly the values that were there.
proof fn lemma_dedup_contains(s: Seq<i32>, x: i32)
    ensures
        spec_dedup(s).contains(x) == s.contains(x),
    decreases s.len(),
{
    if s.len() > 0 {
        let pre = s.drop_last();
        lemma_dedup_contains(pre, x);
        assert(s.contains(x) == (pre.contains(x) || s.last() == x)) by {
            if s.contains(x) {
                let i = choose|i: int| 0 <= i < s.len() && s[i] == x;
                if i < s.len() - 1 {
                    assert(pre[i] == x);
                }
            }
            if pre.contains(x) {
                let i = choose|i: int| 0 <= i < pre.len() && pre[i] == x;
                assert(s[i] == x);
            }
            if s.last() == x {
                assert(s[s.len() - 1] == x);
            }
        }
        if !pre.contains(s.last()) {
            let d = spec_dedup(pre).push(s.last());
            assert(d.contains(x) == (spec_dedup(pre).contains(x) || s.last() == x)) by {
                if d.contains(x) {
                    let i = choose|i: int| 0 <= i < d.len() && d[i] == x;
                    if i < d.len() - 1 {
                        assert(spec_dedup(pre)[i] == x);
                    }
                }
                if spec_dedup(pre).contains(x) {
                    let i = choose|i: int| 0 <= i < spec_dedup(pre).len() && spec_dedup(pre)[i]
                        == x;
                    assert(d[i] == x);
                }
                if s.last() == x {
                    assert(d[d.len() - 1] == x);
                }
            }
        }
    }
}

/// Whether `v` holds the value `x`.
fn contains_val(v: &Vec<i32>, x: i32) -> (r: bool)
    ensures
        r == v@.contains(x),
{
    let mut i: usize = 0;
    while i < v.len()
        invariant
            i <= v@.len(),
            forall|k: int| 0 <= k < i ==> v@[k] != x,
        decreases v@.len() - i,
    {
        if v[i] == x {
            return true;
        }
        i += 1;
    }
    false
}

/// Removes every repeated value from `v`, keeping the first occurrence of
/// each, in order.
pub fn dedup(v: &mut Vec<i32>)
    ensures
        final (v)@ == spec_dedup(old(v)@),
{
    let mut out: Vec<i32> = Vec::new();
    let n_elems = v.len();
    let mut i: usize = 0;
    while i < n_elems
        invariant
            i <= n_elems,
            n_elems == v@.len(),
            v@ == old(v)@,
            out@ == spec_dedup(v@.take(i as int)),
        decreases n_elems - i,
    {
        let x = v[i];
        let seen = contains_val(&out, x);
        proof {
            assert(v@.take(i + 1).drop_last() =~= v@.take(i as int));
            assert(v@.take(i + 1).last() == v@[i as int]);
            lemma_dedup_contains(v@.take(i as int), x);
        }
        if !seen {
            out.push(x);
        }
        i += 1;
    }
    proof {
        assert(v@.take(n_elems as int) =~= v@);
    }
    *v = out;
}

} // verus!
