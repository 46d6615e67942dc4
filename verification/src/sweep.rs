//! Removing marked entries from a list once a pass over it has ended.

use vstd::prelude::*;

verus! {

/// The list `s` after entry `i` has been taken out and the last entry has been
/// moved into its place.
pub open spec fn swap_removed<T>(s: Seq<T>, i: int) -> Seq<T> {
    s.update(i, s.last()).drop_last()
}

/// The list `s` after the entries at the indices in `stale` have been taken
/// out, from the last index to the first, each by `swap_removed`.
pub open spec fn spec_clean_vec<T>(s: Seq<T>, stale: Seq<usize>) -> Seq<T>
    decreases stale.len(),
{
    if stale.len() == 0 {
        s
    } else {
        spec_clean_vec(swap_removed(s, stale.last() as int), stale.drop_last())
    }
}

/// Whether `stale` lists indices into a list of length `len` in rising order,
/// none of them twice.
pub open spec fn ascending(stale: Seq<usize>, len: int) -> bool {
    &&& forall|i: int, j: int| 0 <= i < j < stale.len() ==> stale[i] < stale[j]
    &&& forall|i: int| 0 <= i < stale.len() ==> (#[trigger] stale[i]) < len
}

/// Whether `stale` lists the index `j`.
pub open spec fn listed(stale: Seq<usize>, j: int) -> bool {
    exists|k: int| 0 <= k < stale.len() && #[trigger] stale[k] == j
}

/// Whether `x` is an entry of `s` at an index that `stale` does not list.
pub open spec fn survives<T>(s: Seq<T>, stale: Seq<usize>, x: T) -> bool {
    exists|j: int| 0 <= j < s.len() && !listed(stale, j) && #[trigger] s[j] == x
}

/// In a rising list of indices, entries that are `j - i` places apart differ
/// by at least `j - i`.
pub proof fn lemma_ascending_gap(stale: Seq<usize>, len: int, i: int, j: int)
    requires
        ascending(stale, len),
        0 <= i <= j < stale.len(),
    ensures
        stale[i] + (j - i) <= stale[j],
    decreases j - i,
{
    if i < j {
        lemma_ascending_gap(stale, len, i, j - 1);
    }
}

/// Takes the entries at the indices in `stale` out of `v`. The indices were
/// gathered in one pass over `v`, so they rise and none exceeds the list. The
/// entries that stay may change places.
pub fn clean_vec<T>(v: &mut Vec<T>, stale: Vec<usize>)
    requires
        ascending(stale@, old(v)@.len() as int),
    ensures
        final(v)@ == spec_clean_vec(old(v)@, stale@),
        final(v)@.len() == old(v)@.len() - stale@.len(),
{
    let ghost before: Seq<T> = v@;
    let mut k: usize = stale.len();
    assert(stale@.subrange(0, k as int) == stale@);
    while k > 0
        invariant
            k <= stale.len(),
            ascending(stale@, before.len() as int),
            v@.len() == before.len() - (stale.len() - k),
            spec_clean_vec(v@, stale@.subrange(0, k as int)) == spec_clean_vec(before, stale@),
        decreases k,
    {
        k = k - 1;
        proof {
            lemma_ascending_gap(stale@, before.len() as int, k as int, stale.len() - 1);
            let head = stale@.subrange(0, k + 1);
            assert(head.last() == stale@[k as int]);
            assert(head.drop_last() == stale@.subrange(0, k as int));
        }
        v.swap_remove(stale[k]);
    }
}

/// What `clean_vec` leaves: as many entries as were not listed, each of them an
/// entry that was not listed, and every entry that was not listed among them.
pub proof fn lemma_clean_vec_survivors<T>(s: Seq<T>, stale: Seq<usize>)
    requires
        ascending(stale, s.len() as int),
    ensures
        spec_clean_vec(s, stale).len() == s.len() - stale.len(),
        forall|i: int|
            0 <= i < spec_clean_vec(s, stale).len() ==> survives(
                s,
                stale,
                #[trigger] spec_clean_vec(s, stale)[i],
            ),
        forall|j: int|
            0 <= j < s.len() && !listed(stale, j) ==> spec_clean_vec(s, stale).contains(
                #[trigger] s[j],
            ),
    decreases stale.len(),
{
    let r = spec_clean_vec(s, stale);
    if stale.len() == 0 {
        assert forall|i: int| 0 <= i < r.len() implies survives(s, stale, #[trigger] r[i]) by {
            assert(!listed(stale, i) && s[i] == r[i]);
        }
        assert forall|j: int| 0 <= j < s.len() && !listed(stale, j) implies r.contains(
            #[trigger] s[j],
        ) by {
            assert(r[j] == s[j]);
        }
    } else {
        let last = stale.len() - 1;
        let m = stale[last] as int;
        let rest = stale.drop_last();
        let t = swap_removed(s, m);
        let top = s.len() - 1;
        assert(ascending(rest, t.len() as int)) by {
            assert forall|i: int| 0 <= i < rest.len() implies (#[trigger] rest[i]) < t.len() by {
                assert(stale[i] < stale[last]);
            }
        }
        lemma_clean_vec_survivors(t, rest);
        assert(forall|k: int| 0 <= k < rest.len() ==> rest[k] == stale[k] && stale[k] < m);
        assert forall|i: int| 0 <= i < r.len() implies survives(s, stale, #[trigger] r[i]) by {
            assert(survives(t, rest, r[i]));
            let j = choose|j: int| 0 <= j < t.len() && !listed(rest, j) && #[trigger] t[j] == r[i];
            let src = if j == m {
                top
            } else {
                j
            };
            assert(s[src] == r[i]);
            assert(!listed(stale, src)) by {
                if listed(stale, src) {
                    let w = choose|w: int| 0 <= w < stale.len() && #[trigger] stale[w] == src;
                    if w < last {
                        assert(rest[w] == src);
                        assert(listed(rest, j));
                    }
                }
            }
        }
        assert forall|j: int| 0 <= j < s.len() && !listed(stale, j) implies r.contains(
            #[trigger] s[j],
        ) by {
            assert(stale[last] == m);
            assert(j != m);
            let dst = if j == top {
                m
            } else {
                j
            };
            assert(t[dst] == s[j]);
            assert(!listed(rest, dst)) by {
                if listed(rest, dst) {
                    let w = choose|w: int| 0 <= w < rest.len() && #[trigger] rest[w] == dst;
                    assert(stale[w] == dst);
                }
            }
            assert(r.contains(t[dst]));
        }
    }
}

/// The indices of the entries of `s` that `marks` holds of, in rising order.
pub open spec fn flagged<T>(s: Seq<T>, marks: spec_fn(T) -> bool) -> Seq<usize>
    decreases s.len(),
{
    if s.len() == 0 {
        Seq::empty()
    } else if marks(s.last()) {
        flagged(s.drop_last(), marks).push((s.len() - 1) as usize)
    } else {
        flagged(s.drop_last(), marks)
    }
}

/// `flagged` lists an index if and only if `marks` holds of the entry there,
/// and it lists the indices as `clean_vec` wants them.
pub proof fn lemma_flagged<T>(s: Seq<T>, marks: spec_fn(T) -> bool)
    requires
        s.len() <= usize::MAX,
    ensures
        ascending(flagged(s, marks), s.len() as int),
        flagged(s, marks).len() <= s.len(),
        forall|j: int| listed(flagged(s, marks), j) <==> 0 <= j < s.len() && marks(s[j]),
    decreases s.len(),
{
    let f = flagged(s, marks);
    if s.len() == 0 {
        assert forall|j: int| listed(f, j) <==> 0 <= j < s.len() && marks(s[j]) by {
            if listed(f, j) {
                let k = choose|k: int| 0 <= k < f.len() && #[trigger] f[k] == j;
            }
        }
    } else {
        let front = s.drop_last();
        let g = flagged(front, marks);
        let top = s.len() - 1;
        lemma_flagged(front, marks);
        assert forall|k: int| 0 <= k < g.len() implies (#[trigger] g[k]) < top by {
            assert(listed(g, g[k] as int));
        }
        assert forall|j: int| listed(f, j) <==> 0 <= j < s.len() && marks(s[j]) by {
            if listed(f, j) {
                let k = choose|k: int| 0 <= k < f.len() && #[trigger] f[k] == j;
                if k < g.len() {
                    assert(g[k] == j);
                    assert(listed(g, j));
                    assert(front[j] == s[j]);
                }
            }
            if 0 <= j < s.len() && marks(s[j]) {
                if j == top {
                    assert(f[f.len() - 1] == j);
                } else {
                    assert(front[j] == s[j]);
                    assert(listed(g, j));
                    let k = choose|k: int| 0 <= k < g.len() && #[trigger] g[k] == j;
                    assert(f[k] == j);
                }
            }
        }
    }
}

/// What is left of `s` once `clean_vec` has taken out the entries that `marks`
/// holds of: no entry that `marks` holds of, and every entry that it does not
/// hold of.
pub proof fn lemma_sweep_flagged<T>(s: Seq<T>, marks: spec_fn(T) -> bool)
    requires
        s.len() <= usize::MAX,
    ensures
        spec_clean_vec(s, flagged(s, marks)).len() == s.len() - flagged(s, marks).len(),
        forall|i: int|
            0 <= i < spec_clean_vec(s, flagged(s, marks)).len() ==> {
                &&& !marks(#[trigger] spec_clean_vec(s, flagged(s, marks))[i])
                &&& s.contains(spec_clean_vec(s, flagged(s, marks))[i])
            },
        forall|j: int|
            0 <= j < s.len() && !marks(s[j]) ==> spec_clean_vec(s, flagged(s, marks)).contains(
                #[trigger] s[j],
            ),
{
    let f = flagged(s, marks);
    let r = spec_clean_vec(s, f);
    lemma_flagged(s, marks);
    lemma_clean_vec_survivors(s, f);
    assert forall|i: int| 0 <= i < r.len() implies {
        &&& !marks(#[trigger] r[i])
        &&& s.contains(r[i])
    } by {
        assert(survives(s, f, r[i]));
        let j = choose|j: int| 0 <= j < s.len() && !listed(f, j) && #[trigger] s[j] == r[i];
        assert(!marks(s[j]));
    }
    assert forall|j: int| 0 <= j < s.len() && !marks(s[j]) implies r.contains(#[trigger] s[j]) by {
        assert(!listed(f, j));
    }
}

} // verus!
