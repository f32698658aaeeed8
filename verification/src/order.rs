//! Stable ordering by an integer key. Items are referred to by their positions;
//! a stable sort by key is the unique order that is strictly increasing in
//! (key, position).

use vstd::prelude::*;

verus! {

/// `r` lists positions in strictly increasing (key, position) order.
pub open spec fn key_position_sorted(keys: Seq<i64>, r: Seq<usize>) -> bool {
    forall|a: int, b: int|
        #![trigger r[a], r[b]]
        0 <= a < b < r.len() ==> {
            let ka = keys[r[a] as int];
            let kb = keys[r[b] as int];
            ka < kb || (ka == kb && r[a] < r[b])
        }
}

/// `s` is strictly increasing.
pub open spec fn strictly_increasing(s: Seq<usize>) -> bool {
    forall|a: int, b: int| 0 <= a < b < s.len() ==> s[a] < s[b]
}

/// `r` holds the same positions as `sel`.
pub open spec fn same_members(r: Seq<usize>, sel: Seq<usize>) -> bool {
    &&& r.len() == sel.len()
    &&& forall|x: usize| r.contains(x) <==> sel.contains(x)
}

/// The positions `sel`, stably sorted by `keys`: ties keep their order in `sel`.
pub fn stable_sort_positions(keys: &Vec<i64>, sel: &Vec<usize>) -> (r: Vec<usize>)
    requires
        strictly_increasing(sel@),
        forall|i: int| 0 <= i < sel.len() ==> sel@[i] < keys.len(),
    ensures
        same_members(r@, sel@),
        key_position_sorted(keys@, r@),
        forall|i: int| 0 <= i < r.len() ==> r@[i] < keys.len(),
{
    let mut r: Vec<usize> = Vec::new();
    let mut i: usize = 0;
    while i < sel.len()
        invariant
            i <= sel.len(),
            strictly_increasing(sel@),
            forall|j: int| 0 <= j < sel.len() ==> sel@[j] < keys.len(),
            r.len() == i,
            forall|x: usize| r@.contains(x) <==> sel@.take(i as int).contains(x),
            key_position_sorted(keys@, r@),
            forall|j: int| 0 <= j < r.len() ==> r@[j] < keys.len(),
            forall|j: int| 0 <= j < r.len() && i < sel.len() ==> r@[j] < sel@[i as int],
        decreases sel.len() - i,
    {
        let x = sel[i];
        let kx = keys[x];
        let mut pos: usize = 0;
        while pos < r.len() && keys[r[pos]] <= kx
            invariant
                pos <= r.len(),
                forall|j: int| 0 <= j < r.len() ==> r@[j] < keys.len(),
                forall|j: int| 0 <= j < pos ==> keys@[r@[j] as int] <= kx,
            decreases r.len() - pos,
        {
            pos = pos + 1;
        }
        let ghost old_r = r@;
        assert(forall|y: usize| old_r.contains(y) <==> sel@.take(i as int).contains(y));
        proof {
            assert forall|j: int| pos <= j < old_r.len() implies keys@[old_r[j] as int] > kx by {
                if j > pos {
                    assert(keys@[old_r[pos as int] as int] <= keys@[old_r[j] as int]);
                }
            }
        }
        r.insert(pos, x);
        proof {
            assert(r@ == old_r.insert(pos as int, x));
            assert forall|a: int, b: int| #![trigger r@[a], r@[b]] 0 <= a < b < r@.len() implies {
                let ka = keys@[r@[a] as int];
                let kb = keys@[r@[b] as int];
                ka < kb || (ka == kb && r@[a] < r@[b])
            } by {
                if b < pos {
                    assert(r@[a] == old_r[a] && r@[b] == old_r[b]);
                } else if b == pos {
                    assert(r@[a] == old_r[a]);
                } else if a == pos {
                    assert(r@[b] == old_r[b - 1]);
                } else if a < pos {
                    assert(r@[a] == old_r[a] && r@[b] == old_r[b - 1]);
                } else {
                    assert(r@[a] == old_r[a - 1] && r@[b] == old_r[b - 1]);
                }
            }
            let t1 = sel@.take(i + 1);
            let t0 = sel@.take(i as int);
            assert(t1 == t0.push(x));
            assert(t1[i as int] == x);
            assert forall|y: usize| r@.contains(y) <==> t1.contains(y) by {
                if r@.contains(y) {
                    let k = choose|k: int| 0 <= k < r@.len() && r@[k] == y;
                    if k < pos {
                        assert(old_r[k] == y);
                        assert(old_r.contains(y));
                        assert(t0.contains(y));
                        let k0 = choose|k0: int| 0 <= k0 < t0.len() && t0[k0] == y;
                        assert(t1[k0] == y);
                    } else if k > pos {
                        assert(old_r[k - 1] == y);
                        assert(old_r.contains(y));
                        assert(t0.contains(y));
                        let k0 = choose|k0: int| 0 <= k0 < t0.len() && t0[k0] == y;
                        assert(t1[k0] == y);
                    } else {
                        assert(y == x);
                    }
                }
                if t1.contains(y) {
                    if y == x {
                        assert(r@[pos as int] == x);
                    } else {
                        let k1 = choose|k1: int| 0 <= k1 < t1.len() && t1[k1] == y;
                        assert(k1 < i);
                        assert(t0[k1] == y);
                        assert(t0.contains(y));
                        assert(old_r.contains(y));
                        let k = choose|k: int| 0 <= k < old_r.len() && old_r[k] == y;
                        if k < pos {
                            assert(r@[k] == y);
                        } else {
                            assert(r@[k + 1] == y);
                        }
                    }
                }
            }
            assert forall|j: int| 0 <= j < r.len() && i + 1 < sel.len() implies r@[j] < sel@[i + 1] by {
                if j < pos {
                    assert(r@[j] == old_r[j]);
                } else if j > pos {
                    assert(r@[j] == old_r[j - 1]);
                }
            }
        }
        i = i + 1;
    }
    proof {
        assert(sel@.take(sel.len() as int) == sel@);
    }
    r
}

} // verus!
