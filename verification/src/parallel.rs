//! Putting together what the workers of a parallel map hand back: results
//! arrive in any order, each with the position of the input it belongs to.

use vstd::prelude::*;

verus! {

/// `k` is the position of the last result for `slot` in `results`.
pub open spec fn is_last_for<U>(results: Seq<(usize, U)>, k: int, slot: int) -> bool {
    &&& 0 <= k < results.len()
    &&& results[k].0 == slot
    &&& forall|later: int| k < later < results.len() ==> (#[trigger] results[later]).0 != slot
}

/// `value` is what belongs at `slot`: the last result that names the slot,
/// or a default value where no result names it.
pub open spec fn belongs_at<U: Default>(results: Seq<(usize, U)>, slot: int, value: U) -> bool {
    ||| exists|k: int| is_last_for(results, k, slot) && (#[trigger] results[k]).1 == value
    ||| {
        &&& forall|k: int| 0 <= k < results.len() ==> (#[trigger] results[k]).0 != slot
        &&& call_ensures(U::default, (), value)
    }
}

/// Lays the results out by position: a vector of `len` values in which
/// every result stands at the position it names (the last one, should two
/// name the same) and every position that no result names holds a default.
pub fn assemble<U: Default>(len: usize, results: Vec<(usize, U)>) -> (r: Vec<U>)
    requires
        forall|k: int| 0 <= k < results@.len() ==> (#[trigger] results@[k]).0 < len,
    ensures
        r@.len() == len,
        forall|slot: int| 0 <= slot < len ==> belongs_at(results@, slot, #[trigger] r@[slot]),
{
    let mut output_vec: Vec<U> = Vec::new();
    let mut written: Vec<bool> = Vec::new();
    while output_vec.len() < len
        invariant
            output_vec@.len() == written@.len(),
            output_vec@.len() <= len,
            forall|i: int| 0 <= i < written@.len() ==> !#[trigger] written@[i],
            forall|i: int|
                0 <= i < output_vec@.len() ==> call_ensures(U::default, (), #[trigger] output_vec@[i]),
        decreases len - output_vec@.len(),
    {
        output_vec.push(U::default());
        written.push(false);
    }
    let ghost all = results@;
    let mut pending = results;
    while pending.len() > 0
        invariant
            output_vec@.len() == len,
            written@.len() == len,
            pending@.len() <= all.len(),
            pending@ == all.take(pending@.len() as int),
            forall|k: int| 0 <= k < all.len() ==> (#[trigger] all[k]).0 < len,
            forall|i: int|
                0 <= i < len && #[trigger] written@[i] ==> exists|k: int|
                    pending@.len() <= k && is_last_for(all, k, i) && (#[trigger] all[k]).1
                        == output_vec@[i],
            forall|i: int|
                0 <= i < len && !#[trigger] written@[i] ==> {
                    &&& forall|k: int|
                        pending@.len() <= k < all.len() ==> (#[trigger] all[k]).0 != i
                    &&& call_ensures(U::default, (), output_vec@[i])
                },
        decreases pending@.len(),
    {
        let ghost at = pending@.len() - 1;
        let ghost before_out = output_vec@;
        let ghost before_written = written@;
        let (index, elem) = pending.pop().unwrap();
        assert(all[at] == (index, elem));
        assert(pending@ =~= all.take(at));
        if !written[index] {
            output_vec.set(index, elem);
            written.set(index, true);
            proof {
                assert(is_last_for(all, at, index as int));
                assert forall|i: int| 0 <= i < len && #[trigger] written@[i] implies exists|k: int|
                    pending@.len() <= k && is_last_for(all, k, i) && (#[trigger] all[k]).1
                        == output_vec@[i] by {
                    if i == index {
                        assert(is_last_for(all, at, i) && all[at].1 == output_vec@[i]);
                    } else {
                        assert(before_written[i]);
                        let k = choose|k: int|
                            at + 1 <= k && is_last_for(all, k, i) && (#[trigger] all[k]).1
                                == before_out[i];
                        assert(at <= k && is_last_for(all, k, i) && all[k].1 == output_vec@[i]);
                    }
                }
                assert forall|i: int| 0 <= i < len && !#[trigger] written@[i] implies {
                    &&& forall|k: int| at <= k < all.len() ==> (#[trigger] all[k]).0 != i
                    &&& call_ensures(U::default, (), output_vec@[i])
                } by {
                    assert(!before_written[i]);
                    assert(i != index);
                }
            }
        } else {
            proof {
                assert forall|i: int| 0 <= i < len && #[trigger] written@[i] implies exists|k: int|
                    pending@.len() <= k && is_last_for(all, k, i) && (#[trigger] all[k]).1
                        == output_vec@[i] by {
                    let k = choose|k: int|
                        at + 1 <= k && is_last_for(all, k, i) && (#[trigger] all[k]).1
                            == before_out[i];
                    assert(at <= k && is_last_for(all, k, i) && all[k].1 == output_vec@[i]);
                }
                assert forall|i: int| 0 <= i < len && !#[trigger] written@[i] implies {
                    &&& forall|k: int| at <= k < all.len() ==> (#[trigger] all[k]).0 != i
                    &&& call_ensures(U::default, (), output_vec@[i])
                } by {
                    assert(i != index);
                }
            }
        }
    }
    proof {
        assert forall|slot: int| 0 <= slot < len implies belongs_at(
            all,
            slot,
            #[trigger] output_vec@[slot],
        ) by {
            if written@[slot] {
                let k = choose|k: int|
                    0 <= k && is_last_for(all, k, slot) && (#[trigger] all[k]).1
                        == output_vec@[slot];
                assert(is_last_for(all, k, slot) && all[k].1 == output_vec@[slot]);
            }
        }
    }
    output_vec
}

} // verus!
