//! Upstream selection and failover: draw among the live upstreams, try to
//! connect, and mark dead whatever refuses, until a connection stands or no
//! upstream is left alive.

use crate::proxy::state::{
    is_kth_live, lemma_live_count_bounds, lemma_live_count_step, live_count, ProxyModel,
    ProxyState,
};
use crate::random::{draw_below, entropy_rng};
use vstd::prelude::*;

verus! {

/// Why no upstream connection could be had.
#[derive(Clone, Copy, Debug, PartialEq, Eq, Structural)]
pub enum SelectError {
    /// No configured upstream is marked alive.
    AllUpstreamsDead,
}

/// Marking a live entry dead lowers the live count by one.
pub proof fn lemma_marking_dead_lowers_count(alive: Seq<bool>, i: int)
    requires
        0 <= i < alive.len(),
        alive[i],
    ensures
        live_count(alive.update(i, false)) + 1 == live_count(alive),
    decreases alive.len(),
{
    let after = alive.update(i, false);
    if i == alive.len() - 1 {
        assert(after.drop_last() =~= alive.drop_last());
    } else {
        assert(after.drop_last() =~= alive.drop_last().update(i, false));
        lemma_marking_dead_lowers_count(alive.drop_last(), i);
    }
}

/// The liveness table after the entries at `marks` were marked dead, one
/// after the other; a mark past the end changes nothing.
pub open spec fn marked_dead(alive: Seq<bool>, marks: Seq<int>) -> Seq<bool>
    decreases marks.len(),
{
    if marks.len() == 0 {
        alive
    } else {
        let before = marked_dead(alive, marks.drop_last());
        if 0 <= marks.last() < before.len() {
            before.update(marks.last(), false)
        } else {
            before
        }
    }
}

/// Once every upstream has been marked dead, in whatever order and however
/// often, none is alive: every selection from then on fails.
pub proof fn lemma_all_marked_dead_leaves_none(alive: Seq<bool>, marks: Seq<int>)
    requires
        forall|i: int| 0 <= i < alive.len() ==> marks.contains(i),
    ensures
        marked_dead(alive, marks).len() == alive.len(),
        live_count(marked_dead(alive, marks)) == 0,
{
    lemma_marks_stay_dead(alive, marks);
    lemma_live_count_bounds(marked_dead(alive, marks));
}

/// An entry that was marked is dead in the end, whatever was marked after it.
proof fn lemma_marks_stay_dead(alive: Seq<bool>, marks: Seq<int>)
    ensures
        marked_dead(alive, marks).len() == alive.len(),
        forall|i: int|
            0 <= i < alive.len() && marks.contains(i) ==> !#[trigger] marked_dead(alive, marks)[i],
    decreases marks.len(),
{
    if marks.len() > 0 {
        let earlier = marks.drop_last();
        lemma_marks_stay_dead(alive, earlier);
        assert forall|i: int| 0 <= i < alive.len() && marks.contains(i) implies !#[trigger] marked_dead(
            alive,
            marks,
        )[i] by {
            if i != marks.last() {
                let k = choose|k: int| 0 <= k < marks.len() && marks[k] == i;
                assert(earlier[k] == i);
                assert(earlier.contains(i));
            }
        }
    }
}

/// The `k`-th live entry is unique.
pub proof fn lemma_kth_live_unique(alive: Seq<bool>, k: nat, i: int, j: int)
    requires
        is_kth_live(alive, k, i),
        is_kth_live(alive, k, j),
    ensures
        i == j,
{
    if i < j {
        lemma_count_grows_past_live(alive, i, j);
    } else if j < i {
        lemma_count_grows_past_live(alive, j, i);
    }
}

/// The count of live entries grows across a live entry.
proof fn lemma_count_grows_past_live(alive: Seq<bool>, i: int, j: int)
    requires
        0 <= i < j <= alive.len(),
        alive[i],
    ensures
        live_count(alive.take(i)) < live_count(alive.take(j)),
    decreases j - i,
{
    lemma_live_count_step(alive, j - 1);
    if i < j - 1 {
        lemma_count_grows_past_live(alive, i, j - 1);
    }
}

impl ProxyState {
    /// The upstream that a draw selects: none where every upstream is dead,
    /// otherwise the live upstream whose rank among the live ones is `draw`
    /// reduced modulo their number. A uniform draw thus gives each live
    /// upstream the same chance and a dead one none.
    pub fn choose_live(&self, draw: usize) -> (r: Option<usize>)
        ensures
            r is None <==> live_count(self@.alive) == 0,
            r matches Some(i) ==> is_kth_live(
                self@.alive,
                (draw as nat) % live_count(self@.alive),
                i as int,
            ),
    {
        let live = self.live_count();
        if live == 0 {
            None
        } else {
            self.nth_live(draw % live)
        }
    }

    /// Picks a live upstream at random, each with the same chance; `None`
    /// exactly where every upstream is dead.
    pub fn pick_upstream(&self) -> (r: Option<usize>)
        ensures
            r is None <==> live_count(self@.alive) == 0,
            r matches Some(i) ==> i < self@.alive.len() && self@.alive[i as int],
    {
        let live = self.live_count();
        if live == 0 {
            None
        } else {
            let mut rng = entropy_rng();
            let draw = draw_below(&mut rng, live);
            self.choose_live(draw)
        }
    }

    /// Obtains a connection to a live upstream. `connect` is asked to open a
    /// connection to the upstream at the index it is given. Live upstreams
    /// are tried in random order; one that refuses is marked dead and
    /// another is drawn, until a connection stands or no upstream is left
    /// alive.
    ///
    /// No upstream that is marked dead is ever tried, and the only change to
    /// the state is that upstreams whose attempt failed are marked dead.
    pub fn connect_to_upstream<C, F: Fn(usize) -> Option<C>>(&mut self, connect: F) -> (r: Result<
        (usize, C),
        SelectError,
    >)
        requires
            forall|i: usize| i < old(self)@.alive.len() ==> call_requires(connect, (i,)),
        ensures
            final(self)@ == (ProxyModel { alive: final(self)@.alive, ..old(self)@ }),
            final(self)@.alive.len() == old(self)@.alive.len(),
            forall|i: int|
                0 <= i < old(self)@.alive.len() && final(self)@.alive[i] ==> old(self)@.alive[i],
            forall|i: int|
                0 <= i < old(self)@.alive.len() && old(self)@.alive[i] && !final(self)@.alive[i]
                    ==> call_ensures(connect, (i as usize,), None::<C>),
            live_count(old(self)@.alive) == 0 ==> r is Err && final(self)@ == old(self)@,
            match r {
                Ok((i, c)) => {
                    &&& i < old(self)@.alive.len()
                    &&& old(self)@.alive[i as int]
                    &&& final(self)@.alive[i as int]
                    &&& call_ensures(connect, (i,), Some(c))
                },
                Err(e) => {
                    &&& e == SelectError::AllUpstreamsDead
                    &&& forall|i: int| 0 <= i < final(self)@.alive.len() ==> !final(self)@.alive[i]
                },
            },
    {
        if !self.has_live_upstream() {
            proof {
                lemma_live_count_bounds(self@.alive);
            }
            return Err(SelectError::AllUpstreamsDead);
        }
        let mut rng = entropy_rng();
        loop
            invariant
                self@ == (ProxyModel { alive: self@.alive, ..old(self)@ }),
                self@.alive.len() == old(self)@.alive.len(),
                forall|i: usize| i < old(self)@.alive.len() ==> call_requires(connect, (i,)),
                forall|i: int| 0 <= i < old(self)@.alive.len() && self@.alive[i] ==> old(self)@.alive[i],
                forall|i: int|
                    0 <= i < old(self)@.alive.len() && old(self)@.alive[i] && !self@.alive[i]
                        ==> call_ensures(connect, (i as usize,), None::<C>),
                live_count(old(self)@.alive) > 0,
            decreases live_count(self@.alive),
        {
            let live = self.live_count();
            if live == 0 {
                proof {
                    lemma_live_count_bounds(self@.alive);
                }
                return Err(SelectError::AllUpstreamsDead);
            }
            let draw = draw_below(&mut rng, live);
            match self.nth_live(draw) {
                Some(index) => {
                    match connect(index) {
                        Some(connection) => {
                            return Ok((index, connection));
                        },
                        None => {
                            proof {
                                lemma_marking_dead_lowers_count(self@.alive, index as int);
                            }
                            self.set_alive(index, false);
                        },
                    }
                },
                None => {
                    return Err(SelectError::AllUpstreamsDead);
                },
            }
        }
    }
}

} // verus!
