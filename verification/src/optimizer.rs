use crate::seqs::is_permutation;
use vstd::prelude::*;

verus! {

/// The positions `0..n` in order: the arrangement a search starts from.
pub open spec fn identity(n: nat) -> Seq<usize> {
    Seq::new(n, |k: int| k as usize)
}

/// `s` with the items at `i` and `j` exchanged.
pub open spec fn swapped(s: Seq<usize>, i: int, j: int) -> Seq<usize> {
    s.update(i, s[j]).update(j, s[i])
}

/// The state of a pairwise-swap search over an arrangement of `n` tracks against an energy
/// curve of `n_func` points: the arrangement (which track plays at each position), the
/// pair (i, j) to try next, whether this sweep has improved anything, whether the search
/// is over, and whether a swap is waiting for its verdict.
pub struct SwapSearchView {
    pub order: Seq<usize>,
    pub n_func: nat,
    pub i: nat,
    pub j: nat,
    pub changed: bool,
    pub finished: bool,
    pub proposed: bool,
}

impl SwapSearchView {
    /// The state after a verdict on the swap of (i, j): the swap is undone unless it
    /// improved the fit, and the search moves to the next pair in row order; after the
    /// last pair a sweep starts over if it improved anything and the search ends if not.
    pub open spec fn after_verdict(self, improved: bool) -> SwapSearchView {
        let order = if improved {
            self.order
        } else {
            swapped(self.order, self.i as int, self.j as int)
        };
        let changed = self.changed || improved;
        if self.j + 1 < self.n_func {
            SwapSearchView { order, j: self.j + 1, changed, proposed: false, ..self }
        } else if self.i + 1 < self.order.len() {
            SwapSearchView { order, i: self.i + 1, j: 0, changed, proposed: false, ..self }
        } else if changed {
            SwapSearchView { order, i: 0, j: 0, changed: false, proposed: false, ..self }
        } else {
            SwapSearchView { order, changed, finished: true, proposed: false, ..self }
        }
    }
}

/// A hill-climbing search that rearranges tracks by trying every exchange of two
/// positions, keeping an exchange only when it makes the arrangement fit better, and
/// sweeping again as long as a sweep improved anything. The fit itself is judged by the
/// caller, who hands in the verdict for each proposed exchange.
pub struct SwapSearch {
    order: Vec<usize>,
    n_func: usize,
    i: usize,
    j: usize,
    changed: bool,
    finished: bool,
    proposed: bool,
}

impl View for SwapSearch {
    type V = SwapSearchView;

    closed spec fn view(&self) -> SwapSearchView {
        SwapSearchView {
            order: self.order@,
            n_func: self.n_func as nat,
            i: self.i as nat,
            j: self.j as nat,
            changed: self.changed,
            finished: self.finished,
            proposed: self.proposed,
        }
    }
}

impl SwapSearch {
    /// The arrangement is always a rearrangement of the tracks, and while the search runs
    /// the pair to try lies inside both the tracks and the curve.
    pub open spec fn well_formed(&self) -> bool {
        &&& is_permutation(self@.order, identity(self@.order.len()))
        &&& !self@.finished ==> self@.i < self@.order.len() && self@.j < self@.n_func
        &&& self@.n_func <= self@.order.len()
    }

    /// A search over `n_input` tracks in their given order against a curve of `n_func`
    /// points. With no track or no point there is nothing to try and the search is over.
    pub fn new(n_input: usize, n_func: usize) -> (r: SwapSearch)
        requires
            n_input == 0 || n_func <= n_input,
        ensures
            r.well_formed(),
            r@ == (SwapSearchView {
                order: identity(n_input as nat),
                n_func: if n_input == 0 { 0 } else { n_func as nat },
                i: 0,
                j: 0,
                changed: false,
                finished: n_input == 0 || n_func == 0,
                proposed: false,
            }),
    {
        let mut order: Vec<usize> = Vec::new();
        let mut k: usize = 0;
        while k < n_input
            invariant
                k <= n_input,
                order@ == identity(k as nat),
            decreases n_input - k,
        {
            order.push(k);
            assert(order@ =~= identity((k + 1) as nat));
            k = k + 1;
        }
        let n_func = if n_input == 0 {
            0
        } else {
            n_func
        };
        SwapSearch {
            order,
            n_func,
            i: 0,
            j: 0,
            changed: false,
            finished: n_input == 0 || n_func == 0,
            proposed: false,
        }
    }

    /// The pair of positions to try next, or `None` once the search is over.
    pub fn next_swap(&self) -> (r: Option<(usize, usize)>)
        ensures
            self@.finished ==> r is None,
            !self@.finished ==> r == Some((self@.i as usize, self@.j as usize)),
    {
        if self.finished {
            None
        } else {
            Some((self.i, self.j))
        }
    }

    /// The current arrangement: position k plays track `order[k]`.
    pub fn order(&self) -> (r: &Vec<usize>)
        ensures
            r@ == self@.order,
    {
        &self.order
    }

    /// Exchanges the tracks at the pair to try, so that the caller can judge the result.
    pub fn propose(&mut self)
        requires
            old(self).well_formed(),
            !old(self)@.finished,
            !old(self)@.proposed,
        ensures
            final(self).well_formed(),
            final(self)@.order.len() == old(self)@.order.len(),
            final(self)@.order[old(self)@.i as int] == old(self)@.order[old(self)@.j as int],
            final(self)@.order[old(self)@.j as int] == old(self)@.order[old(self)@.i as int],
            forall|p: int|
                0 <= p < old(self)@.order.len() && p != old(self)@.i && p != old(self)@.j
                    ==> #[trigger] final(self)@.order[p] == old(self)@.order[p],
            final(self)@ == (SwapSearchView {
                order: swapped(old(self)@.order, old(self)@.i as int, old(self)@.j as int),
                proposed: true,
                ..old(self)@
            }),
    {
        broadcast use vstd::seq_lib::group_to_multiset_ensures;

        let ghost before = self.order@;
        let a = self.order[self.i];
        let b = self.order[self.j];
        self.order.set(self.i, b);
        self.order.set(self.j, a);
        self.proposed = true;
        proof {
            let mid = before.update(self.i as int, b);
            assert(mid.to_multiset() =~= before.to_multiset().insert(b).remove(a));
            assert(self.order@.to_multiset() =~= mid.to_multiset().insert(a).remove(mid[self.j as int]));
            if self.i == self.j {
                assert(self.order@ =~= before);
            } else {
                assert(mid[self.j as int] == b);
            }
            assert(self.order@.to_multiset() =~= before.to_multiset());
        }
    }

    /// Takes the verdict on the proposed exchange: `improved` says whether the new
    /// arrangement fits strictly better than the best so far. A rejected exchange is undone.
    pub fn judge(&mut self, improved: bool)
        requires
            old(self).well_formed(),
            old(self)@.proposed,
            !old(self)@.finished,
        ensures
            final(self).well_formed(),
            final(self)@.order.len() == old(self)@.order.len(),
            improved ==> final(self)@.order == old(self)@.order,
            !improved ==> final(self)@.order[old(self)@.i as int] == old(self)@.order[old(
                self,
            )@.j as int] && final(self)@.order[old(self)@.j as int] == old(self)@.order[old(
                self,
            )@.i as int],
            !improved ==> forall|p: int|
                0 <= p < old(self)@.order.len() && p != old(self)@.i && p != old(self)@.j
                    ==> #[trigger] final(self)@.order[p] == old(self)@.order[p],
            final(self)@ == old(self)@.after_verdict(improved),
    {
        broadcast use vstd::seq_lib::group_to_multiset_ensures;

        let n = self.order.len();
        if !improved {
            let ghost before = self.order@;
            let a = self.order[self.i];
            let b = self.order[self.j];
            self.order.set(self.i, b);
            self.order.set(self.j, a);
            proof {
                let mid = before.update(self.i as int, b);
                assert(mid.to_multiset() =~= before.to_multiset().insert(b).remove(a));
                assert(self.order@.to_multiset() =~= mid.to_multiset().insert(a).remove(
                    mid[self.j as int],
                ));
                if self.i == self.j {
                    assert(self.order@ =~= before);
                } else {
                    assert(mid[self.j as int] == b);
                }
                assert(self.order@.to_multiset() =~= before.to_multiset());
            }
        }
        self.changed = self.changed || improved;
        self.proposed = false;
        if self.j + 1 < self.n_func {
            self.j = self.j + 1;
        } else if self.i + 1 < n {
            self.i = self.i + 1;
            self.j = 0;
        } else if self.changed {
            self.i = 0;
            self.j = 0;
            self.changed = false;
        } else {
            self.finished = true;
        }
    }
}

/// An exchange of positions `i` and `j`, in either order, puts the item from `j` at `i`
/// and the item from `i` at `j`, and leaves every other position and the length alone.
pub proof fn lemma_swapped_exchanges(s: Seq<usize>, i: int, j: int)
    requires
        0 <= i < s.len(),
        0 <= j < s.len(),
    ensures
        swapped(s, i, j).len() == s.len(),
        swapped(s, i, j)[i] == s[j],
        swapped(s, i, j)[j] == s[i],
        forall|p: int| 0 <= p < s.len() && p != i && p != j ==> #[trigger] swapped(s, i, j)[p] == s[p],
{
}

/// A rejected exchange leaves the arrangement as it was before the proposal: exchanging
/// the same two positions twice changes nothing.
pub proof fn lemma_rejected_swap_restores(s: Seq<usize>, i: int, j: int)
    requires
        0 <= i < s.len(),
        0 <= j < s.len(),
    ensures
        swapped(swapped(s, i, j), i, j) == s,
{
    assert(swapped(swapped(s, i, j), i, j) =~= s);
}

/// The search stops only on the verdict for the last pair of a sweep, when neither that
/// verdict nor any earlier one in the sweep kept an exchange; a kept exchange never ends it.
pub proof fn lemma_search_stops_after_quiet_sweep(s: SwapSearchView, improved: bool)
    requires
        !s.finished,
        s.after_verdict(improved).finished,
    ensures
        !improved,
        !s.changed,
        s.i + 1 >= s.order.len(),
        s.j + 1 >= s.n_func,
        s.after_verdict(improved).order == swapped(s.order, s.i as int, s.j as int),
{
}

/// A proposal followed by a rejection only moves the search to its next pair: the
/// arrangement is the one the proposal started from.
pub proof fn lemma_propose_then_reject(before: SwapSearchView)
    requires
        before.i < before.order.len(),
        before.j < before.order.len(),
    ensures
        (SwapSearchView {
            order: swapped(before.order, before.i as int, before.j as int),
            proposed: true,
            ..before
        }).after_verdict(false).order == before.order,
{
    lemma_rejected_swap_restores(before.order, before.i as int, before.j as int);
}

} // verus!
