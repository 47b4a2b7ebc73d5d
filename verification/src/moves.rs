//! A move: an ordered sequence of actions, with coalescing of consecutive
//! advancements.

use vstd::prelude::*;
use crate::action::{Action, Advance};
use crate::cube::abs_int;

verus! {

/// The distance carried by an advancement action, and `0` for every other
/// action.
pub open spec fn advance_distance(a: Action) -> int {
    match a {
        Action::Advance(ad) => ad.distance as int,
        _ => 0,
    }
}

/// Whether the action is an advancement.
pub open spec fn is_advance(a: Action) -> bool {
    a is Advance
}

/// The coalescing of a sequence of actions: every run of consecutive
/// advancements is merged into a single advancement carrying the summed
/// distance; all other actions are kept as they are.
pub open spec fn coalesce_seq(s: Seq<Action>) -> Seq<Action>
    decreases s.len(),
{
    if s.len() == 0 {
        Seq::empty()
    } else {
        let prev = coalesce_seq(s.drop_last());
        let a = s.last();
        if prev.len() > 0 && is_advance(prev.last()) && is_advance(a) {
            prev.update(
                prev.len() - 1,
                Action::Advance(
                    Advance { distance: (advance_distance(prev.last()) + advance_distance(a)) as i32 },
                ),
            )
        } else {
            prev.push(a)
        }
    }
}

/// Coalescing never lengthens a sequence of actions.
pub proof fn lemma_coalesce_len(s: Seq<Action>)
    ensures
        coalesce_seq(s).len() <= s.len(),
    decreases s.len(),
{
    if s.len() > 0 {
        lemma_coalesce_len(s.drop_last());
    }
}

/// A game move.
#[derive(Debug, Clone, PartialEq, Eq, Hash)]
pub struct Move {
    pub actions: Vec<Action>,
}

impl Move {
    /// The move is small enough for the engine's cost arithmetic: no more
    /// than 1000 actions, each carrying numbers of magnitude at most a
    /// million.
    pub open spec fn wf(self) -> bool {
        &&& self.actions@.len() <= 1000
        &&& forall|i: int| 0 <= i < self.actions@.len() ==> (#[trigger] self.actions@[i]).bounded()
    }

    /// Creates an empty move.
    pub fn new() -> (r: Move)
        ensures
            r.actions@ == Seq::<Action>::empty(),
            r.wf(),
    {
        Move { actions: Vec::new() }
    }

    /// The last action within the move.
    pub fn last(&self) -> (r: Option<Action>)
        ensures
            r == if self.actions@.len() == 0 {
                None::<Action>
            } else {
                Some(self.actions@.last())
            },
    {
        if self.actions.len() == 0 {
            None
        } else {
            Some(self.actions[self.actions.len() - 1])
        }
    }

    /// The actions within this move, in order.
    pub fn iter(&self) -> (r: &Vec<Action>)
        ensures
            r == &self.actions,
    {
        &self.actions
    }

    /// Whether the move contains no actions.
    pub fn is_empty(&self) -> (r: bool)
        ensures
            r == (self.actions@.len() == 0),
    {
        self.actions.len() == 0
    }

    /// The move extended by one more action.
    pub fn child(&self, action: Action) -> (r: Move)
        ensures
            r.actions@ == self.actions@.push(action),
    {
        let mut actions = self.actions.clone();
        actions.push(action);
        Move { actions }
    }

    /// Whether any action of the move is a push.
    pub fn contains_push(&self) -> (r: bool)
        ensures
            r == exists|i: int| 0 <= i < self.actions@.len() && (#[trigger] self.actions@[i]) is Push,
    {
        let n = self.actions.len();
        let mut i: usize = 0;
        while i < n
            invariant
                0 <= i <= n,
                n == self.actions@.len(),
                forall|j: int| 0 <= j < i ==> !((#[trigger] self.actions@[j]) is Push),
            decreases n - i,
        {
            if let Action::Push(_) = self.actions[i] {
                return true;
            }
            i = i + 1;
        }
        false
    }

    /// Coalesces advances.
    pub fn coalesced(&self) -> (r: Move)
        requires
            self.wf(),
        ensures
            r.actions@ == coalesce_seq(self.actions@),
            r.actions@.len() <= self.actions@.len(),
            forall|j: int|
                0 <= j < r.actions@.len() ==> abs_int(advance_distance(#[trigger] r.actions@[j]))
                    <= 1_000_000_000,
            forall|j: int|
                0 <= j < r.actions@.len() ==> ((#[trigger] r.actions@[j]) is Accelerate
                    ==> r.actions@[j].bounded()),
    {
        let ghost s = self.actions@;
        let n = self.actions.len();
        let mut out: Vec<Action> = Vec::new();
        let mut i: usize = 0;
        while i < n
            invariant
                0 <= i <= n,
                n == s.len(),
                s == self.actions@,
                self.wf(),
                out@ == coalesce_seq(s.take(i as int)),
                forall|j: int|
                    0 <= j < out@.len() ==> abs_int(advance_distance(#[trigger] out@[j]))
                        <= (i as int) * 1_000_000,
                forall|j: int|
                    0 <= j < out@.len() ==> ((#[trigger] out@[j]) is Accelerate
                        ==> out@[j].bounded()),
            decreases n - i,
        {
            let a = self.actions[i];
            proof {
                assert(s.take(i + 1).drop_last() =~= s.take(i as int));
                assert(s.take(i + 1).last() == s[i as int]);
            }
            let n_out = out.len();
            let mut merged = false;
            if n_out > 0 {
                let last = out[n_out - 1];
                if let (Action::Advance(p), Action::Advance(c)) = (last, a) {
                    let _ = out.pop();
                    out.push(Action::Advance(Advance { distance: p.distance + c.distance }));
                    merged = true;
                    proof {
                        assert(out@ =~= coalesce_seq(s.take(i as int)).update(
                            n_out - 1,
                            Action::Advance(
                                Advance {
                                    distance: (advance_distance(coalesce_seq(s.take(i as int)).last())
                                        + advance_distance(s[i as int])) as i32,
                                },
                            ),
                        ));
                    }
                }
            }
            if !merged {
                out.push(a);
            }
            i = i + 1;
            proof {
                assert(out@ =~= coalesce_seq(s.take(i as int)));
            }
        }
        proof {
            assert(s.take(n as int) =~= s);
            lemma_coalesce_len(s);
        }
        Move { actions: out }
    }
}

impl Default for Move {
    /// The empty move.
    fn default() -> (r: Move)
        ensures
            r.actions@ == Seq::<Action>::empty(),
    {
        Move { actions: Vec::new() }
    }
}

} // verus!
