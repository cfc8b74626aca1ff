//! Conditions joined by "and" and "or", and one pass over such a tree.
//!
//! A pass visits the conditions from left to right. The left side of a
//! node is always visited; the right side only where the left side has not
//! settled the node already. A condition that is not visited is not looked
//! at, and remembers what it did before.

use crate::wait::Observation;
use crate::wait::Probe;
use crate::wait::ProbeView;
use crate::wait::Wait;
use crate::wait::WaitView;
use std::ops::BitAnd;
use std::ops::BitOr;
use vstd::prelude::*;
use vstd::std_specs::convert::FromSpecImpl;
use vstd::std_specs::ops::BitAndSpecImpl;
use vstd::std_specs::ops::BitOrSpecImpl;

verus! {

/// One condition, or two trees of conditions joined by "or" or by "and".
///
/// Turning round is defined for single conditions only, before they are
/// joined: a tree has no `!`, since turning round a condition that remembers
/// is not the opposite answer, and no rewriting of the tree would make it
/// one.
#[derive(Debug, PartialEq, Eq)]
pub enum Waits<F> {
    Single(Wait<F>),
    Or(Box<(Waits<F>, Waits<F>)>),
    And(Box<(Waits<F>, Waits<F>)>),
}

/// What a [`Waits`] is: the tree of the views of its conditions.
pub enum WaitsView<F> {
    Single(WaitView<F>),
    Or(Box<WaitsView<F>>, Box<WaitsView<F>>),
    And(Box<WaitsView<F>>, Box<WaitsView<F>>),
}

impl<F> View for Waits<F> {
    type V = WaitsView<F>;

    open spec fn view(&self) -> WaitsView<F>
        decreases self,
    {
        match self {
            Waits::Single(wait) => WaitsView::Single(wait@),
            Waits::Or(sides) => WaitsView::Or(Box::new(sides.0@), Box::new(sides.1@)),
            Waits::And(sides) => WaitsView::And(Box::new(sides.0@), Box::new(sides.1@)),
        }
    }
}

/// What a pass over a tree comes to, given the looks that were taken for
/// it so far.
pub enum Pass<F> {
    /// The looks were enough. `met` is the tree's answer, `after` the tree
    /// with what its conditions now remember, and `next` the index of the
    /// first look that the pass did not use.
    Decided { met: bool, after: WaitsView<F>, next: int },
    /// The pass stands at a condition for which no look was handed in yet:
    /// `probe` is what it needs to see.
    Pending { probe: ProbeView<F> },
}

impl<F> WaitsView<F> {
    /// The number of conditions in the tree.
    pub open spec fn leaves(self) -> nat
        decreases self,
    {
        match self {
            WaitsView::Single(_) => 1,
            WaitsView::Or(left, right) => left.leaves() + right.leaves(),
            WaitsView::And(left, right) => left.leaves() + right.leaves(),
        }
    }

    /// The tree as it was made: the same conditions joined in the same way,
    /// with nothing remembered.
    pub open spec fn forgetting(self) -> WaitsView<F>
        decreases self,
    {
        match self {
            WaitsView::Single(wait) => WaitsView::Single(wait.forgetting()),
            WaitsView::Or(left, right) => WaitsView::Or(
                Box::new(left.forgetting()),
                Box::new(right.forgetting()),
            ),
            WaitsView::And(left, right) => WaitsView::And(
                Box::new(left.forgetting()),
                Box::new(right.forgetting()),
            ),
        }
    }

    /// The pass over this tree in which the conditions, in the order of
    /// their visits, are shown the looks `seen[from]`, `seen[from + 1]` and
    /// so on.
    ///
    /// A single condition uses one look. An "or" visits its left side, and
    /// its right side only where the left side is not met; an "and" visits
    /// its left side, and its right side only where the left side is met.
    /// The pass stops at the first condition for which `seen` holds no look,
    /// or one that answers another probe.
    pub open spec fn pass(self, seen: Seq<Observation>, from: int) -> Pass<F>
        decreases self,
    {
        match self {
            WaitsView::Single(wait) => {
                if 0 <= from < seen.len() && wait.answered_by(seen[from]) {
                    Pass::Decided {
                        met: wait.verdict(seen[from]),
                        after: WaitsView::Single(wait.after(seen[from])),
                        next: from + 1,
                    }
                } else {
                    Pass::Pending { probe: wait.probe() }
                }
            },
            WaitsView::Or(left, right) => match left.pass(seen, from) {
                Pass::Pending { probe } => Pass::Pending { probe },
                Pass::Decided { met, after, next } => {
                    if met {
                        Pass::Decided { met: true, after: WaitsView::Or(Box::new(after), right), next }
                    } else {
                        match right.pass(seen, next) {
                            Pass::Pending { probe } => Pass::Pending { probe },
                            Pass::Decided { met: right_met, after: right_after, next: end } => {
                                Pass::Decided {
                                    met: right_met,
                                    after: WaitsView::Or(Box::new(after), Box::new(right_after)),
                                    next: end,
                                }
                            },
                        }
                    }
                },
            },
            WaitsView::And(left, right) => match left.pass(seen, from) {
                Pass::Pending { probe } => Pass::Pending { probe },
                Pass::Decided { met, after, next } => {
                    if !met {
                        Pass::Decided {
                            met: false,
                            after: WaitsView::And(Box::new(after), right),
                            next,
                        }
                    } else {
                        match right.pass(seen, next) {
                            Pass::Pending { probe } => Pass::Pending { probe },
                            Pass::Decided { met: right_met, after: right_after, next: end } => {
                                Pass::Decided {
                                    met: right_met,
                                    after: WaitsView::And(Box::new(after), Box::new(right_after)),
                                    next: end,
                                }
                            },
                        }
                    }
                },
            },
        }
    }

    /// How many of the looks `seen[from]`, `seen[from + 1]` and so on the
    /// pass uses before it ends or stops.
    pub open spec fn looks_used(self, seen: Seq<Observation>, from: int) -> nat
        decreases self,
    {
        match self {
            WaitsView::Single(wait) => if self.pass(seen, from) is Decided {
                1
            } else {
                0
            },
            WaitsView::Or(left, right) => match left.pass(seen, from) {
                Pass::Pending { .. } => left.looks_used(seen, from),
                Pass::Decided { met, next, .. } => if met {
                    left.looks_used(seen, from)
                } else {
                    left.looks_used(seen, from) + right.looks_used(seen, next)
                },
            },
            WaitsView::And(left, right) => match left.pass(seen, from) {
                Pass::Pending { .. } => left.looks_used(seen, from),
                Pass::Decided { met, next, .. } => if !met {
                    left.looks_used(seen, from)
                } else {
                    left.looks_used(seen, from) + right.looks_used(seen, next)
                },
            },
        }
    }
}

/// What [`Waits::condition_met`] tells the caller to do.
#[derive(Clone, Debug, PartialEq, Eq)]
pub enum Step<F> {
    /// The pass is over: the tree is met, or it is not.
    Met(bool),
    /// The pass cannot go on before this has been looked at.
    Needs(Probe<F>),
}

/// What a [`Step`] is, with its texts as sequences of characters.
pub enum StepView<F> {
    Met(bool),
    Needs(ProbeView<F>),
}

impl<F> View for Step<F> {
    type V = StepView<F>;

    open spec fn view(&self) -> StepView<F> {
        match *self {
            Step::Met(met) => StepView::Met(met),
            Step::Needs(probe) => StepView::Needs(probe@),
        }
    }
}

impl<F: Copy> Waits<F> {
    /// Runs the pass over `seen[from..]` without touching the tree: the
    /// answer and the index of the first look not used, or the probe at
    /// which the pass stops.
    fn scan(&self, seen: &[Observation], from: usize) -> (found: Result<(bool, usize), Probe<F>>)
        requires
            from <= seen@.len(),
        ensures
            match self@.pass(seen@, from as int) {
                Pass::Decided { met, next, .. } => {
                    &&& found matches Ok(reached)
                    &&& reached.0 == met
                    &&& reached.1 == next
                    &&& from < next <= seen@.len()
                },
                Pass::Pending { probe } => found is Err && found->Err_0@ == probe,
            },
        decreases self,
    {
        match self {
            Waits::Single(wait) => {
                if from < seen.len() {
                    match wait.verdict(&seen[from]) {
                        Some(met) => Ok((met, from + 1)),
                        None => Err(wait.probe()),
                    }
                } else {
                    Err(wait.probe())
                }
            },
            Waits::Or(sides) => match sides.0.scan(seen, from) {
                Ok((met, next)) => {
                    if met {
                        Ok((true, next))
                    } else {
                        sides.1.scan(seen, next)
                    }
                },
                Err(probe) => Err(probe),
            },
            Waits::And(sides) => match sides.0.scan(seen, from) {
                Ok((met, next)) => {
                    if !met {
                        Ok((false, next))
                    } else {
                        sides.1.scan(seen, next)
                    }
                },
                Err(probe) => Err(probe),
            },
        }
    }
}

impl<F> Waits<F> {
    /// Runs a pass that is known to come to an end, and lets every
    /// condition that it visits take note of what it has to remember.
    fn settle(&mut self, seen: &[Observation], from: usize) -> (done: (bool, usize))
        requires
            from <= seen@.len(),
            old(self)@.pass(seen@, from as int) is Decided,
        ensures
            old(self)@.pass(seen@, from as int) == (Pass::Decided {
                met: done.0,
                after: final(self)@,
                next: done.1 as int,
            }),
            from < done.1 <= seen@.len(),
        decreases *old(self),
    {
        match self {
            Waits::Single(wait) => {
                let met = wait.condition_met(&seen[from]);
                (met.unwrap(), from + 1)
            },
            Waits::Or(sides) => {
                let (met, next) = sides.0.settle(seen, from);
                if met {
                    (true, next)
                } else {
                    sides.1.settle(seen, next)
                }
            },
            Waits::And(sides) => {
                let (met, next) = sides.0.settle(seen, from);
                if !met {
                    (false, next)
                } else {
                    sides.1.settle(seen, next)
                }
            },
        }
    }
}

impl<F: Copy> Waits<F> {
    /// One pass over the tree, as far as the looks in `seen` carry it.
    ///
    /// The caller starts a pass with no looks. While the answer is
    /// [`Step::Needs`], it takes the look that is asked for, adds what it
    /// saw to the end of `seen`, and calls again. Then the tree is unchanged.
    /// Once `seen` holds a look for every condition that the pass visits,
    /// the answer is [`Step::Met`], and the conditions that were visited
    /// have taken note of what they saw. Looks in `seen` beyond those are
    /// not used.
    pub fn condition_met(&mut self, seen: &[Observation]) -> (step: Step<F>)
        ensures
            match old(self)@.pass(seen@, 0) {
                Pass::Decided { met, after, .. } => step@ == StepView::<F>::Met(met) && final(self)@
                    == after,
                Pass::Pending { probe } => step@ == StepView::Needs(probe) && final(self)@ == old(
                    self,
                )@,
            },
    {
        match self.scan(seen, 0) {
            Ok(_) => {
                let (met, _) = self.settle(seen, 0);
                Step::Met(met)
            },
            Err(probe) => Step::Needs(probe),
        }
    }
}

impl<F> From<Wait<F>> for Waits<F> {
    /// The tree that holds the one condition `w`.
    fn from(w: Wait<F>) -> (tree: Waits<F>)
        ensures
            tree@ == WaitsView::Single(w@),
    {
        Waits::Single(w)
    }
}

impl<F> FromSpecImpl<Wait<F>> for Waits<F> {
    open spec fn obeys_from_spec() -> bool {
        true
    }

    open spec fn from_spec(w: Wait<F>) -> Waits<F> {
        Waits::Single(w)
    }
}

impl<F> BitOr<Wait<F>> for Wait<F> {
    type Output = Waits<F>;

    /// Joins this condition and the condition `other` by "or", this condition on the left.
    /// Nothing is looked at.
    fn bitor(self, other: Wait<F>) -> (tree: Waits<F>)
        ensures
            tree@ == WaitsView::Or(Box::new(WaitsView::Single(self@)), Box::new(WaitsView::Single(other@))),
    {
        let left = Waits::Single(self);
        let right = Waits::Single(other);
        assert(left@ == WaitsView::Single(self@) && right@ == WaitsView::Single(other@));
        Waits::Or(Box::new((left, right)))
    }
}

impl<F> BitOrSpecImpl<Wait<F>> for Wait<F> {
    open spec fn obeys_bitor_spec() -> bool {
        true
    }

    open spec fn bitor_req(self, other: Wait<F>) -> bool {
        true
    }

    open spec fn bitor_spec(self, other: Wait<F>) -> Waits<F> {
        Waits::Or(Box::new((Waits::Single(self), Waits::Single(other))))
    }
}

impl<F> BitAnd<Wait<F>> for Wait<F> {
    type Output = Waits<F>;

    /// Joins this condition and the condition `other` by "and", this condition on the left.
    /// Nothing is looked at.
    fn bitand(self, other: Wait<F>) -> (tree: Waits<F>)
        ensures
            tree@ == WaitsView::And(Box::new(WaitsView::Single(self@)), Box::new(WaitsView::Single(other@))),
    {
        let left = Waits::Single(self);
        let right = Waits::Single(other);
        assert(left@ == WaitsView::Single(self@) && right@ == WaitsView::Single(other@));
        Waits::And(Box::new((left, right)))
    }
}

impl<F> BitAndSpecImpl<Wait<F>> for Wait<F> {
    open spec fn obeys_bitand_spec() -> bool {
        true
    }

    open spec fn bitand_req(self, other: Wait<F>) -> bool {
        true
    }

    open spec fn bitand_spec(self, other: Wait<F>) -> Waits<F> {
        Waits::And(Box::new((Waits::Single(self), Waits::Single(other))))
    }
}

impl<F> BitOr<Waits<F>> for Wait<F> {
    type Output = Waits<F>;

    /// Joins this condition and the tree `other` by "or", this condition on the left.
    /// Nothing is looked at.
    fn bitor(self, other: Waits<F>) -> (tree: Waits<F>)
        ensures
            tree@ == WaitsView::Or(Box::new(WaitsView::Single(self@)), Box::new(other@)),
    {
        let left = Waits::Single(self);
        let right = other;
        assert(left@ == WaitsView::Single(self@) && right@ == other@);
        Waits::Or(Box::new((left, right)))
    }
}

impl<F> BitOrSpecImpl<Waits<F>> for Wait<F> {
    open spec fn obeys_bitor_spec() -> bool {
        true
    }

    open spec fn bitor_req(self, other: Waits<F>) -> bool {
        true
    }

    open spec fn bitor_spec(self, other: Waits<F>) -> Waits<F> {
        Waits::Or(Box::new((Waits::Single(self), other)))
    }
}

impl<F> BitAnd<Waits<F>> for Wait<F> {
    type Output = Waits<F>;

    /// Joins this condition and the tree `other` by "and", this condition on the left.
    /// Nothing is looked at.
    fn bitand(self, other: Waits<F>) -> (tree: Waits<F>)
        ensures
            tree@ == WaitsView::And(Box::new(WaitsView::Single(self@)), Box::new(other@)),
    {
        let left = Waits::Single(self);
        let right = other;
        assert(left@ == WaitsView::Single(self@) && right@ == other@);
        Waits::And(Box::new((left, right)))
    }
}

impl<F> BitAndSpecImpl<Waits<F>> for Wait<F> {
    open spec fn obeys_bitand_spec() -> bool {
        true
    }

    open spec fn bitand_req(self, other: Waits<F>) -> bool {
        true
    }

    open spec fn bitand_spec(self, other: Waits<F>) -> Waits<F> {
        Waits::And(Box::new((Waits::Single(self), other)))
    }
}

impl<F> BitOr<Wait<F>> for Waits<F> {
    type Output = Waits<F>;

    /// Joins this tree and the condition `other` by "or", this tree on the left.
    /// Nothing is looked at.
    fn bitor(self, other: Wait<F>) -> (tree: Waits<F>)
        ensures
            tree@ == WaitsView::Or(Box::new(self@), Box::new(WaitsView::Single(other@))),
    {
        let left = self;
        let right = Waits::Single(other);
        assert(left@ == self@ && right@ == WaitsView::Single(other@));
        Waits::Or(Box::new((left, right)))
    }
}

impl<F> BitOrSpecImpl<Wait<F>> for Waits<F> {
    open spec fn obeys_bitor_spec() -> bool {
        true
    }

    open spec fn bitor_req(self, other: Wait<F>) -> bool {
        true
    }

    open spec fn bitor_spec(self, other: Wait<F>) -> Waits<F> {
        Waits::Or(Box::new((self, Waits::Single(other))))
    }
}

impl<F> BitAnd<Wait<F>> for Waits<F> {
    type Output = Waits<F>;

    /// Joins this tree and the condition `other` by "and", this tree on the left.
    /// Nothing is looked at.
    fn bitand(self, other: Wait<F>) -> (tree: Waits<F>)
        ensures
            tree@ == WaitsView::And(Box::new(self@), Box::new(WaitsView::Single(other@))),
    {
        let left = self;
        let right = Waits::Single(other);
        assert(left@ == self@ && right@ == WaitsView::Single(other@));
        Waits::And(Box::new((left, right)))
    }
}

impl<F> BitAndSpecImpl<Wait<F>> for Waits<F> {
    open spec fn obeys_bitand_spec() -> bool {
        true
    }

    open spec fn bitand_req(self, other: Wait<F>) -> bool {
        true
    }

    open spec fn bitand_spec(self, other: Wait<F>) -> Waits<F> {
        Waits::And(Box::new((self, Waits::Single(other))))
    }
}

impl<F> BitOr<Waits<F>> for Waits<F> {
    type Output = Waits<F>;

    /// Joins this tree and the tree `other` by "or", this tree on the left.
    /// Nothing is looked at.
    fn bitor(self, other: Waits<F>) -> (tree: Waits<F>)
        ensures
            tree@ == WaitsView::Or(Box::new(self@), Box::new(other@)),
    {
        let left = self;
        let right = other;
        assert(left@ == self@ && right@ == other@);
        Waits::Or(Box::new((left, right)))
    }
}

impl<F> BitOrSpecImpl<Waits<F>> for Waits<F> {
    open spec fn obeys_bitor_spec() -> bool {
        true
    }

    open spec fn bitor_req(self, other: Waits<F>) -> bool {
        true
    }

    open spec fn bitor_spec(self, other: Waits<F>) -> Waits<F> {
        Waits::Or(Box::new((self, other)))
    }
}

impl<F> BitAnd<Waits<F>> for Waits<F> {
    type Output = Waits<F>;

    /// Joins this tree and the tree `other` by "and", this tree on the left.
    /// Nothing is looked at.
    fn bitand(self, other: Waits<F>) -> (tree: Waits<F>)
        ensures
            tree@ == WaitsView::And(Box::new(self@), Box::new(other@)),
    {
        let left = self;
        let right = other;
        assert(left@ == self@ && right@ == other@);
        Waits::And(Box::new((left, right)))
    }
}

impl<F> BitAndSpecImpl<Waits<F>> for Waits<F> {
    open spec fn obeys_bitand_spec() -> bool {
        true
    }

    open spec fn bitand_req(self, other: Waits<F>) -> bool {
        true
    }

    open spec fn bitand_spec(self, other: Waits<F>) -> Waits<F> {
        Waits::And(Box::new((self, other)))
    }
}

/// The left side comes first: where the pass over the left side stands
/// before a look, the pass over the node stands before the same look,
/// whatever the right side is.
pub proof fn lemma_left_side_first<F>(
    left: WaitsView<F>,
    right: WaitsView<F>,
    seen: Seq<Observation>,
    from: int,
)
    requires
        left.pass(seen, from) is Pending,
    ensures
        WaitsView::Or(Box::new(left), Box::new(right)).pass(seen, from) == left.pass(seen, from),
        WaitsView::And(Box::new(left), Box::new(right)).pass(seen, from) == left.pass(seen, from),
{
}

/// An "or" whose left side is met is met, and its right side is not
/// visited: the right side is as it was, and the pass has used the looks of
/// the left side and no more.
pub proof fn lemma_or_stops_when_met<F>(
    left: WaitsView<F>,
    right: WaitsView<F>,
    seen: Seq<Observation>,
    from: int,
)
    requires
        left.pass(seen, from) is Decided,
        left.pass(seen, from)->met,
    ensures
        WaitsView::Or(Box::new(left), Box::new(right)).pass(seen, from) == (Pass::Decided {
            met: true,
            after: WaitsView::Or(Box::new(left.pass(seen, from)->after), Box::new(right)),
            next: left.pass(seen, from)->next,
        }),
{
}

/// An "and" whose left side is not met is not met, and its right side is
/// not visited: the right side is as it was, and the pass has used the
/// looks of the left side and no more.
pub proof fn lemma_and_stops_when_unmet<F>(
    left: WaitsView<F>,
    right: WaitsView<F>,
    seen: Seq<Observation>,
    from: int,
)
    requires
        left.pass(seen, from) is Decided,
        !left.pass(seen, from)->met,
    ensures
        WaitsView::And(Box::new(left), Box::new(right)).pass(seen, from) == (Pass::Decided {
            met: false,
            after: WaitsView::And(Box::new(left.pass(seen, from)->after), Box::new(right)),
            next: left.pass(seen, from)->next,
        }),
{
}

/// Where the left side does not settle a node, the right side is visited
/// with the looks that follow those of the left side, and its answer is the
/// node's.
pub proof fn lemma_right_side_settles<F>(
    left: WaitsView<F>,
    right: WaitsView<F>,
    seen: Seq<Observation>,
    from: int,
)
    requires
        left.pass(seen, from) is Decided,
    ensures
        ({
            let first = left.pass(seen, from);
            let second = right.pass(seen, first->next);
            let or = WaitsView::Or(Box::new(left), Box::new(right)).pass(seen, from);
            let and = WaitsView::And(Box::new(left), Box::new(right)).pass(seen, from);
            &&& !first->met ==> (or is Decided <==> second is Decided)
            &&& !first->met && second is Decided ==> or == (Pass::Decided {
                met: second->met,
                after: WaitsView::Or(Box::new(first->after), Box::new(second->after)),
                next: second->next,
            })
            &&& first->met ==> (and is Decided <==> second is Decided)
            &&& first->met && second is Decided ==> and == (Pass::Decided {
                met: second->met,
                after: WaitsView::And(Box::new(first->after), Box::new(second->after)),
                next: second->next,
            })
        }),
{
}

/// A pass that has come to an end has used at least one look, none before
/// `from` and none that `seen` does not hold; and looks added behind those
/// in `seen` change nothing of it.
pub proof fn lemma_pass_ignores_the_rest<F>(
    tree: WaitsView<F>,
    seen: Seq<Observation>,
    more: Seq<Observation>,
    from: int,
)
    requires
        tree.pass(seen, from) is Decided,
    ensures
        0 <= from < tree.pass(seen, from)->next <= seen.len(),
        tree.pass(seen + more, from) == tree.pass(seen, from),
    decreases tree,
{
    match tree {
        WaitsView::Single(wait) => {
            assert((seen + more)[from] == seen[from]);
        },
        WaitsView::Or(left, right) => {
            lemma_pass_ignores_the_rest(*left, seen, more, from);
            let first = left.pass(seen, from);
            if !first->met {
                lemma_pass_ignores_the_rest(*right, seen, more, first->next);
            }
        },
        WaitsView::And(left, right) => {
            lemma_pass_ignores_the_rest(*left, seen, more, from);
            let first = left.pass(seen, from);
            if first->met {
                lemma_pass_ignores_the_rest(*right, seen, more, first->next);
            }
        },
    }
}

/// A pass changes nothing of a tree but what its conditions remember: the
/// conditions and the way they are joined stay.
pub proof fn lemma_pass_changes_memory_only<F>(
    tree: WaitsView<F>,
    seen: Seq<Observation>,
    from: int,
)
    requires
        tree.pass(seen, from) is Decided,
    ensures
        tree.pass(seen, from)->after.forgetting() == tree.forgetting(),
        tree.pass(seen, from)->after.leaves() == tree.leaves(),
    decreases tree,
{
    match tree {
        WaitsView::Single(wait) => {},
        WaitsView::Or(left, right) => {
            lemma_pass_changes_memory_only(*left, seen, from);
            let first = left.pass(seen, from);
            if !first->met {
                lemma_pass_changes_memory_only(*right, seen, first->next);
            }
        },
        WaitsView::And(left, right) => {
            lemma_pass_changes_memory_only(*left, seen, from);
            let first = left.pass(seen, from);
            if first->met {
                lemma_pass_changes_memory_only(*right, seen, first->next);
            }
        },
    }
}

/// A pass uses no more looks than the tree has conditions, each of them
/// once; and a pass that has come to an end has used the looks from `from`
/// up to where it ended.
pub proof fn lemma_looks_used<F>(tree: WaitsView<F>, seen: Seq<Observation>, from: int)
    ensures
        tree.looks_used(seen, from) <= tree.leaves(),
        tree.pass(seen, from) is Decided ==> tree.pass(seen, from)->next == from + tree.looks_used(
            seen,
            from,
        ),
    decreases tree,
{
    match tree {
        WaitsView::Single(wait) => {},
        WaitsView::Or(left, right) => {
            lemma_looks_used(*left, seen, from);
            let first = left.pass(seen, from);
            if first is Decided {
                lemma_looks_used(*right, seen, first->next);
            }
        },
        WaitsView::And(left, right) => {
            lemma_looks_used(*left, seen, from);
            let first = left.pass(seen, from);
            if first is Decided {
                lemma_looks_used(*right, seen, first->next);
            }
        },
    }
}

/// A pass that starts where the looks end stops at once: it uses none, and
/// stands before the look of the tree's leftmost condition.
pub proof fn lemma_stopped_pass_uses_nothing<F>(tree: WaitsView<F>, seen: Seq<Observation>)
    ensures
        tree.pass(seen, seen.len() as int) is Pending,
        tree.looks_used(seen, seen.len() as int) == 0,
    decreases tree,
{
    match tree {
        WaitsView::Single(wait) => {},
        WaitsView::Or(left, right) => {
            lemma_stopped_pass_uses_nothing(*left, seen);
        },
        WaitsView::And(left, right) => {
            lemma_stopped_pass_uses_nothing(*left, seen);
        },
    }
}

/// Each look that is asked for and handed in carries the pass one
/// condition further. Where a pass has used all of `seen` and stands
/// before a look, and `look` answers the probe it asks for, the pass over
/// `seen` with `look` added uses `look` as well: it ends there, or stands
/// before the look of a later condition.
///
/// So a driver that starts with no looks and adds the look asked for each
/// time is told [`Step::Met`] after no more looks than the tree has
/// conditions.
pub proof fn lemma_pass_goes_on<F>(
    tree: WaitsView<F>,
    seen: Seq<Observation>,
    look: Observation,
    from: int,
)
    requires
        0 <= from,
        from + tree.looks_used(seen, from) == seen.len(),
        tree.pass(seen, from) is Pending,
        tree.pass(seen, from)->probe.answered_by(look),
    ensures
        tree.looks_used(seen.push(look), from) == tree.looks_used(seen, from) + 1,
        from + tree.looks_used(seen.push(look), from) == seen.push(look).len(),
    decreases tree,
{
    let longer = seen.push(look);
    assert(longer =~= seen + seq![look]);
    match tree {
        WaitsView::Single(wait) => {
            assert(tree.looks_used(seen, from) == 0);
            assert(longer[from] == look);
            assert(wait.answered_by(look));
            assert(tree.pass(longer, from) is Decided);
        },
        WaitsView::Or(left, right) => {
            let first = left.pass(seen, from);
            lemma_looks_used(*left, seen, from);
            if first is Decided {
                lemma_pass_ignores_the_rest(*left, seen, seq![look], from);
                lemma_looks_used(*left, longer, from);
                lemma_pass_goes_on(*right, seen, look, first->next);
            } else {
                lemma_pass_goes_on(*left, seen, look, from);
                lemma_looks_used(*left, longer, from);
                lemma_stopped_pass_uses_nothing(*right, longer);
            }
        },
        WaitsView::And(left, right) => {
            let first = left.pass(seen, from);
            lemma_looks_used(*left, seen, from);
            if first is Decided {
                lemma_pass_ignores_the_rest(*left, seen, seq![look], from);
                lemma_looks_used(*left, longer, from);
                lemma_pass_goes_on(*right, seen, look, first->next);
            } else {
                lemma_pass_goes_on(*left, seen, look, from);
                lemma_looks_used(*left, longer, from);
                lemma_stopped_pass_uses_nothing(*right, longer);
            }
        },
    }
}

} // verus!
