//! The five ranks by which recognizers are tried.

use vstd::prelude::*;

verus! {

/// The rank of a kind of word. Kinds of a higher rank are tried first.
#[derive(Clone, Copy, Debug, PartialEq, Eq, Structural, Hash)]
pub enum Priority {
    Highest,
    HighMid,
    Mid,
    LowMid,
    Lowest,
}

impl Priority {
    /// The weight of a rank, from 5 for `Highest` down to 1 for `Lowest`.
    pub open spec fn weight(self) -> u8 {
        match self {
            Priority::Highest => 5,
            Priority::HighMid => 4,
            Priority::Mid => 3,
            Priority::LowMid => 2,
            Priority::Lowest => 1,
        }
    }

    /// The place of a rank in the trial order: 0 for `Highest`, 4 for `Lowest`.
    pub open spec fn place(self) -> int {
        5 - self.weight()
    }

    /// The ranks in the order in which they are tried.
    pub open spec fn trial_order() -> Seq<Priority> {
        seq![
            Priority::Highest,
            Priority::HighMid,
            Priority::Mid,
            Priority::LowMid,
            Priority::Lowest,
        ]
    }

    /// All five ranks, from the highest to the lowest.
    pub fn list() -> (ranks: [Priority; 5])
        ensures
            ranks@ == Priority::trial_order(),
    {
        let ranks = [
            Priority::Highest,
            Priority::HighMid,
            Priority::Mid,
            Priority::LowMid,
            Priority::Lowest,
        ];
        assert(ranks@ =~= Priority::trial_order());
        ranks
    }

    /// The weight of this rank as a number.
    pub fn number(self) -> (w: u8)
        ensures
            w == self.weight(),
    {
        match self {
            Priority::Highest => 5,
            Priority::HighMid => 4,
            Priority::Mid => 3,
            Priority::LowMid => 2,
            Priority::Lowest => 1,
        }
    }

    /// Every rank stands in the trial order exactly once, at its place, and
    /// the order runs from the heaviest rank to the lightest.
    pub proof fn trial_order_is_total()
        ensures
            Priority::trial_order().len() == 5,
            forall|p: Priority| 0 <= p.place() < 5 && #[trigger] Priority::trial_order()[p.place()] == p,
            forall|i: int| 0 <= i < 5 ==> (#[trigger] Priority::trial_order()[i]).place() == i,
            forall|p: Priority, q: Priority| p.place() < q.place() <==> p.weight() > q.weight(),
            forall|p: Priority, q: Priority| p.weight() == q.weight() ==> p == q,
    {
    }
}

} // verus!
