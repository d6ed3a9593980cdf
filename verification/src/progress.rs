//! Progress of a batch as a ratio of two counts, and what a boot
//! sequence is to do with it.
//!
//! The counts are exact; whoever draws a progress bar divides them.

use vstd::prelude::*;
use crate::loader::Loader;

verus! {

/// A part of a whole, as two counts.
#[derive(Debug, Clone, Copy, PartialEq, Eq, Structural)]
pub struct Ratio {
    /// The part.
    pub part: usize,
    /// The whole.
    pub whole: usize,
}

impl Ratio {
    /// The two counts as natural numbers.
    pub open spec fn counts(self) -> (nat, nat) {
        (self.part as nat, self.whole as nat)
    }

    /// The ratio lies between zero and one: its whole is not zero and its
    /// part is no more than the whole.
    pub open spec fn proper(self) -> bool {
        0 < self.whole && self.part <= self.whole
    }

    /// One of one.
    pub fn full() -> (ratio: Ratio)
        ensures
            ratio.counts() == (1nat, 1nat),
            ratio.proper(),
    {
        Ratio { part: 1, whole: 1 }
    }
}

/// What a boot sequence does next.
#[derive(Debug, Clone, Copy, PartialEq, Eq, Structural)]
pub enum BootUpdate {
    /// The batch is done: the boot screen goes away.
    Finish,
    /// The batch is not done: the progress shown moves towards this ratio.
    Progress(Ratio),
}

/// Decides what a boot sequence does next with its loader. When the batch
/// is done the boot screen is to go away. Until then the progress to show
/// is the upper one, which counts the request that is being loaded as if
/// it had come to an end, so that the bar can reach its end before the
/// screen goes away.
pub fn update_boot(loader: &Loader) -> (update: BootUpdate)
    ensures
        loader@.is_done() ==> update == BootUpdate::Finish,
        !loader@.is_done() ==> (update matches BootUpdate::Progress(ratio) && ratio.counts()
            == loader@.upper_progress() && ratio.proper()),
{
    if loader.is_done() {
        BootUpdate::Finish
    } else {
        BootUpdate::Progress(loader.upper_progress())
    }
}

} // verus!
