//! Ways an entry may repeat. The expansion of recurrence rules is not
//! implemented; these names describe the rule vocabulary.

use vstd::prelude::*;

verus! {

/// How often a rule fires.
#[derive(Debug, Clone)]
pub enum Freq {
    /// Every day.
    Daily,
    /// Every hour.
    Hourly,
    /// Every minute.
    Minutely,
    /// Every month.
    Monthly,
    /// Every week.
    Weekly,
    /// Every year.
    Yearly,
    /// Every second.
    Secondly,
    /// No repetition.
    Unspecified,
}

/// The refining clauses of a rule.
#[derive(Debug, Clone)]
pub enum Recurrence {
    /// No refinement.
    Unspecified,
}

/// Implemented by values that can describe a repetition.
pub trait Repeater: Sized {

}

} // verus!
