//! Parameters as the audio thread holds them, as far as they are counted
//! and not measured.

use vstd::prelude::*;
use crate::common::{ModTarget, ModTargetStorage};

verus! {

/// The modulation targets of an operator. The first operator has none; the
/// second can modulate one operator, the third two and the fourth three.
pub enum OperatorModulationTargetProcessingParameter {
    Two(ModTargetStorage<1>),
    Three(ModTargetStorage<2>),
    Four(ModTargetStorage<3>),
}

impl OperatorModulationTargetProcessingParameter {
    /// The flags, one for each operator below.
    pub open spec fn flags(&self) -> Seq<bool> {
        match self {
            Self::Two(targets) => targets@,
            Self::Three(targets) => targets@,
            Self::Four(targets) => targets@,
        }
    }

    /// The targets with which the operator of the given index starts: the
    /// operator just below it. The first operator, and an index beyond the
    /// fourth, has no targets.
    pub fn opt_new(operator_index: usize) -> (parameter: Option<Self>)
        ensures
            operator_index == 1 ==> parameter.is_some() && parameter.unwrap() is Two
                && parameter.unwrap().flags() == seq![true],
            operator_index == 2 ==> parameter.is_some() && parameter.unwrap() is Three
                && parameter.unwrap().flags() == seq![false, true],
            operator_index == 3 ==> parameter.is_some() && parameter.unwrap() is Four
                && parameter.unwrap().flags() == seq![false, false, true],
            operator_index == 0 || operator_index > 3 ==> parameter.is_none(),
    {
        if operator_index == 1 {
            Some(OperatorModulationTargetProcessingParameter::Two(ModTargetStorage::<1>::default()))
        } else if operator_index == 2 {
            Some(
                OperatorModulationTargetProcessingParameter::Three(
                    ModTargetStorage::<2>::default(),
                ),
            )
        } else if operator_index == 3 {
            Some(
                OperatorModulationTargetProcessingParameter::Four(ModTargetStorage::<3>::default()),
            )
        } else {
            None
        }
    }

    /// The flags, one for each operator below, lowest operator first.
    pub fn get_values(&self) -> (values: Vec<bool>)
        ensures
            values@ == self.flags(),
    {
        match self {
            Self::Two(targets) => flags_of(targets),
            Self::Three(targets) => flags_of(targets),
            Self::Four(targets) => flags_of(targets),
        }
    }

    /// The targets do not move between samples.
    pub fn advance_one_sample(&mut self)
        ensures
            *final(self) == *old(self),
    {
    }
}

fn flags_of<const N: usize>(targets: &ModTargetStorage<N>) -> (values: Vec<bool>)
    ensures
        values@ == targets@,
{
    proof {
        targets.lemma_len();
    }
    let mut values: Vec<bool> = Vec::new();
    let mut index: usize = 0;
    while index < N
        invariant
            index <= N,
            targets@.len() == N,
            values@ == targets@.subrange(0, index as int),
        decreases N - index,
    {
        values.push(targets.index_active(index));
        assert(values@ =~= targets@.subrange(0, index + 1));
        index += 1;
    }
    assert(targets@.subrange(0, N as int) =~= targets@);
    values
}

} // verus!
