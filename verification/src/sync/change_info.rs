//! Which parameters have changed since the other side last looked.

use vstd::prelude::*;

verus! {

/// The largest number of parameters that changes are recorded for.
pub const MAX_NUM_PARAMETERS: usize = 128;

/// One flag per parameter: set when the parameter has changed, cleared when
/// the changes are fetched.
pub struct ParameterChangeInfo {
    changed: Vec<bool>,
}

/// What is reported for the parameter at one place: its value if it has
/// changed and exists.
pub open spec fn reported(flags: Seq<bool>, values: Seq<u32>, i: int) -> Option<u32> {
    if flags[i] && i < values.len() {
        Some(values[i])
    } else {
        None
    }
}

/// Whether any flag is set.
pub open spec fn any_set(flags: Seq<bool>) -> bool {
    exists|i: int| 0 <= i < flags.len() && flags[i]
}

impl ParameterChangeInfo {
    /// The flags, by parameter index.
    pub closed spec fn flags(&self) -> Seq<bool> {
        self.changed@
    }

    /// There is a flag for each parameter that can be recorded.
    pub open spec fn well_formed(&self) -> bool {
        self.flags().len() == MAX_NUM_PARAMETERS
    }

    /// No parameter has changed.
    pub fn new() -> (info: Self)
        ensures
            info.well_formed(),
            forall|i: int| 0 <= i < MAX_NUM_PARAMETERS ==> !info.flags()[i],
    {
        let mut changed: Vec<bool> = Vec::new();
        let mut i: usize = 0;
        while i < MAX_NUM_PARAMETERS
            invariant
                i <= MAX_NUM_PARAMETERS,
                changed@.len() == i,
                forall|j: int| 0 <= j < i ==> !changed@[j],
            decreases MAX_NUM_PARAMETERS - i,
        {
            changed.push(false);
            i += 1;
        }
        ParameterChangeInfo { changed }
    }

    /// Records that one parameter has changed.
    pub fn mark_as_changed(&mut self, index: usize)
        requires
            old(self).well_formed(),
            index < MAX_NUM_PARAMETERS,
        ensures
            final(self).well_formed(),
            final(self).flags() == old(self).flags().update(index as int, true),
    {
        self.changed.set(index, true);
    }

    /// Records that every parameter has changed.
    pub fn mark_all_as_changed(&mut self)
        requires
            old(self).well_formed(),
        ensures
            final(self).well_formed(),
            forall|i: int| 0 <= i < MAX_NUM_PARAMETERS ==> final(self).flags()[i],
    {
        let mut i: usize = 0;
        while i < MAX_NUM_PARAMETERS
            invariant
                i <= MAX_NUM_PARAMETERS,
                self.well_formed(),
                forall|j: int| 0 <= j < i ==> self.flags()[j],
            decreases MAX_NUM_PARAMETERS - i,
        {
            self.changed.set(i, true);
            i += 1;
        }
    }

    /// Whether anything has changed.
    pub fn changes_exist(&self) -> (any: bool)
        requires
            self.well_formed(),
        ensures
            any == any_set(self.flags()),
    {
        let mut i: usize = 0;
        while i < MAX_NUM_PARAMETERS
            invariant
                i <= MAX_NUM_PARAMETERS,
                self.well_formed(),
                forall|j: int| 0 <= j < i ==> !self.flags()[j],
            decreases MAX_NUM_PARAMETERS - i,
        {
            if self.changed[i] {
                return true;
            }
            i += 1;
        }
        false
    }

    /// Fetches the changes: nothing where no parameter has changed, else
    /// for each parameter that has changed its value, taken from `values`.
    /// Afterwards no parameter counts as changed.
    pub fn get_changed_parameters(&mut self, values: &Vec<u32>) -> (changes: Option<
        Vec<Option<u32>>,
    >)
        requires
            old(self).well_formed(),
        ensures
            final(self).well_formed(),
            forall|i: int| 0 <= i < MAX_NUM_PARAMETERS ==> !final(self).flags()[i],
            changes.is_some() == any_set(old(self).flags()),
            changes.is_some() ==> {
                &&& changes.unwrap()@.len() == MAX_NUM_PARAMETERS
                &&& forall|i: int|
                    0 <= i < MAX_NUM_PARAMETERS ==> #[trigger] changes.unwrap()@[i] == reported(
                        old(self).flags(),
                        values@,
                        i,
                    )
            },
    {
        if !self.changes_exist() {
            return None;
        }
        let mut changes: Vec<Option<u32>> = Vec::new();
        let mut i: usize = 0;
        while i < MAX_NUM_PARAMETERS
            invariant
                i <= MAX_NUM_PARAMETERS,
                self.well_formed(),
                changes@.len() == i,
                forall|j: int| 0 <= j < i ==> !self.flags()[j],
                forall|j: int| i <= j < MAX_NUM_PARAMETERS ==> self.flags()[j] == old(self).flags()[j],
                forall|j: int| 0 <= j < i ==> changes@[j] == reported(old(self).flags(), values@, j),
            decreases MAX_NUM_PARAMETERS - i,
        {
            if self.changed[i] && i < values.len() {
                changes.push(Some(values[i]));
            } else {
                changes.push(None);
            }
            self.changed.set(i, false);
            i += 1;
        }
        Some(changes)
    }
}

} // verus!
