use vstd::prelude::*;
use crate::diff::{
    diff, pallet_change_id, runtime_changes, runtime_compatible, ChangeSet, Compatible,
    PalletChange,
};
use crate::model::PalletId;
use crate::reduced::ReducedRuntime;

verus! {

/// Holds the changes between two reduced runtimes, answers whether the newer
/// one keeps the API of the older one, and gives the changes of each pallet.
#[derive(Debug)]
pub struct DiffAnalyzer {
    pub changes: ChangeSet,
}

impl DiffAnalyzer {
    pub fn new(changes: ChangeSet) -> (r: DiffAnalyzer)
        ensures
            r.changes == changes,
    {
        DiffAnalyzer { changes }
    }

    /// Compares the runtimes `a` (old) and `b` (new).
    pub fn compare(a: &ReducedRuntime, b: &ReducedRuntime) -> (r: DiffAnalyzer)
        requires
            a.wf(),
            b.wf(),
        ensures
            r.changes@ == runtime_changes(a@, b@),
    {
        DiffAnalyzer { changes: diff(a, b) }
    }

    /// The first change of the pallet with index `pallet_id`, if it changed.
    pub fn get_pallet_changes(&self, pallet_id: PalletId) -> (r: Option<&PalletChange>)
        ensures
            match r {
                Some(c) => exists|i: int|
                    0 <= i < self.changes@.len() && self.changes@[i] == c@ && pallet_change_id(
                        c@,
                    ) == pallet_id && forall|j: int|
                        0 <= j < i ==> pallet_change_id(#[trigger] self.changes@[j])
                            != pallet_id,
                None => forall|i: int|
                    0 <= i < self.changes@.len() ==> pallet_change_id(#[trigger] self.changes@[i])
                        != pallet_id,
            },
    {
        let mut i: usize = 0;
        while i < self.changes.pallets.len()
            invariant
                i <= self.changes.pallets.len(),
                forall|j: int|
                    0 <= j < i ==> pallet_change_id(#[trigger] self.changes@[j]) != pallet_id,
            decreases self.changes.pallets.len() - i,
        {
            if self.changes.pallets[i].pallet_id() == pallet_id {
                assert(self.changes@[i as int] == self.changes.pallets@[i as int]@);
                return Some(&self.changes.pallets[i]);
            }
            i = i + 1;
        }
        None
    }
}

impl Compatible for DiffAnalyzer {
    open spec fn compatible_spec(&self) -> bool {
        runtime_compatible(self.changes@)
    }

    fn compatible(&self) -> (r: bool) {
        self.changes.compatible()
    }
}

} // verus!
