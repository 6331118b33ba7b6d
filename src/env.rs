//! Resolution of the environment variables a toolchain needs.
use vstd::prelude::*;

verus! {

/// Every looked-up variable has a value.
pub open spec fn all_set(lookups: Seq<(String, Option<String>)>) -> bool {
    forall|k: int| 0 <= k < lookups.len() ==> (#[trigger] lookups[k]).1 is Some
}

/// `k` is the first variable without a value.
pub open spec fn first_unset(lookups: Seq<(String, Option<String>)>, k: int) -> bool {
    &&& 0 <= k < lookups.len()
    &&& lookups[k].1 is None
    &&& forall|j: int| 0 <= j < k ==> (#[trigger] lookups[j]).1 is Some
}

/// Takes each required variable's name with what the environment holds for it,
/// in order. All of them set: their values, in the same order. Otherwise the
/// name of the first one that is not set, and no values at all.
pub fn resolve_env(lookups: &Vec<(String, Option<String>)>) -> (r: Result<Vec<String>, String>)
    ensures
        r is Ok <==> all_set(lookups@),
        r matches Ok(vals) ==> vals@.len() == lookups@.len() && forall|k: int|
            0 <= k < lookups@.len() ==> lookups@[k].1 == Some(#[trigger] vals@[k]),
        r matches Err(name) ==> exists|k: int|
            first_unset(lookups@, k) && name == #[trigger] lookups@[k].0,
{
    let mut vals: Vec<String> = Vec::new();
    let mut i: usize = 0;
    while i < lookups.len()
        invariant
            i <= lookups@.len(),
            vals@.len() == i,
            forall|k: int| 0 <= k < i ==> lookups@[k].1 == Some(#[trigger] vals@[k]),
            forall|k: int| 0 <= k < i ==> (#[trigger] lookups@[k]).1 is Some,
        decreases lookups@.len() - i,
    {
        match &lookups[i].1 {
            Some(v) => {
                vals.push(v.clone());
            },
            None => {
                assert(first_unset(lookups@, i as int));
                return Err(lookups[i].0.clone());
            },
        }
        i = i + 1;
    }
    Ok(vals)
}

} // verus!
