//! The route deleter's decisions: which identifiers are targeted, and what
//! each delete response means for the run.
use vstd::prelude::*;

use crate::errors::ErrorKind;
use crate::errors::RunError;
use crate::lister::IdSet;

verus! {

impl IdSet {
    /// The set the explicit identifier list denotes: duplicates collapse.
    pub fn from_vec(ids: &Vec<String>) -> (r: IdSet)
        ensures
            r.wf(),
            r@ =~= ids.deep_view().to_set(),
    {
        let mut r = IdSet::new();
        let n = ids.len();
        let mut i: usize = 0;
        proof {
            assert(ids.deep_view().take(0) =~= Seq::<Seq<char>>::empty());
            assert(ids.deep_view().take(0).to_set() =~= Set::<Seq<char>>::empty());
        }
        while i < n
            invariant
                n == ids@.len(),
                i <= n,
                r.wf(),
                r@ =~= ids.deep_view().take(i as int).to_set(),
            decreases n - i,
        {
            r.insert(ids[i].clone());
            proof {
                let pre = ids.deep_view().take(i as int);
                let post = ids.deep_view().take(i + 1);
                assert(post.drop_last() =~= pre);
                assert(post.last() == ids.deep_view()[i as int]);
                assert(post.to_set() =~= pre.to_set().insert(ids.deep_view()[i as int]));
            }
            i += 1;
        }
        proof {
            assert(ids.deep_view().take(n as int) =~= ids.deep_view());
        }
        r
    }
}

/// The deletion target set: all listed rules when "delete all" is selected,
/// otherwise the explicit identifier list read as a set.
pub fn resolve_delete_targets(delete_all: bool, explicit: &Vec<String>, listed: Option<IdSet>) -> (r:
    IdSet)
    requires
        delete_all ==> (listed matches Some(l) && l.wf()),
    ensures
        r.wf(),
        delete_all ==> r@ == listed->0@,
        !delete_all ==> r@ =~= explicit.deep_view().to_set(),
{
    if delete_all {
        match listed {
            Some(l) => l,
            None => IdSet::new(),
        }
    } else {
        IdSet::from_vec(explicit)
    }
}

/// What one delete response means: any non-success status fails the run.
pub fn delete_outcome(status: u16) -> (r: Result<(), RunError>)
    ensures
        r is Ok <==> status < 400,
        r matches Err(e) ==> e.kind is ServiceFailure && e.phase is None,
{
    if status < 400 {
        Ok(())
    } else {
        Err(RunError::new(ErrorKind::ServiceFailure))
    }
}

} // verus!
