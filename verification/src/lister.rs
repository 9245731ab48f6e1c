//! The route lister: walks the listing endpoint page by page, accumulating
//! the identifiers of every rule except the catch-all rule.
use vstd::prelude::*;

use crate::errors::ErrorKind;
use crate::errors::RunError;
use crate::rules::ListPage;
use crate::rules::RoutingRule;
use crate::rules::is_catch_all;
use crate::rules::rule_is_catch_all;
use crate::text::str_eq;

verus! {

/// The fixed number of rules requested per page.
pub const PAGE_SIZE: u64 = 50;

/// A set of rule identifiers, held without duplicates.
#[derive(Debug)]
pub struct IdSet {
    pub ids: Vec<String>,
}

impl View for IdSet {
    type V = Set<Seq<char>>;

    open spec fn view(&self) -> Set<Seq<char>> {
        self.ids.deep_view().to_set()
    }
}

impl IdSet {
    /// The no-duplicates invariant every operation preserves.
    pub open spec fn wf(&self) -> bool {
        self.ids.deep_view().no_duplicates()
    }

    /// An empty set.
    pub fn new() -> (r: IdSet)
        ensures
            r.wf(),
            r@ =~= Set::<Seq<char>>::empty(),
            r.ids@.len() == 0,
    {
        let ids: Vec<String> = Vec::new();
        proof {
            assert(ids.deep_view() =~= Seq::<Seq<char>>::empty());
            assert(ids.deep_view().to_set() =~= Set::<Seq<char>>::empty());
        }
        IdSet { ids }
    }

    /// Whether `id` is in the set.
    pub fn contains(&self, id: &str) -> (r: bool)
        ensures
            r == self@.contains(id@),
    {
        let n = self.ids.len();
        let mut i: usize = 0;
        while i < n
            invariant
                n == self.ids@.len(),
                i <= n,
                forall|j: int| 0 <= j < i ==> self.ids.deep_view()[j] != id@,
            decreases n - i,
        {
            if str_eq(self.ids[i].as_str(), id) {
                proof {
                    assert(self.ids.deep_view()[i as int] == id@);
                    assert(self.ids.deep_view().contains(id@));
                }
                return true;
            }
            i += 1;
        }
        proof {
            assert(!self.ids.deep_view().contains(id@));
        }
        false
    }

    /// Adds `id`; duplicates collapse.
    pub fn insert(&mut self, id: String)
        requires
            old(self).wf(),
        ensures
            final(self).wf(),
            final(self)@ =~= old(self)@.insert(id@),
    {
        if self.contains(id.as_str()) {
            proof {
                assert(old(self)@.insert(id@) =~= old(self)@);
            }
            return ;
        }
        let ghost before = self.ids.deep_view();
        self.ids.push(id);
        proof {
            let after = self.ids.deep_view();
            assert(after.drop_last() =~= before);
            assert(after.last() == id@);
            assert(forall|j: int| 0 <= j < before.len() ==> after[j] == before[j]);
            assert(!before.contains(id@));
            assert(after.no_duplicates());
            assert(after.to_set() =~= before.to_set().insert(id@));
        }
    }

    /// The number of identifiers held.
    pub fn len(&self) -> (r: usize)
        requires
            self.wf(),
        ensures
            r == self@.len(),
    {
        proof {
            self.ids.deep_view().unique_seq_to_set();
        }
        self.ids.len()
    }
}

/// Whether the lister reports a rule: every rule but the catch-all rule,
/// provided the service assigned it an identifier.
pub open spec fn rule_included(rule: &RoutingRule) -> bool {
    !is_catch_all(rule) && rule.id is Some
}

/// The identifiers one page contributes: those of its included rules.
pub open spec fn page_ids(rules: Seq<RoutingRule>) -> Set<Seq<char>>
    decreases rules.len(),
{
    if rules.len() == 0 {
        Set::empty()
    } else {
        let rest = page_ids(rules.drop_last());
        if rule_included(&rules.last()) {
            rest.insert(rules.last().id->0@)
        } else {
            rest
        }
    }
}

/// An identifier is contributed by a page exactly when one of the page's
/// rules is included and carries it. In particular the catch-all rule — a
/// rule whose first matcher matches all — never contributes its identifier,
/// wherever in the page it stands.
pub proof fn lemma_page_ids_membership(rules: Seq<RoutingRule>, s: Seq<char>)
    ensures
        page_ids(rules).contains(s) <==> exists|i: int|
            0 <= i < rules.len() && rule_included(&rules[i]) && rules[i].id->0@ == s,
    decreases rules.len(),
{
    if rules.len() > 0 {
        lemma_page_ids_membership(rules.drop_last(), s);
        let last = rules.len() - 1;
        if page_ids(rules).contains(s) {
            if rule_included(&rules[last]) && rules[last].id->0@ == s {
            } else {
                let i = choose|i: int|
                    0 <= i < rules.drop_last().len() && rule_included(&rules.drop_last()[i])
                        && rules.drop_last()[i].id->0@ == s;
                assert(rules[i] == rules.drop_last()[i]);
            }
        }
        if exists|i: int| 0 <= i < rules.len() && rule_included(&rules[i]) && rules[i].id->0@ == s {
            let i = choose|i: int|
                0 <= i < rules.len() && rule_included(&rules[i]) && rules[i].id->0@ == s;
            if i < last {
                assert(rules.drop_last()[i] == rules[i]);
                assert(page_ids(rules.drop_last()).contains(s));
            }
        }
    }
}

/// The lister's cursor: the next page to request, and the identifiers
/// accumulated so far.
#[derive(Debug)]
pub struct Lister {
    pub page: u64,
    pub ids: IdSet,
}

impl Lister {
    /// A fresh cursor, standing at the first page with nothing accumulated.
    pub fn new() -> (r: Lister)
        ensures
            r.page == 1u64,
            r.ids.wf(),
            r.ids@ =~= Set::<Seq<char>>::empty(),
    {
        Lister { page: 1, ids: IdSet::new() }
    }

    /// Consumes one page of the service's answer. Fails when the service
    /// reports failure; finishes when the page is empty; otherwise
    /// accumulates the page's included identifiers and advances the cursor.
    /// Returns whether enumeration is complete.
    pub fn on_page(&mut self, page: ListPage) -> (r: Result<bool, RunError>)
        requires
            old(self).ids.wf(),
            old(self).page < 0xffff_ffff_ffff_ffff_u64,
        ensures
            final(self).ids.wf(),
            match r {
                Err(e) => {
                    &&& !page.success
                    &&& e.kind is ServiceFailure
                    &&& e.phase is None
                    &&& *final(self) == *old(self)
                },
                Ok(done) => {
                    &&& page.success
                    &&& done == (page.result@.len() == 0)
                    &&& (done ==> *final(self) == *old(self))
                    &&& (!done ==> {
                        &&& final(self).page == old(self).page + 1
                        &&& final(self).ids@ =~= old(self).ids@.union(page_ids(page.result@))
                    })
                },
            },
    {
        if !page.success {
            return Err(RunError::new(ErrorKind::ServiceFailure));
        }
        let n = page.result.len();
        if n == 0 {
            return Ok(true);
        }
        let ghost rules = page.result@;
        proof {
            assert(rules.take(0) =~= Seq::<RoutingRule>::empty());
            assert(old(self).ids@.union(page_ids(rules.take(0))) =~= old(self).ids@);
        }
        let mut i: usize = 0;
        while i < n
            invariant
                n == page.result@.len(),
                rules == page.result@,
                i <= n,
                self.ids.wf(),
                self.page == old(self).page,
                self.ids@ =~= old(self).ids@.union(page_ids(rules.take(i as int))),
            decreases n - i,
        {
            let rule = &page.result[i];
            proof {
                assert(rules.take(i + 1).drop_last() =~= rules.take(i as int));
                assert(rules.take(i + 1).last() == rules[i as int]);
            }
            if !rule_is_catch_all(rule) {
                match &rule.id {
                    Some(id) => {
                        self.ids.insert(id.clone());
                        proof {
                            assert(old(self).ids@.union(page_ids(rules.take(i as int))).insert(
                                rules[i as int].id->0@,
                            ) =~= old(self).ids@.union(page_ids(rules.take(i + 1))));
                        }
                    },
                    None => {
                        proof {
                            assert(!rule_included(&rules[i as int]));
                        }
                    },
                }
            } else {
                proof {
                    assert(!rule_included(&rules[i as int]));
                }
            }
            i += 1;
        }
        self.page = self.page + 1;
        proof {
            assert(rules.take(n as int) =~= rules);
        }
        Ok(false)
    }
}

} // verus!
