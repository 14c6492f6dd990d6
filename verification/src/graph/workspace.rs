//! The workspace members of a graph: a set of package identifiers that also
//! keeps them listed in ascending order, so that whatever is derived from the
//! listing comes out the same on every run.

use crate::metadata::{views, PackageId};
use crate::strings::{
    lemma_lex_lt_irreflexive, lemma_lex_lt_total, lemma_lex_lt_transitive, lex_lt, str_lt,
};
use vstd::hash_set::StringHashSet;
use vstd::prelude::*;

verus! {

/// Whether each item sorts before all that follow it.
pub open spec fn strictly_sorted(ids: Seq<Seq<char>>) -> bool {
    forall|i: int, j: int| 0 <= i < j < ids.len() ==> lex_lt(#[trigger] ids[i], #[trigger] ids[j])
}

/// A strictly sorted sequence holds nothing twice.
pub proof fn lemma_sorted_distinct(ids: Seq<Seq<char>>)
    requires
        strictly_sorted(ids),
    ensures
        forall|i: int, j: int|
            0 <= i < ids.len() && 0 <= j < ids.len() && i != j ==> #[trigger] ids[i]
                != #[trigger] ids[j],
{
    assert forall|i: int, j: int|
        0 <= i < ids.len() && 0 <= j < ids.len() && i != j implies #[trigger] ids[i]
        != #[trigger] ids[j] by {
        lemma_lex_lt_irreflexive(ids[i]);
        if i < j {
            assert(lex_lt(ids[i], ids[j]));
        } else {
            assert(lex_lt(ids[j], ids[i]));
        }
    }
}

/// Puts `id`, which the list does not hold, at its place in the sorted list.
fn insert_sorted(list: &mut Vec<PackageId>, id: PackageId)
    requires
        strictly_sorted(views(old(list)@)),
        !views(old(list)@).contains(id@),
    ensures
        strictly_sorted(views(final(list)@)),
        views(final(list)@).to_set() == views(old(list)@).to_set().insert(id@),
{
    let ghost before = views(list@);
    let ghost x = id@;
    let mut p: usize = 0;
    while p < list.len() && str_lt(list[p].repr.as_str(), id.repr.as_str())
        invariant
            p <= list.len(),
            before == views(list@),
            x == id@,
            forall|k: int| 0 <= k < p ==> lex_lt(#[trigger] before[k], x),
        decreases list.len() - p,
    {
        p += 1;
    }
    list.insert(p, id);
    proof {
        let after = views(list@);
        before.insert_ensures(p as int, x);
        assert(after =~= before.insert(p as int, x));
        if p < before.len() {
            assert(before[p as int] != x);
            lemma_lex_lt_total(before[p as int], x);
        }
        assert forall|i: int, j: int| 0 <= i < j < after.len() implies lex_lt(
            #[trigger] after[i],
            #[trigger] after[j],
        ) by {
            if j < p {
                assert(after[i] == before[i] && after[j] == before[j]);
            } else if j == p {
                assert(after[i] == before[i]);
            } else if i < p {
                assert(after[i] == before[i] && after[j] == before[j - 1]);
            } else if i == p {
                assert(after[j] == before[j - 1]);
                if j - 1 > p {
                    lemma_lex_lt_transitive(x, before[p as int], before[j - 1]);
                }
            } else {
                assert(after[i] == before[i - 1] && after[j] == before[j - 1]);
            }
        }
        assert forall|a: Seq<char>| after.contains(a) <==> (before.contains(a) || a == x) by {
            if after.contains(a) {
                let i = choose|i: int| 0 <= i < after.len() && after[i] == a;
                if i < p {
                    assert(before[i] == a);
                } else if i > p {
                    assert(before[i - 1] == a);
                }
            }
            if before.contains(a) {
                let i = choose|i: int| 0 <= i < before.len() && before[i] == a;
                if i < p {
                    assert(after[i] == a);
                } else {
                    assert(after[i + 1] == a);
                }
            }
            if a == x {
                assert(after[p as int] == a);
            }
        }
        assert(after.to_set() =~= before.to_set().insert(x));
    }
}

/// The workspace members of a graph.
pub struct WorkspaceMembers {
    set: StringHashSet,
    list: Vec<PackageId>,
}

impl View for WorkspaceMembers {
    type V = Set<Seq<char>>;

    closed spec fn view(&self) -> Set<Seq<char>> {
        self.set@
    }
}

impl WorkspaceMembers {
    /// The listing is sorted and holds exactly the members.
    #[verifier::type_invariant]
    spec fn inv(self) -> bool {
        &&& strictly_sorted(views(self.list@))
        &&& views(self.list@).to_set() == self.set@
    }

    /// The members in ascending order.
    pub closed spec fn listing(&self) -> Seq<Seq<char>> {
        views(self.list@)
    }

    /// Collects the given identifiers; one that is named twice counts once.
    pub fn from_ids(ids: &Vec<PackageId>) -> (r: Self)
        ensures
            r@ == views(ids@).to_set(),
    {
        let mut set = StringHashSet::new();
        let mut list: Vec<PackageId> = Vec::new();
        let ghost all = views(ids@);
        let mut i: usize = 0;
        proof {
            assert(views(list@).to_set() =~= Set::<Seq<char>>::empty());
            assert(all.take(0).to_set() =~= Set::<Seq<char>>::empty());
        }
        while i < ids.len()
            invariant
                i <= ids.len(),
                all == views(ids@),
                strictly_sorted(views(list@)),
                views(list@).to_set() == set@,
                set@ == all.take(i as int).to_set(),
            decreases ids.len() - i,
        {
            let id = &ids[i];
            proof {
                let seen = all.take(i as int);
                assert(all.take(i + 1) =~= seen.push(id@));
                vstd::seq_lib::lemma_seq_contains_after_push(seen, id@, id@);
                assert forall|a: Seq<char>| seen.push(id@).contains(a) <==> (seen.contains(a) || a
                    == id@) by {
                    vstd::seq_lib::lemma_seq_contains_after_push(seen, id@, a);
                }
                assert(all.take(i + 1).to_set() =~= seen.to_set().insert(id@));
            }
            if set.insert(id.repr.clone()) {
                insert_sorted(&mut list, id.clone());
            }
            i += 1;
        }
        proof {
            assert(all.take(i as int) =~= all);
        }
        WorkspaceMembers { set, list }
    }

    /// Whether `id` is a member.
    pub fn contains(&self, id: &PackageId) -> (r: bool)
        ensures
            r == self@.contains(id@),
    {
        self.set.contains(id.repr.as_str())
    }

    /// The members in ascending order of their identifiers.
    pub fn members(&self) -> (r: &Vec<PackageId>)
        ensures
            views(r@) == self.listing(),
            strictly_sorted(views(r@)),
            views(r@).to_set() == self@,
    {
        proof {
            use_type_invariant(self);
        }
        &self.list
    }

    pub(crate) fn as_set(&self) -> (r: &StringHashSet)
        ensures
            r@ == self@,
    {
        &self.set
    }
}

} // verus!
