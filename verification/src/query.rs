use vstd::prelude::*;

use crate::matcher::{
    entry_for, is_subsequence, name_index, rank, rank_order, ranked_entries, ranks_before,
};
use crate::matcher_laws::{
    lemma_ranked_iff_matches, lemma_ranking_of_distinct, lemma_ranking_sorted, stands_for_match,
};
use crate::models::{ids_of, lemma_view_dom, lists_all, Database, Login, LoginView};

verus! {

broadcast use vstd::std_specs::hash::group_hash_axioms;

/// The text of a query; an absent text counts as the empty one.
pub open spec fn query_text(name: Option<&str>) -> Seq<char> {
    match name {
        Some(text) => text@,
        None => Seq::empty(),
    }
}

/// Whether `ids` is the answer of `store` to the query `query`: the records
/// whose name matches, each once, in ranking order.
pub open spec fn answers_query(store: Map<u128, LoginView>, query: Seq<char>, ids: Seq<u128>) -> bool {
    &&& ids.no_duplicates()
    &&& forall|id: u128|
        ids.contains(id) <==> store.contains_key(id) && is_subsequence(query, store[id].name)
    &&& forall|i: int, j: int|
        0 <= i < j < ids.len() ==> ranks_before(
            entry_for(#[trigger] ids[i], store[ids[i]].name, query),
            entry_for(#[trigger] ids[j], store[ids[j]].name, query),
        )
}

/// Whether `found` is what `store` answers to a query with the text `text`:
/// every entry is a record of the store under its identifier, and the
/// identifiers are all of them for an empty text, else the ranked matches.
pub open spec fn selects(store: Map<u128, LoginView>, text: Seq<char>, found: Seq<(u128, &Login)>) -> bool {
    &&& forall|i: int|
        0 <= i < found.len() ==> store.contains_key((#[trigger] found[i]).0) && found[i].1@
            == store[found[i].0]
    &&& text.len() == 0 ==> lists_all(store, ids_of(found))
    &&& text.len() > 0 ==> answers_query(store, text, ids_of(found))
}

impl Database {
    /// The records that a query selects, with their identifiers.
    ///
    /// Without a text, or with an empty one, these are all records, each
    /// once, in no particular order. With a text they are the records in
    /// whose name the characters of the text occur in order, letter case
    /// aside; the best match comes first, then the shorter name, then the
    /// smaller identifier.
    pub fn query(&self, name: Option<&str>) -> (found: Vec<(u128, &Login)>)
        ensures
            selects(self@, query_text(name), found@),
    {
        let all = self.entries();
        proof {
            assert forall|i: int| 0 <= i < all.len() implies self@.contains_key(
                (#[trigger] all[i]).0,
            ) by {
                assert(ids_of(all@)[i] == all[i].0);
                assert(ids_of(all@).contains(all[i].0));
            }
        }
        let text = match name {
            Some(text) => text,
            None => {
                return all;
            },
        };
        if text.is_empty() {
            return all;
        }
        let mut index: Vec<(u128, String)> = Vec::new();
        let mut i: usize = 0;
        while i < all.len()
            invariant
                0 <= i <= all.len(),
                index.len() == i,
                forall|k: int|
                    0 <= k < i ==> (#[trigger] index@[k]).0 == all@[k].0 && index@[k].1@
                        == all@[k].1@.name,
            decreases all.len() - i,
        {
            index.push((all[i].0, all[i].1.name.clone()));
            i = i + 1;
        }
        let ids = rank(&index, text);
        let ghost records = name_index(index@);
        let ghost ranked = ranked_entries(records, text@);
        proof {
            lemma_view_dom(self.logins@);
            assert forall|a: int, b: int| 0 <= a < b < records.len() implies (#[trigger] records[a]).0
                != (#[trigger] records[b]).0 by {
                assert(ids_of(all@)[a] == all@[a].0);
                assert(ids_of(all@)[b] == all@[b].0);
            }
            lemma_ranking_of_distinct(records, text@);
            lemma_ranking_sorted(records, text@);
            assert forall|k: int| 0 <= k < ids.len() implies self@.contains_key(#[trigger] ids@[k])
                && ranked[k] == entry_for(ids@[k], self@[ids@[k]].name, text@) by {
                assert(stands_for_match(records, text@, ranked[k]));
                let at = choose|at: int|
                    0 <= at < records.len() && is_subsequence(text@, (#[trigger] records[at]).1)
                        && ranked[k] == entry_for(records[at].0, records[at].1, text@);
                assert(records[at].0 == all@[at].0);
                assert(self@.contains_key(all[at].0));
            }
        }
        let mut found: Vec<(u128, &Login)> = Vec::new();
        let mut j: usize = 0;
        while j < ids.len()
            invariant
                0 <= j <= ids.len(),
                found.len() == j,
                forall|k: int| 0 <= k < ids.len() ==> self@.contains_key(#[trigger] ids@[k]),
                forall|k: int|
                    0 <= k < j ==> (#[trigger] found@[k]).0 == ids@[k] && found@[k].1@
                        == self@[ids@[k]],
            decreases ids.len() - j,
        {
            let id = ids[j];
            proof {
                lemma_view_dom(self.logins@);
                assert(self@.contains_key(ids@[j as int]));
            }
            match self.logins.get(&id) {
                Some(login) => {
                    found.push((id, login));
                },
                None => {
                    assert(false);
                },
            }
            j = j + 1;
        }
        proof {
            let out = ids_of(found@);
            assert(out =~= ids@);
            let store = self@;
            assert forall|id: u128| out.contains(id) <==> store.contains_key(id) && is_subsequence(
                text@,
                store[id].name,
            ) by {
                lemma_ranked_iff_matches(records, text@, id);
                if out.contains(id) {
                    let at = choose|at: int|
                        0 <= at < records.len() && (#[trigger] records[at]).0 == id
                            && is_subsequence(text@, records[at].1);
                    assert(all@[at].0 == id);
                    assert(self@.contains_key(all[at].0));
                }
                if store.contains_key(id) && is_subsequence(text@, store[id].name) {
                    assert(ids_of(all@).contains(id));
                    let at = choose|at: int| 0 <= at < all.len() && ids_of(all@)[at] == id;
                    assert(records[at].0 == id);
                    assert(records[at].1 == store[id].name);
                }
            }
            assert forall|a: int, b: int| 0 <= a < b < out.len() implies ranks_before(
                entry_for(#[trigger] out[a], store[out[a]].name, text@),
                entry_for(#[trigger] out[b], store[out[b]].name, text@),
            ) by {
                assert(self@.contains_key(ids@[a]));
                assert(self@.contains_key(ids@[b]));
                assert(rank_order()(ranked[a], ranked[b]));
            }
        }
        found
    }
}

} // verus!
