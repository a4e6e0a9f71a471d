use vstd::prelude::*;
use vstd::relations::sorted_by;

use crate::matcher::{
    candidates, entry_for, is_subsequence, lemma_rank_order_total, rank_order, ranked_entries,
    ranking, same_letter, RankEntry,
};

verus! {

/// Whether `positions` says where in `name` each character of `query` is
/// found: one place per character, rising, and the same letter at each.
pub open spec fn found_at(query: Seq<char>, name: Seq<char>, positions: Seq<int>) -> bool {
    &&& positions.len() == query.len()
    &&& forall|i: int|
        0 <= i < positions.len() ==> 0 <= #[trigger] positions[i] < name.len() && same_letter(
            query[i],
            name[positions[i]],
        )
    &&& forall|i: int, j: int|
        0 <= i < j < positions.len() ==> #[trigger] positions[i] < #[trigger] positions[j]
}

/// A query is a subsequence of a name exactly if every character of the
/// query is found in the name, in order, letter case aside.
pub proof fn lemma_subsequence_positions(query: Seq<char>, name: Seq<char>)
    ensures
        is_subsequence(query, name) <==> exists|positions: Seq<int>|
            found_at(query, name, positions),
    decreases name.len(),
{
    if query.len() == 0 {
        assert(found_at(query, name, Seq::<int>::empty()));
    } else if name.len() == 0 {
        assert forall|positions: Seq<int>| !found_at(query, name, positions) by {
            if found_at(query, name, positions) {
                assert(0 <= positions[0] < name.len());
            }
        }
    } else {
        let shorter = name.drop_last();
        lemma_subsequence_positions(query.drop_last(), shorter);
        lemma_subsequence_positions(query, shorter);
        if is_subsequence(query, name) {
            if same_letter(query.last(), name.last()) && is_subsequence(
                query.drop_last(),
                shorter,
            ) {
                let head = choose|positions: Seq<int>|
                    found_at(query.drop_last(), shorter, positions);
                let all = head.push(name.len() - 1);
                assert forall|i: int| 0 <= i < all.len() implies 0 <= #[trigger] all[i]
                    < name.len() && same_letter(query[i], name[all[i]]) by {
                    if i < head.len() {
                        assert(0 <= head[i] < shorter.len());
                        assert(query.drop_last()[i] == query[i]);
                        assert(shorter[head[i]] == name[head[i]]);
                    }
                }
                assert forall|i: int, j: int| 0 <= i < j < all.len() implies #[trigger] all[i]
                    < #[trigger] all[j] by {
                    assert(0 <= head[i] < shorter.len());
                    if j < head.len() {
                        assert(head[i] < head[j]);
                    }
                }
                assert(found_at(query, name, all));
            } else {
                let same = choose|positions: Seq<int>| found_at(query, shorter, positions);
                assert forall|i: int| 0 <= i < same.len() implies 0 <= #[trigger] same[i]
                    < name.len() && same_letter(query[i], name[same[i]]) by {
                    assert(0 <= same[i] < shorter.len());
                    assert(shorter[same[i]] == name[same[i]]);
                }
                assert(found_at(query, name, same));
            }
        }
        if exists|positions: Seq<int>| found_at(query, name, positions) {
            let all = choose|positions: Seq<int>| found_at(query, name, positions);
            let last = all.last();
            assert(0 <= all[all.len() - 1] < name.len());
            if last == name.len() - 1 {
                let head = all.drop_last();
                assert forall|i: int| 0 <= i < head.len() implies 0 <= #[trigger] head[i]
                    < shorter.len() && same_letter(query.drop_last()[i], shorter[head[i]]) by {
                    assert(0 <= all[i] < name.len());
                    assert(all[i] < all[all.len() - 1]);
                }
                assert forall|i: int, j: int| 0 <= i < j < head.len() implies #[trigger] head[i]
                    < #[trigger] head[j] by {
                    assert(all[i] < all[j]);
                }
                assert(found_at(query.drop_last(), shorter, head));
                assert(same_letter(query[query.len() - 1], name[all[all.len() - 1]]));
            } else {
                assert forall|i: int| 0 <= i < all.len() implies 0 <= #[trigger] all[i]
                    < shorter.len() && same_letter(query[i], shorter[all[i]]) by {
                    assert(0 <= all[i] < name.len());
                    if i < all.len() - 1 {
                        assert(all[i] < all[all.len() - 1]);
                    }
                }
                assert(found_at(query, shorter, all));
            }
        }
    }
}

/// A query that is longer than a name does not match it.
pub proof fn lemma_longer_query_never_matches(query: Seq<char>, name: Seq<char>)
    requires
        query.len() > name.len(),
    ensures
        !is_subsequence(query, name),
    decreases name.len(),
{
    if name.len() > 0 {
        lemma_longer_query_never_matches(query.drop_last(), name.drop_last());
        lemma_longer_query_never_matches(query, name.drop_last());
    }
}

/// A name matches itself, and the same name in another letter case.
pub proof fn lemma_same_letters_match(query: Seq<char>, name: Seq<char>)
    requires
        query.len() == name.len(),
        forall|i: int| 0 <= i < name.len() ==> same_letter(#[trigger] query[i], name[i]),
    ensures
        is_subsequence(query, name),
    decreases name.len(),
{
    if name.len() > 0 {
        lemma_same_letters_match(query.drop_last(), name.drop_last());
    }
}

/// An entry is a candidate exactly if it stands for a record that matches.
pub proof fn lemma_candidates_members(
    records: Seq<(u128, Seq<char>)>,
    query: Seq<char>,
    entry: RankEntry,
)
    ensures
        candidates(records, query).contains(entry) <==> exists|i: int|
            0 <= i < records.len() && is_subsequence(query, (#[trigger] records[i]).1) && entry
                == entry_for(records[i].0, records[i].1, query),
    decreases records.len(),
{
    if records.len() > 0 {
        let shorter = records.drop_last();
        let rest = candidates(shorter, query);
        let (id, name) = records.last();
        lemma_candidates_members(shorter, query, entry);
        if candidates(records, query).contains(entry) {
            if rest.contains(entry) {
                let i = choose|i: int|
                    0 <= i < shorter.len() && is_subsequence(query, (#[trigger] shorter[i]).1)
                        && entry == entry_for(shorter[i].0, shorter[i].1, query);
                assert(records[i] == shorter[i]);
            } else {
                assert(is_subsequence(query, name));
                let at = choose|at: int|
                    0 <= at < candidates(records, query).len() && candidates(records, query)[at]
                        == entry;
                assert(at == rest.len());
                assert(records[records.len() - 1] == records.last());
            }
        }
        if exists|i: int|
            0 <= i < records.len() && is_subsequence(query, (#[trigger] records[i]).1) && entry
                == entry_for(records[i].0, records[i].1, query) {
            let i = choose|i: int|
                0 <= i < records.len() && is_subsequence(query, (#[trigger] records[i]).1) && entry
                    == entry_for(records[i].0, records[i].1, query);
            if i < shorter.len() {
                assert(shorter[i] == records[i]);
                assert(rest.contains(entry));
                let at = choose|at: int| 0 <= at < rest.len() && rest[at] == entry;
                assert(candidates(records, query)[at] == entry);
            } else {
                assert(candidates(records, query)[rest.len() as int] == entry);
            }
        }
    }
}

/// The ranked entries are the candidates, each as often as it occurs among
/// them, in ranking order.
pub proof fn lemma_ranking_sorted(records: Seq<(u128, Seq<char>)>, query: Seq<char>)
    ensures
        sorted_by(ranked_entries(records, query), rank_order()),
        ranked_entries(records, query).to_multiset() == candidates(records, query).to_multiset(),
        ranking(records, query).len() == candidates(records, query).len(),
{
    broadcast use vstd::seq_lib::group_to_multiset_ensures;

    lemma_rank_order_total();
    candidates(records, query).lemma_sort_by_ensures(rank_order());
    candidates(records, query).to_multiset_ensures();
    ranked_entries(records, query).to_multiset_ensures();
}

/// An identifier is in the ranking exactly if a record with that identifier
/// has a name in which the characters of the query occur in order, letter
/// case aside.
pub proof fn lemma_ranked_iff_matches(
    records: Seq<(u128, Seq<char>)>,
    query: Seq<char>,
    id: u128,
)
    ensures
        ranking(records, query).contains(id) <==> exists|i: int|
            0 <= i < records.len() && (#[trigger] records[i]).0 == id && is_subsequence(
                query,
                records[i].1,
            ),
{
    broadcast use vstd::seq_lib::group_to_multiset_ensures;

    let found = candidates(records, query);
    let ranked = ranked_entries(records, query);
    let ids = ranking(records, query);
    lemma_ranking_sorted(records, query);
    if ids.contains(id) {
        let at = choose|at: int| 0 <= at < ids.len() && ids[at] == id;
        let entry = ranked[at];
        assert(ranked.contains(entry));
        assert(ranked.to_multiset().count(entry) > 0);
        assert(found.contains(entry));
        lemma_candidates_members(records, query, entry);
    }
    if exists|i: int|
        0 <= i < records.len() && (#[trigger] records[i]).0 == id && is_subsequence(
            query,
            records[i].1,
        ) {
        let i = choose|i: int|
            0 <= i < records.len() && (#[trigger] records[i]).0 == id && is_subsequence(
                query,
                records[i].1,
            );
        let entry = entry_for(id, records[i].1, query);
        lemma_candidates_members(records, query, entry);
        assert(found.contains(entry));
        assert(found.to_multiset().count(entry) > 0);
        assert(ranked.contains(entry));
        let at = choose|at: int| 0 <= at < ranked.len() && ranked[at] == entry;
        assert(ids[at] == id);
    }
}

/// Whether `entry` is the entry of one of the records that match `query`.
pub open spec fn stands_for_match(
    records: Seq<(u128, Seq<char>)>,
    query: Seq<char>,
    entry: RankEntry,
) -> bool {
    exists|i: int|
        0 <= i < records.len() && is_subsequence(query, (#[trigger] records[i]).1) && entry
            == entry_for(records[i].0, records[i].1, query)
}

/// Whether no identifier occurs twice among the records.
pub open spec fn distinct_ids(records: Seq<(u128, Seq<char>)>) -> bool {
    forall|i: int, j: int|
        0 <= i < j < records.len() ==> (#[trigger] records[i]).0 != (#[trigger] records[j]).0
}

/// Records with distinct identifiers give candidates without repetition.
proof fn lemma_candidates_distinct(records: Seq<(u128, Seq<char>)>, query: Seq<char>)
    requires
        distinct_ids(records),
    ensures
        candidates(records, query).no_duplicates(),
    decreases records.len(),
{
    if records.len() > 0 {
        let shorter = records.drop_last();
        let rest = candidates(shorter, query);
        let (id, name) = records.last();
        assert forall|i: int, j: int| 0 <= i < j < shorter.len() implies (#[trigger] shorter[i]).0 != (
        #[trigger] shorter[j]).0 by {
            assert(records[i].0 != records[j].0);
        }
        lemma_candidates_distinct(shorter, query);
        if is_subsequence(query, name) {
            let entry = entry_for(id, name, query);
            lemma_candidates_members(shorter, query, entry);
            if rest.contains(entry) {
                let i = choose|i: int|
                    0 <= i < shorter.len() && is_subsequence(query, (#[trigger] shorter[i]).1)
                        && entry == entry_for(shorter[i].0, shorter[i].1, query);
                assert(records[i].0 != records[records.len() - 1].0);
            }
            assert forall|a: int, b: int|
                0 <= a < rest.push(entry).len() && 0 <= b < rest.push(entry).len() && a
                    != b implies rest.push(entry)[a] != rest.push(entry)[b] by {
                if a == rest.len() {
                    assert(rest[b] != entry);
                } else if b == rest.len() {
                    assert(rest[a] != entry);
                }
            }
        }
    }
}

/// With distinct identifiers among the records, no identifier is ranked
/// twice, and each ranked entry stands for a matching record.
pub proof fn lemma_ranking_of_distinct(records: Seq<(u128, Seq<char>)>, query: Seq<char>)
    requires
        distinct_ids(records),
    ensures
        ranking(records, query).no_duplicates(),
        ranking(records, query).len() == ranked_entries(records, query).len(),
        forall|k: int|
            0 <= k < ranking(records, query).len() ==> stands_for_match(
                records,
                query,
                #[trigger] ranked_entries(records, query)[k],
            ),
{
    broadcast use vstd::seq_lib::group_to_multiset_ensures;

    let found = candidates(records, query);
    let ranked = ranked_entries(records, query);
    let ids = ranking(records, query);
    lemma_ranking_sorted(records, query);
    lemma_candidates_distinct(records, query);
    found.lemma_multiset_has_no_duplicates();
    ranked.lemma_multiset_has_no_duplicates_conv();
    assert forall|k: int| 0 <= k < ids.len() implies stands_for_match(
        records,
        query,
        #[trigger] ranked[k],
    ) by {
        assert(ranked.contains(ranked[k]));
        assert(ranked.to_multiset().count(ranked[k]) > 0);
        assert(found.contains(ranked[k]));
        lemma_candidates_members(records, query, ranked[k]);
    }
    assert forall|a: int, b: int| 0 <= a < ids.len() && 0 <= b < ids.len() && a != b implies ids[a]
        != ids[b] by {
        if ids[a] == ids[b] {
            assert(stands_for_match(records, query, ranked[a]));
            assert(stands_for_match(records, query, ranked[b]));
            let i = choose|i: int|
                0 <= i < records.len() && is_subsequence(query, (#[trigger] records[i]).1)
                    && ranked[a] == entry_for(records[i].0, records[i].1, query);
            let j = choose|j: int|
                0 <= j < records.len() && is_subsequence(query, (#[trigger] records[j]).1)
                    && ranked[b] == entry_for(records[j].0, records[j].1, query);
            assert(records[i].0 == records[j].0);
            if i < j {
                assert(false);
            }
            if j < i {
                assert(false);
            }
            assert(ranked[a] == ranked[b]);
        }
    }
}

} // verus!
