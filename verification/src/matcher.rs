use vstd::prelude::*;
use vstd::relations::{sorted_by, total_ordering};
use vstd::seq_lib::lemma_sorted_unique;

use crate::text::chars_of;

verus! {

/// The lower-case form that `nucleo_matcher::chars::to_lower_case` gives a
/// character (simple Unicode case folding).
pub uninterp spec fn folded(c: char) -> char;

/// Folds one character with `nucleo_matcher::chars::to_lower_case`. The claim
/// is only that the result depends on the character alone.
#[verifier::external_body]
pub(crate) fn fold(c: char) -> (low: char)
    ensures
        low == folded(c),
{
    nucleo_matcher::chars::to_lower_case(c)
}

/// Two characters are the same letter when they fold to the same character.
pub open spec fn same_letter(a: char, b: char) -> bool {
    folded(a) == folded(b)
}

/// Whether the characters of `query` occur in `name` in the same order,
/// letter case aside, with any number of other characters in between.
pub open spec fn is_subsequence(query: Seq<char>, name: Seq<char>) -> bool
    decreases name.len(),
{
    if query.len() == 0 {
        true
    } else if name.len() == 0 {
        false
    } else {
        ||| same_letter(query.last(), name.last()) && is_subsequence(
            query.drop_last(),
            name.drop_last(),
        )
        ||| is_subsequence(query, name.drop_last())
    }
}

/// Whether `query` is a subsequence of `name`, letter case aside.
pub fn fits(query: &Vec<char>, name: &Vec<char>) -> (found: bool)
    ensures
        found == is_subsequence(query@, name@),
{
    let mut matched: usize = 0;
    let mut i: usize = 0;
    while i < name.len()
        invariant
            0 <= i <= name.len(),
            0 <= matched <= query.len(),
            forall|k: int|
                0 <= k <= query.len() ==> (#[trigger] is_subsequence(
                    query@.take(k),
                    name@.take(i as int),
                ) <==> k <= matched),
        decreases name.len() - i,
    {
        let ghost before = matched;
        if matched < query.len() {
            let a = fold(query[matched]);
            let b = fold(name[i]);
            if a == b {
                matched = matched + 1;
            }
        }
        proof {
            let shorter = name@.take(i as int);
            let longer = name@.take(i + 1);
            assert(longer.drop_last() =~= shorter);
            assert(longer.last() == name@[i as int]);
            assert forall|k: int| 0 <= k <= query.len() implies (#[trigger] is_subsequence(
                query@.take(k),
                longer,
            ) <==> k <= matched) by {
                let q = query@.take(k);
                if k > 0 {
                    assert(q.drop_last() =~= query@.take(k - 1));
                    assert(q.last() == query@[k - 1]);
                    assert(is_subsequence(query@.take(k - 1), shorter) <==> k - 1 <= before);
                    assert(is_subsequence(query@.take(k), shorter) <==> k <= before);
                } else {
                    assert(q.len() == 0);
                }
            }
        }
        i = i + 1;
    }
    proof {
        assert(name@.take(name.len() as int) =~= name@);
        assert(query@.take(query.len() as int) =~= query@);
    }
    matched == query.len()
}

/// Whether the record name `name` matches `query`: every character of the
/// query occurs in the name, in order, letter case aside.
pub fn name_matches(name: &str, query: &str) -> (found: bool)
    ensures
        found == is_subsequence(query@, name@),
{
    let q = chars_of(query);
    let n = chars_of(name);
    fits(&q, &n)
}

/// The longest query, in characters, that is handed to the scorer.
pub const QUERY_LIMIT: usize = 2048;

/// The longest name, in characters, that is handed to the scorer.
pub const NAME_LIMIT: usize = 0xffff_ffff;

/// The score that `nucleo_matcher` gives the match of `query` in `name`, taken
/// as one fuzzy needle with letter case ignored and the matcher's default
/// configuration; `None` where it finds no match.
pub uninterp spec fn fuzzy_score(name: Seq<char>, query: Seq<char>) -> Option<u16>;

/// Scores `query` against `name` with `nucleo_matcher::pattern::Atom::score`,
/// on a fresh `Matcher` with `Config::DEFAULT`. The claim is only that the
/// result depends on the two texts alone. The bounds keep the call away from
/// the inputs on which the matcher stops: a haystack of more than 2^32-1
/// characters, and a needle so long that its 16-bit score could overflow.
#[verifier::external_body]
pub(crate) fn fuzzy(name: &str, query: &str) -> (score: Option<u16>)
    requires
        name@.len() <= NAME_LIMIT,
        query@.len() <= QUERY_LIMIT,
    ensures
        score == fuzzy_score(name@, query@),
{
    let mut matcher = nucleo_matcher::Matcher::new(nucleo_matcher::Config::DEFAULT);
    let mut buf = Vec::new();
    let haystack = nucleo_matcher::Utf32Str::new(name, &mut buf);
    nucleo_matcher::pattern::Atom::new(
        query,
        nucleo_matcher::pattern::CaseMatching::Ignore,
        nucleo_matcher::pattern::AtomKind::Fuzzy,
        false,
    ).score(haystack, &mut matcher)
}

/// The quality of the match of `query` in `name`: the scorer's number where
/// both texts are within its limits and it reports a match, else 0.
pub open spec fn match_quality(name: Seq<char>, query: Seq<char>) -> u16 {
    if name.len() <= NAME_LIMIT && query.len() <= QUERY_LIMIT {
        match fuzzy_score(name, query) {
            Some(score) => score,
            None => 0,
        }
    } else {
        0
    }
}

/// Turns what the scorer reported into a match quality.
pub fn quality_from(within_limits: bool, reported: Option<u16>) -> (quality: u16)
    ensures
        quality == (if within_limits {
            match reported {
                Some(score) => score,
                None => 0u16,
            }
        } else {
            0u16
        }),
{
    if within_limits {
        match reported {
            Some(score) => score,
            None => 0,
        }
    } else {
        0
    }
}

/// The quality of the match of `query` in `name`.
pub fn quality(name: &str, query: &str) -> (q: u16)
    ensures
        q == match_quality(name@, query@),
{
    let name_len = name.unicode_len();
    let query_len = query.unicode_len();
    if name_len <= NAME_LIMIT && query_len <= QUERY_LIMIT {
        quality_from(true, fuzzy(name, query))
    } else {
        quality_from(false, None)
    }
}

/// What the ranking knows of one matching record.
#[derive(Clone, Copy, Debug)]
pub struct RankEntry {
    /// The match quality; higher is better.
    pub score: u16,
    /// The length of the record's name in characters.
    pub length: usize,
    /// The record's identifier.
    pub id: u128,
}

/// The order of the ranking: better quality first; among equals the shorter
/// name; among those the smaller identifier.
pub open spec fn ranks_before(a: RankEntry, b: RankEntry) -> bool {
    ||| a.score > b.score
    ||| a.score == b.score && a.length < b.length
    ||| a.score == b.score && a.length == b.length && a.id <= b.id
}

/// [`ranks_before`] as a relation.
pub open spec fn rank_order() -> spec_fn(RankEntry, RankEntry) -> bool {
    |a: RankEntry, b: RankEntry| ranks_before(a, b)
}

/// The ranking order is total: any two entries are ordered, and only an entry
/// itself is ordered both ways with it.
pub proof fn lemma_rank_order_total()
    ensures
        total_ordering(rank_order()),
{
    let order = rank_order();
    assert forall|a: RankEntry, b: RankEntry| #[trigger] order(a, b) && #[trigger] order(b, a) implies a == b by {
        assert(ranks_before(a, b) && ranks_before(b, a));
    }
    assert forall|a: RankEntry, b: RankEntry, c: RankEntry| #[trigger] order(a, b) && #[trigger] order(b, c) implies order(a, c) by {
        assert(ranks_before(a, b) && ranks_before(b, c));
    }
    assert forall|a: RankEntry, b: RankEntry| #[trigger] order(a, b) || #[trigger] order(b, a) by {
        assert(ranks_before(a, b) || ranks_before(b, a));
    }
    assert forall|a: RankEntry| #[trigger] order(a, a) by {}
}

/// Whether `a` stands before `b` in the ranking.
pub fn comes_before(a: &RankEntry, b: &RankEntry) -> (first: bool)
    ensures
        first == ranks_before(*a, *b),
{
    if a.score != b.score {
        a.score > b.score
    } else if a.length != b.length {
        a.length < b.length
    } else {
        a.id <= b.id
    }
}

/// The entries in ranking order.
pub fn sort_entries(entries: &Vec<RankEntry>) -> (sorted: Vec<RankEntry>)
    ensures
        sorted@ == entries@.sort_by(rank_order()),
{
    broadcast use vstd::seq_lib::group_to_multiset_ensures;

    let mut sorted: Vec<RankEntry> = Vec::new();
    let mut i: usize = 0;
    proof {
        lemma_rank_order_total();
        assert(entries@.take(0) =~= Seq::<RankEntry>::empty());
    }
    while i < entries.len()
        invariant
            0 <= i <= entries.len(),
            total_ordering(rank_order()),
            sorted_by(sorted@, rank_order()),
            sorted@.to_multiset() == entries@.take(i as int).to_multiset(),
        decreases entries.len() - i,
    {
        let entry = entries[i];
        let mut at: usize = 0;
        while at < sorted.len() && comes_before(&sorted[at], &entry)
            invariant
                0 <= at <= sorted.len(),
                forall|k: int| 0 <= k < at ==> ranks_before(#[trigger] sorted@[k], entry),
            decreases sorted.len() - at,
        {
            at = at + 1;
        }
        let ghost earlier = sorted@;
        sorted.insert(at, entry);
        proof {
            let order = rank_order();
            let later = sorted@;
            assert(later == earlier.insert(at as int, entry));
            assert forall|a: int, b: int| 0 <= a < b < later.len() implies #[trigger] order(
                later[a],
                later[b],
            ) by {
                if b < at {
                    assert(order(earlier[a], earlier[b]));
                } else if b == at {
                    assert(ranks_before(earlier[a], entry));
                } else if a < at {
                    assert(order(earlier[a], earlier[b - 1]));
                } else if a == at {
                    // the entry goes before everything from `at` on
                    assert(!ranks_before(earlier[at as int], entry));
                    assert(order(entry, earlier[at as int]) || order(earlier[at as int], entry));
                    assert(order(entry, earlier[at as int]));
                    if b - 1 > at {
                        assert(order(earlier[at as int], earlier[b - 1]));
                        assert(order(entry, earlier[at as int]) && order(
                            earlier[at as int],
                            earlier[b - 1],
                        ) ==> order(entry, earlier[b - 1]));
                    }
                } else {
                    assert(order(earlier[a - 1], earlier[b - 1]));
                }
            }
            assert(later.remove(at as int) =~= earlier);
            assert(later[at as int] == entry);
            vstd::seq_lib::to_multiset_remove(later, at as int);
            assert(later.contains(entry));
            later.to_multiset_ensures();
            assert(later.to_multiset().count(entry) > 0);
            assert(later.to_multiset() =~= earlier.to_multiset().insert(entry));
            assert(entries@.take(i + 1) =~= entries@.take(i as int).push(entry));
            vstd::seq_lib::to_multiset_build(entries@.take(i as int), entry);
            assert(later.to_multiset() == entries@.take(i + 1).to_multiset());
        }
        i = i + 1;
    }
    proof {
        assert(entries@.take(entries.len() as int) =~= entries@);
        entries@.lemma_sort_by_ensures(rank_order());
        lemma_sorted_unique(sorted@, entries@.sort_by(rank_order()), rank_order());
    }
    sorted
}

/// The entry that stands for a record in the ranking.
pub open spec fn entry_for(id: u128, name: Seq<char>, query: Seq<char>) -> RankEntry {
    RankEntry { score: match_quality(name, query), length: name.len() as usize, id }
}

/// The entries of the records that match `query`, in the records' order.
pub open spec fn candidates(records: Seq<(u128, Seq<char>)>, query: Seq<char>) -> Seq<RankEntry>
    decreases records.len(),
{
    if records.len() == 0 {
        Seq::empty()
    } else {
        let rest = candidates(records.drop_last(), query);
        let (id, name) = records.last();
        if is_subsequence(query, name) {
            rest.push(entry_for(id, name, query))
        } else {
            rest
        }
    }
}

/// The matching records' entries in ranking order.
pub open spec fn ranked_entries(records: Seq<(u128, Seq<char>)>, query: Seq<char>) -> Seq<
    RankEntry,
> {
    candidates(records, query).sort_by(rank_order())
}

/// The identifiers of the records that match `query`, best match first.
pub open spec fn ranking(records: Seq<(u128, Seq<char>)>, query: Seq<char>) -> Seq<u128> {
    ranked_entries(records, query).map_values(|entry: RankEntry| entry.id)
}

/// Identifiers and names as plain values.
pub open spec fn name_index(records: Seq<(u128, String)>) -> Seq<(u128, Seq<char>)> {
    records.map_values(|record: (u128, String)| (record.0, record.1@))
}

/// Ranks the records whose name matches `query`.
///
/// A record is in the result exactly if the characters of `query` occur in
/// its name in order, letter case aside. The result is ordered by match
/// quality, best first; then by shorter name; then by identifier.
pub fn rank(records: &Vec<(u128, String)>, query: &str) -> (ids: Vec<u128>)
    ensures
        ids@ == ranking(name_index(records@), query@),
{
    let q = chars_of(query);
    let mut entries: Vec<RankEntry> = Vec::new();
    let mut i: usize = 0;
    let ghost index = name_index(records@);
    proof {
        assert(index.take(0) =~= Seq::<(u128, Seq<char>)>::empty());
    }
    while i < records.len()
        invariant
            0 <= i <= records.len(),
            q@ == query@,
            index == name_index(records@),
            entries@ == candidates(index.take(i as int), query@),
        decreases records.len() - i,
    {
        let name = records[i].1.as_str();
        let n = chars_of(name);
        proof {
            assert(index.take(i + 1).drop_last() =~= index.take(i as int));
            assert(index.take(i + 1).last() == (records@[i as int].0, records@[i as int].1@));
        }
        if fits(&q, &n) {
            let score = quality(name, query);
            entries.push(RankEntry { score, length: n.len(), id: records[i].0 });
        }
        i = i + 1;
    }
    proof {
        assert(index.take(records.len() as int) =~= index);
    }
    let sorted = sort_entries(&entries);
    let mut ids: Vec<u128> = Vec::new();
    let mut j: usize = 0;
    while j < sorted.len()
        invariant
            0 <= j <= sorted.len(),
            ids@ == sorted@.take(j as int).map_values(|entry: RankEntry| entry.id),
        decreases sorted.len() - j,
    {
        proof {
            assert(sorted@.take(j + 1).map_values(|entry: RankEntry| entry.id) =~= sorted@.take(
                j as int,
            ).map_values(|entry: RankEntry| entry.id).push(sorted@[j as int].id));
        }
        ids.push(sorted[j].id);
        j = j + 1;
    }
    proof {
        assert(sorted@.take(sorted.len() as int) =~= sorted@);
    }
    ids
}

} // verus!
