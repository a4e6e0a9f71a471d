use locket::matcher::{
    comes_before, fits, name_matches, quality, quality_from, rank, sort_entries, RankEntry,
};
use locket::text::{chars_of, same_text};

fn records(names: &[(u128, &str)]) -> Vec<(u128, String)> {
    names.iter().map(|(id, name)| (*id, name.to_string())).collect()
}

#[test]
fn chars_of_counts_scalar_values_not_bytes() {
    assert_eq!(chars_of("aé日"), vec!['a', 'é', '日']);
    assert!(chars_of("").is_empty());
}

#[test]
fn same_text_compares_whole_texts() {
    assert!(same_text("", ""));
    assert!(same_text("héllo", "héllo"));
    assert!(!same_text("hello", "hellO"));
    assert!(!same_text("hello", "hell"));
}

#[test]
fn a_name_matches_exactly_the_subsequences_of_its_letters() {
    assert!(name_matches("github", "gh"));
    assert!(name_matches("github", "github"));
    assert!(name_matches("github", "gtb"));
    assert!(name_matches("github", ""));
    assert!(!name_matches("github", "hg"));
    assert!(!name_matches("github", "zz"));
    assert!(!name_matches("github", "githubb"));
    assert!(!name_matches("", "g"));
    assert!(name_matches("", ""));
    assert!(!name_matches("aab", "aaa"));
    assert!(name_matches("abab", "bab"));
}

#[test]
fn matching_ignores_letter_case_in_both_texts() {
    assert!(name_matches("GitHub", "gh"));
    assert!(name_matches("github", "GH"));
    assert!(name_matches("École", "éc"));
    assert!(name_matches("école", "ÉC"));
    assert!(!name_matches("ecole", "é"));
}

#[test]
fn matching_works_on_scalar_values() {
    assert!(name_matches("日本語", "日語"));
    assert!(!name_matches("日本語", "語日"));
    assert!(fits(&vec!['ü'], &vec!['x', 'Ü', 'y']));
    assert!(!fits(&vec!['u'], &vec!['x', 'Ü', 'y']));
}

#[test]
fn quality_is_the_scorers_number() {
    assert_eq!(quality("foo bar", "foo bar"), 192);
    assert_eq!(quality("foobar", "foo bar"), 0);
    assert_eq!(quality("anything", ""), 0);
    assert!(quality("github", "git") > quality("g-i-t", "git"));
    assert_eq!(quality("git", "git"), quality("github", "git"));
}

#[test]
fn quality_is_zero_beyond_the_scorers_limits() {
    let long = "a".repeat(2049);
    assert_eq!(quality(&long, &long), 0);
    let within = "a".repeat(2048);
    assert!(quality(&within, &within) > 0);
    assert_eq!(quality_from(false, Some(7)), 0);
    assert_eq!(quality_from(true, Some(7)), 7);
    assert_eq!(quality_from(true, None), 0);
}

#[test]
fn entries_are_ordered_by_score_then_length_then_identifier() {
    let best = RankEntry { score: 9, length: 9, id: 9 };
    let short = RankEntry { score: 5, length: 2, id: 8 };
    let long_low = RankEntry { score: 5, length: 3, id: 1 };
    let long_high = RankEntry { score: 5, length: 3, id: 2 };
    assert!(comes_before(&best, &short));
    assert!(!comes_before(&short, &best));
    assert!(comes_before(&short, &long_low));
    assert!(comes_before(&long_low, &long_high));
    assert!(!comes_before(&long_high, &long_low));
    assert!(comes_before(&best, &best));
    let sorted = sort_entries(&vec![long_high, short, best, long_low, short]);
    let seen: Vec<(u16, usize, u128)> =
        sorted.iter().map(|entry| (entry.score, entry.length, entry.id)).collect();
    assert_eq!(seen, vec![(9, 9, 9), (5, 2, 8), (5, 2, 8), (5, 3, 1), (5, 3, 2)]);
    assert!(sort_entries(&Vec::new()).is_empty());
}

#[test]
fn rank_keeps_the_matches_best_first() {
    let all = records(&[(4, "github"), (3, "git"), (2, "GIT"), (1, "g-i-t"), (5, "tig")]);
    assert_eq!(rank(&all, "git"), vec![2, 3, 4, 1]);
    assert_eq!(rank(&all, "zz"), Vec::<u128>::new());
    assert_eq!(rank(&all, "tig"), vec![5]);
    assert_eq!(rank(&Vec::new(), "git"), Vec::<u128>::new());
}

#[test]
fn rank_does_not_depend_on_the_order_of_the_records() {
    let one = records(&[(1, "alpha"), (2, "alpine"), (3, "beta"), (4, "Al")]);
    let other = records(&[(4, "Al"), (3, "beta"), (2, "alpine"), (1, "alpha")]);
    assert_eq!(rank(&one, "al"), rank(&other, "al"));
    assert_eq!(rank(&one, "al"), vec![4, 1, 2]);
}

#[test]
fn rank_with_an_empty_query_orders_all_records_by_length_and_identifier() {
    let all = records(&[(3, "ccc"), (2, "a"), (1, "bb"), (0, "dd")]);
    assert_eq!(rank(&all, ""), vec![2, 0, 1, 3]);
}

#[test]
fn a_query_equal_to_the_name_scores_highest() {
    let all = records(&[(1, "my github account"), (2, "github"), (3, "g i t h u b")]);
    assert_eq!(rank(&all, "github")[0], 2);
}

#[test]
fn quality_scores_accented_names_letter_by_letter() {
    assert!(quality("École", "éc") > 0);
    assert_eq!(quality("École", "éc"), quality("école", "éc"));
    assert_eq!(quality("ecole", "éc"), 0);
}
