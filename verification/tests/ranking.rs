use dns_speed::ranking::{rank, RankingEntry};

fn entry(name: &str, average_nanos: u64) -> RankingEntry {
    RankingEntry { name: name.to_string(), average_nanos }
}

fn names(entries: &[RankingEntry]) -> Vec<String> {
    entries.iter().map(|e| e.name.clone()).collect()
}

#[test]
fn ranking_of_nothing_is_empty() {
    assert_eq!(rank(vec![]), vec![]);
}

#[test]
fn ranking_of_one_is_itself() {
    assert_eq!(rank(vec![entry("A", 5)]), vec![entry("A", 5)]);
}

#[test]
fn faster_resolver_ranks_first() {
    let ranked = rank(vec![entry("A", 11_000_000), entry("B", 6_000_000)]);
    assert_eq!(ranked, vec![entry("B", 6_000_000), entry("A", 11_000_000)]);
}

#[test]
fn ranked_entries_stay_in_place() {
    let ranked = rank(vec![entry("A", 1), entry("B", 2), entry("C", 3)]);
    assert_eq!(names(&ranked), vec!["A", "B", "C"]);
}

#[test]
fn reversed_entries_are_turned_round() {
    let ranked = rank(vec![entry("A", 4), entry("B", 3), entry("C", 2), entry("D", 1)]);
    assert_eq!(names(&ranked), vec!["D", "C", "B", "A"]);
}

#[test]
fn ranking_is_non_decreasing() {
    let ranked = rank(vec![
        entry("Google", 23_400_000),
        entry("Cloudflare", 11_200_000),
        entry("NextDNS", 48_000_000),
        entry("Quad9", 11_200_001),
        entry("AdGuard", 0),
        entry("OpenDNS", u64::MAX),
    ]);
    assert_eq!(
        names(&ranked),
        vec!["AdGuard", "Cloudflare", "Quad9", "Google", "NextDNS", "OpenDNS"]
    );
    for pair in ranked.windows(2) {
        assert!(pair[0].average_nanos <= pair[1].average_nanos);
    }
}

#[test]
fn equal_averages_keep_their_order() {
    let ranked = rank(vec![
        entry("first", 7),
        entry("fast", 1),
        entry("second", 7),
        entry("slow", 9),
        entry("third", 7),
    ]);
    assert_eq!(names(&ranked), vec!["fast", "first", "second", "third", "slow"]);
}

#[test]
fn ranking_keeps_every_entry() {
    let entries = vec![entry("A", 3), entry("A", 3), entry("B", 1), entry("C", 2), entry("B", 1)];
    let ranked = rank(entries.clone());
    assert_eq!(ranked.len(), entries.len());
    for e in &entries {
        let before = entries.iter().filter(|x| *x == e).count();
        let after = ranked.iter().filter(|x| *x == e).count();
        assert_eq!(before, after);
    }
}

#[test]
fn ranking_twice_is_ranking_once() {
    let entries = vec![
        entry("A", 5),
        entry("B", 3),
        entry("C", 5),
        entry("D", 1),
        entry("E", 3),
        entry("F", 4),
    ];
    let once = rank(entries);
    let twice = rank(once.clone());
    assert_eq!(once, twice);
}

#[test]
fn ranking_the_same_entries_again_gives_the_same_order() {
    let entries = vec![entry("A", 2), entry("B", 2), entry("C", 1), entry("D", 2)];
    assert_eq!(rank(entries.clone()), rank(entries));
}

#[test]
fn ranking_agrees_with_a_stable_sort() {
    let mut entries = Vec::new();
    let mut seed: u64 = 12345;
    for i in 0..200 {
        seed = seed.wrapping_mul(6364136223846793005).wrapping_add(1442695040888963407);
        entries.push(entry(&format!("r{}", i), (seed >> 33) % 17));
    }
    let mut expected = entries.clone();
    expected.sort_by_key(|e| e.average_nanos);
    assert_eq!(rank(entries), expected);
}
