use dataset_prep::generate::Chunk;
use dataset_prep::groups::{all_combinations, combinations};

fn chunk(id: &str, text: &str) -> Chunk {
    Chunk { chunk_id: id.to_string(), chunk_text: text.to_string() }
}

fn pool(n: usize) -> Vec<Chunk> {
    let mut chunks = Vec::new();
    for i in 0..n {
        chunks.push(chunk(&format!("{}", i + 1), &format!("text {}", i + 1)));
    }
    chunks
}

fn ids(group: &Vec<Chunk>) -> Vec<String> {
    group.iter().map(|c| c.chunk_id.clone()).collect()
}

fn binomial(n: usize, k: usize) -> usize {
    if k == 0 {
        1
    } else if n == 0 {
        0
    } else {
        binomial(n - 1, k - 1) + binomial(n - 1, k)
    }
}

#[test]
fn three_chunks_in_pairs() {
    let chunks = vec![chunk("1", "A"), chunk("2", "B"), chunk("3", "C")];
    let groups = all_combinations(chunks, 2);
    assert_eq!(groups.len(), 3);
    assert_eq!(ids(&groups[0]), vec!["1", "2"]);
    assert_eq!(ids(&groups[1]), vec!["1", "3"]);
    assert_eq!(ids(&groups[2]), vec!["2", "3"]);
    assert_eq!(groups[1][0].chunk_text, "A");
    assert_eq!(groups[1][1].chunk_text, "C");
}

#[test]
fn four_chunks_in_threes_come_in_lexicographic_order() {
    let groups = all_combinations(pool(4), 3);
    let listed: Vec<Vec<String>> = groups.iter().map(ids).collect();
    assert_eq!(
        listed,
        vec![
            vec!["1", "2", "3"],
            vec!["1", "2", "4"],
            vec!["1", "3", "4"],
            vec!["2", "3", "4"],
        ]
    );
}

#[test]
fn group_count_is_the_binomial_coefficient() {
    for n in 1..8 {
        for k in 1..(n + 1) {
            let groups = all_combinations(pool(n), k);
            assert_eq!(groups.len(), binomial(n, k));
            for group in &groups {
                assert_eq!(group.len(), k);
            }
        }
    }
    assert_eq!(all_combinations(pool(5), 3).len(), 10);
    assert_eq!(all_combinations(pool(6), 2).len(), 15);
}

#[test]
fn no_two_groups_hold_the_same_ids() {
    let groups = all_combinations(pool(6), 3);
    assert_eq!(groups.len(), 20);
    for i in 0..groups.len() {
        for j in (i + 1)..groups.len() {
            let mut a = ids(&groups[i]);
            let mut b = ids(&groups[j]);
            a.sort();
            b.sort();
            assert_ne!(a, b);
        }
    }
}

#[test]
fn group_size_zero_gives_no_group() {
    assert_eq!(all_combinations(pool(3), 0).len(), 0);
    assert_eq!(all_combinations(Vec::new(), 0).len(), 0);
    let mut groups = combinations(pool(3), 0);
    assert!(groups.next_group().is_none());
    assert!(groups.next_group().is_none());
}

#[test]
fn group_size_beyond_the_pool_gives_no_group() {
    assert_eq!(all_combinations(pool(3), 4).len(), 0);
    assert_eq!(all_combinations(Vec::new(), 1).len(), 0);
    let mut groups = combinations(pool(2), 5);
    assert!(groups.next_group().is_none());
}

#[test]
fn whole_pool_is_the_only_group_of_its_size() {
    let groups = all_combinations(pool(4), 4);
    assert_eq!(groups.len(), 1);
    assert_eq!(ids(&groups[0]), vec!["1", "2", "3", "4"]);
}

#[test]
fn groups_come_one_at_a_time_and_then_end() {
    let mut groups = combinations(pool(3), 2);
    assert_eq!(ids(&groups.next_group().unwrap()), vec!["1", "2"]);
    assert_eq!(ids(&groups.next_group().unwrap()), vec!["1", "3"]);
    assert_eq!(ids(&groups.next_group().unwrap()), vec!["2", "3"]);
    assert!(groups.next_group().is_none());
    assert!(groups.next_group().is_none());
}

#[test]
fn equal_chunks_are_told_apart_by_position() {
    let chunks = vec![chunk("1", "A"), chunk("2", "B"), chunk("2", "B")];
    let groups = all_combinations(chunks, 2);
    let listed: Vec<Vec<String>> = groups.iter().map(ids).collect();
    assert_eq!(listed, vec![vec!["1", "2"], vec!["1", "2"], vec!["2", "2"]]);
}

#[test]
fn same_pool_gives_the_same_enumeration() {
    let first: Vec<Vec<String>> = all_combinations(pool(5), 2).iter().map(ids).collect();
    let second: Vec<Vec<String>> = all_combinations(pool(5), 2).iter().map(ids).collect();
    assert_eq!(first, second);
}
