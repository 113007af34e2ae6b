use minimizer::rules::{Rule, RuleType};

#[test]
fn test_rule_type_get_random_type() {
    let weights = [(RuleType::RemoveFromStart, 2), (RuleType::RemoveFromEnd, 10)];
    let mut remove_from_start = 0;
    let mut remove_from_end = 0;
    for _ in 0..100 {
        match RuleType::get_random_type(&weights) {
            RuleType::RemoveFromStart => remove_from_start += 1,
            RuleType::RemoveFromEnd => remove_from_end += 1,
            _ => unreachable!(),
        }
    }
    assert_eq!(remove_from_start + remove_from_end, 100);
}

#[test]
fn test_rule_create_start_end_rule() {
    let content_size = 10;
    let number_of_checks = 100;
    let remove_from_start = true;
    let rules = Rule::create_start_end_rule(content_size, number_of_checks, remove_from_start);
    assert!(!rules.is_empty()); // We can't predict exact number of checks due deduplication, but it should be more than 0

    let mut previous_diff = usize::MAX;
    for rule in rules {
        match rule {
            Rule::RemoveContinuous { start_idx_included, end_idx_excluded } => {
                assert!(start_idx_included < end_idx_excluded);
                assert_eq!(start_idx_included, 0);
                assert!(end_idx_excluded < content_size);

                // We start checking from the biggest range, to get at start the biggest minimization
                let diff = end_idx_excluded - start_idx_included;
                assert!(diff < previous_diff);
                previous_diff = diff;
            }
            _ => unreachable!(),
        }
    }

    let remove_from_start = false;
    let rules = Rule::create_start_end_rule(content_size, number_of_checks, remove_from_start);
    assert!(!rules.is_empty()); // We can't predict exact number of checks due deduplication, but it should be more than 0

    let mut previous_diff = usize::MAX;
    for rule in rules {
        match rule {
            Rule::RemoveContinuous { start_idx_included, end_idx_excluded } => {
                assert!(start_idx_included < end_idx_excluded);
                assert!(start_idx_included > 0);
                assert_eq!(end_idx_excluded, content_size);

                // We start checking from the biggest range, to get at start the biggest minimization
                let diff = end_idx_excluded - start_idx_included;
                assert!(diff < previous_diff);
                previous_diff = diff;
            }
            _ => unreachable!(),
        }
    }
}

#[test]
fn test_rule_create_continuous_rule() {
    for _ in 0..100 {
        let content_size = 10;
        let rule = Rule::create_continuous_rule(content_size);
        match rule {
            Rule::RemoveContinuous { start_idx_included, end_idx_excluded } => {
                assert!(start_idx_included < end_idx_excluded);
                assert!(start_idx_included > 0);
                assert!(end_idx_excluded < content_size);
            }
            _ => unreachable!(),
        }
    }
}

#[test]
fn test_rule_create_random_rule() {
    for _ in 0..100 {
        let content_size = 10;
        let rule = Rule::create_random_rule(content_size, None);
        match rule {
            Rule::RemoveRandom { indexes_to_remove } => {
                assert!(!indexes_to_remove.is_empty());
                for idx in &indexes_to_remove {
                    assert!(*idx < content_size);
                }
            }
            _ => unreachable!(),
        }
    }
}

#[test]
fn all_combinations_for_two_elements() {
    let rules = Rule::create_all_combinations_rule(2);
    let sets: Vec<Vec<usize>> = rules
        .iter()
        .map(|r| match r {
            Rule::RemoveRandom { indexes_to_remove } => indexes_to_remove.clone(),
            _ => unreachable!(),
        })
        .collect();
    assert_eq!(sets, vec![vec![0], vec![1]]);
}

#[test]
fn all_combinations_for_four_elements_largest_first() {
    let rules = Rule::create_all_combinations_rule(4);
    assert_eq!(rules.len(), 14);
    let mut previous = usize::MAX;
    for rule in &rules {
        match rule {
            Rule::RemoveRandom { indexes_to_remove } => {
                assert!(indexes_to_remove.len() <= previous);
                assert!(!indexes_to_remove.is_empty());
                assert!(indexes_to_remove.len() < 4);
                previous = indexes_to_remove.len();
            }
            _ => unreachable!(),
        }
    }
    // every non-empty proper subset of {0, 1, 2, 3} appears exactly once
    let mut seen: Vec<u32> = rules
        .iter()
        .map(|r| match r {
            Rule::RemoveRandom { indexes_to_remove } => {
                indexes_to_remove.iter().fold(0u32, |acc, i| acc | (1 << i))
            }
            _ => unreachable!(),
        })
        .collect();
    seen.sort_unstable();
    let expected: Vec<u32> = (1u32..15).collect();
    assert_eq!(seen, expected);
}

#[test]
fn remove_exact_idx_rule_is_passthrough() {
    let rule = Rule::crete_remove_exact_idx_rule(vec![3, 1]);
    match rule {
        Rule::RemoveRandom { indexes_to_remove } => assert_eq!(indexes_to_remove, vec![3, 1]),
        _ => unreachable!(),
    }
}

#[test]
fn apply_removes_a_contiguous_span() {
    let rule = Rule::RemoveContinuous { start_idx_included: 1, end_idx_excluded: 3 };
    let content: Vec<u8> = vec![10, 20, 30, 40, 50];
    let out = rule.apply(&content);
    assert_eq!(out, vec![10, 40, 50]);
    assert_eq!(content, vec![10, 20, 30, 40, 50]);
}

#[test]
fn apply_removes_listed_indices_with_duplicates() {
    let rule = Rule::RemoveRandom { indexes_to_remove: vec![0, 2, 2, 9] };
    let content: Vec<u8> = vec![10, 20, 30, 40];
    let out = rule.apply(&content);
    assert_eq!(out, vec![20, 40]);
}

#[test]
fn exhaustive_sweep_lists_every_cut_point() {
    // fewer elements than requested checks: the sweep is the full
    // enumeration, most aggressive cut first
    let rules = Rule::create_start_end_rule(10, 100, true);
    let got: Vec<(usize, usize)> = rules
        .iter()
        .map(|r| match r {
            Rule::RemoveContinuous { start_idx_included, end_idx_excluded } => {
                (*start_idx_included, *end_idx_excluded)
            }
            _ => unreachable!(),
        })
        .collect();
    let expected: Vec<(usize, usize)> =
        vec![(0, 9), (0, 8), (0, 7), (0, 6), (0, 5), (0, 4), (0, 3), (0, 2), (0, 1)];
    assert_eq!(got, expected);

    let rules = Rule::create_start_end_rule(10, 100, false);
    let got: Vec<(usize, usize)> = rules
        .iter()
        .map(|r| match r {
            Rule::RemoveContinuous { start_idx_included, end_idx_excluded } => {
                (*start_idx_included, *end_idx_excluded)
            }
            _ => unreachable!(),
        })
        .collect();
    let expected: Vec<(usize, usize)> =
        vec![(1, 10), (2, 10), (3, 10), (4, 10), (5, 10), (6, 10), (7, 10), (8, 10), (9, 10)];
    assert_eq!(got, expected);
}
