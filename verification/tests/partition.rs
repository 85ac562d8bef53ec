use loggen::assign_partitions;

fn strings(items: &[&str]) -> Vec<String> {
    items.iter().map(|s| s.to_string()).collect()
}

#[test]
fn assignment_is_discovery_index_mod_worker_count() {
    let paths = strings(&["a", "b", "c", "d", "e"]);
    let parts = assign_partitions(&paths, 2);
    assert_eq!(parts.len(), 2);
    assert_eq!(parts[0], strings(&["a", "c", "e"]));
    assert_eq!(parts[1], strings(&["b", "d"]));
}

#[test]
fn every_path_lands_in_exactly_one_partition() {
    let paths = strings(&["p0", "p1", "p2", "p3", "p4", "p5", "p6"]);
    let parts = assign_partitions(&paths, 3);
    let mut seen: Vec<String> = Vec::new();
    for part in &parts {
        for p in part {
            assert!(!seen.contains(p));
            seen.push(p.clone());
        }
    }
    assert_eq!(seen.len(), paths.len());
    for p in &paths {
        assert!(seen.contains(p));
    }
}

#[test]
fn partition_sizes_differ_by_at_most_one() {
    let paths = strings(&["p0", "p1", "p2", "p3", "p4", "p5", "p6"]);
    let parts = assign_partitions(&paths, 3);
    let sizes: Vec<usize> = parts.iter().map(|p| p.len()).collect();
    assert_eq!(sizes, vec![3, 2, 2]);
}

#[test]
fn more_workers_than_paths_leaves_empty_partitions() {
    let paths = strings(&["a", "b"]);
    let parts = assign_partitions(&paths, 5);
    assert_eq!(parts.len(), 5);
    assert_eq!(parts[0], strings(&["a"]));
    assert_eq!(parts[1], strings(&["b"]));
    assert!(parts[2].is_empty());
    assert!(parts[3].is_empty());
    assert!(parts[4].is_empty());
}

#[test]
fn single_worker_gets_everything_in_order() {
    let paths = strings(&["x", "y", "z"]);
    let parts = assign_partitions(&paths, 1);
    assert_eq!(parts.len(), 1);
    assert_eq!(parts[0], paths);
}

#[test]
fn no_paths_gives_all_empty_partitions() {
    let paths: Vec<String> = Vec::new();
    let parts = assign_partitions(&paths, 3);
    assert_eq!(parts.len(), 3);
    assert!(parts.iter().all(|p| p.is_empty()));
}
