use tierfs::config::{parse_quota, Quota};
use tierfs::strategy::PopularityTieringStrategy;
use tierfs::tier::{File, Tier};

fn tier(id: &str, path: &str, quota: &str) -> Tier {
    match parse_quota(quota) {
        Quota::Percent(p) => Tier::new(id.to_string(), path.to_string(), 0, p),
        Quota::Bytes(size) => {
            // The byte count of a size is floating point, done by the caller.
            let bytes = size
                .map(|s| (s.number.parse::<f64>().unwrap() * s.multiplier as f64) as u64)
                .unwrap_or(0);
            Tier::new(id.to_string(), path.to_string(), bytes, "0".to_string())
        }
    }
}

fn file(rel: &str, tier_id: &str, tier_path: &str, size: u64) -> File {
    File::new(rel.to_string(), tier_id.to_string(), size, tier_path.to_string())
}

#[test]
fn usage_accounting() {
    let mut t = Tier::new("T".to_string(), "/t".to_string(), 100, "0".to_string());
    t.add_file_size(30);
    t.add_file_size(20);
    assert_eq!(t.usage_bytes, 50);
    t.subtract_file_size(60);
    assert_eq!(t.usage_bytes, 0);
    t.add_file_size(10);
    t.size_delta(4, 7);
    assert_eq!(t.usage_bytes, 13);
    t.size_delta(100, 5);
    assert_eq!(t.usage_bytes, 5);
}

#[test]
fn resizing_a_counted_file() {
    let mut t = Tier::new("T".to_string(), "/t".to_string(), 100, "0".to_string());
    t.add_file_size(25);
    t.add_file_size(10);
    t.size_delta(10, 4);
    assert_eq!(t.usage_bytes, 25 + 4);
    t.size_delta(4, 4);
    assert_eq!(t.usage_bytes, 29);
    t.add_file_size(8);
    t.subtract_file_size(8);
    assert_eq!(t.usage_bytes, 29);
}

#[test]
fn resolved_quota_bytes_uses_percent_of_filesystem() {
    let mut t = tier("T", "/t", "50%");
    assert_eq!(t.quota_percent, "50");
    assert_eq!(t.resolved_quota_bytes(), 0);
    t.percent_quota_bytes = Some(500);
    assert_eq!(t.resolved_quota_bytes(), 500);
    let mut t = tier("T", "/t", "2 kib");
    assert_eq!(t.resolved_quota_bytes(), 2048);
    t.percent_quota_bytes = Some(7);
    assert_eq!(t.resolved_quota_bytes(), 7);
    t.percent_quota_bytes = None;
    assert_eq!(t.resolved_quota_bytes(), 2048);
}

#[test]
fn full_test_compares_placement_with_quota() {
    let mut t = tier("T", "/t", "100");
    t.sim_usage_bytes = 60;
    assert!(!t.full_test(40));
    assert!(t.full_test(41));
    assert!(t.full_test(u64::MAX));
}

#[test]
fn full_paths() {
    let f = file("dir/a.txt", "T3", "/mnt/t3", 5);
    assert_eq!(f.full_path(), "/mnt/t3/dir/a.txt");
    assert_eq!(f.full_path_with_root("/mnt/t1/"), "/mnt/t1/dir/a.txt");
    assert_eq!(f.full_path_with_root(""), "dir/a.txt");
    let g = file("/abs", "T3", "/mnt/t3", 5);
    assert_eq!(g.full_path(), "/abs");
}

#[test]
fn placement_moves_hot_files_up() {
    let mut tiers = vec![tier("Tier1", "/t1", "50"), tier("Tier2", "/t2", "50"), tier("Tier3", "/t3", "100 MiB")];
    let mut files = vec![
        file("hot_file.txt", "Tier3", "/t3", 43),
        file("warm_file.txt", "Tier3", "/t3", 44),
        file("cold_file.txt", "Tier3", "/t3", 41),
    ];
    PopularityTieringStrategy.simulate_tier(&mut files, &mut tiers);
    assert_eq!(files[0].tier_id, "Tier1");
    assert_eq!(files[0].tier_path, "/t1");
    assert_eq!(files[1].tier_id, "Tier2");
    assert_eq!(files[2].tier_id, "Tier3");
    assert_eq!(tiers[0].sim_usage_bytes, 43);
    assert_eq!(tiers[1].sim_usage_bytes, 44);
    assert_eq!(tiers[2].sim_usage_bytes, 41);
    assert_eq!(tiers[0].incoming_files.len(), 1);
    assert_eq!(tiers[0].incoming_files[0].relative_path, "hot_file.txt");
    assert_eq!(tiers[0].incoming_files[0].tier_id, "Tier1");
    assert_eq!(tiers[0].incoming_files[0].tier_path, "/t3");
    assert_eq!(tiers[1].incoming_files.len(), 1);
    assert!(tiers[2].incoming_files.is_empty());

    // Placing again moves nothing and keeps every file where it is.
    PopularityTieringStrategy.simulate_tier(&mut files, &mut tiers);
    assert!(tiers.iter().all(|t| t.incoming_files.is_empty()));
    assert_eq!(files[0].tier_id, "Tier1");
    assert_eq!(files[1].tier_id, "Tier2");
    assert_eq!(files[2].tier_id, "Tier3");
    assert_eq!(tiers[0].sim_usage_bytes, 43);
}

#[test]
fn placement_never_overfills_and_leaves_misfits() {
    let mut tiers = vec![tier("A", "/a", "10"), tier("B", "/b", "10")];
    let mut files = vec![
        file("x", "B", "/b", 6),
        file("y", "B", "/b", 6),
        file("z", "A", "/a", 6),
        file("big", "A", "/a", 11),
    ];
    PopularityTieringStrategy.simulate_tier(&mut files, &mut tiers);
    assert_eq!(files[0].tier_id, "A");
    assert_eq!(files[1].tier_id, "B");
    assert_eq!(files[2].tier_id, "A");
    assert_eq!(files[2].tier_path, "/a");
    assert_eq!(files[3].tier_id, "A");
    assert_eq!(files[3].tier_path, "/a");
    assert!(tiers.iter().all(|t| t.sim_usage_bytes <= 10));
    assert_eq!(tiers[0].sim_usage_bytes, 6);
    assert_eq!(tiers[1].sim_usage_bytes, 6);
    assert_eq!(tiers[0].incoming_files.len(), 1);
    assert_eq!(tiers[0].incoming_files[0].relative_path, "x");
    assert!(tiers[1].incoming_files.is_empty());
    assert_eq!(PopularityTieringStrategy.name(), "popularity");
}

#[test]
fn placement_conserves_bytes() {
    let mut tiers = vec![tier("A", "/a", "10"), tier("B", "/b", "10")];
    let mut files = vec![
        file("x", "B", "/b", 6),
        file("y", "B", "/b", 6),
        file("z", "A", "/a", 6),
        file("w", "A", "/a", 4),
        file("big", "A", "/a", 11),
    ];
    PopularityTieringStrategy.simulate_tier(&mut files, &mut tiers);
    let held: u64 = tiers.iter().map(|t| t.sim_usage_bytes).sum();
    // x and w on A, y on B; z and big fit nowhere.
    assert_eq!(tiers[0].sim_usage_bytes, 10);
    assert_eq!(tiers[1].sim_usage_bytes, 6);
    assert_eq!(held, 6 + 6 + 4);
}
