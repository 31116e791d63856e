use tierfs::config::{
    get_run_path, parse_quota as quota_of, parse_size, ByteSize, Config, ConfigOverrides, LogLevel,
    Quota,
};
use tierfs::tier::Tier;
use std::collections::hash_map::DefaultHasher;
use std::hash::{Hash, Hasher};

// The byte count of a size is floating-point arithmetic, which the library
// leaves to its caller; these helpers do it as the daemon does.

fn size_bytes(size: &ByteSize) -> Option<usize> {
    let value = size.number.parse::<f64>().ok()?;
    Some((value * size.multiplier as f64) as usize)
}

fn parse_bytes_string(val: &str) -> Option<usize> {
    parse_size(val).as_ref().and_then(size_bytes)
}

fn parse_quota(val: &str) -> (u64, f64) {
    match quota_of(val) {
        Quota::Percent(p) => (0, p.parse::<f64>().unwrap()),
        Quota::Bytes(size) => (size.as_ref().and_then(size_bytes).unwrap_or(0) as u64, 0.0),
    }
}

fn copy_buff_sz(config: &Config) -> usize {
    size_bytes(&config.copy_buff_sz).unwrap_or(1024 * 1024)
}

fn load(text: &str, overrides: &ConfigOverrides) -> Result<(Config, Vec<Tier>), String> {
    let (config, defs) = Config::load(text, overrides)?;
    let tiers = defs
        .into_iter()
        .map(|def| {
            let (quota_bytes, percent_text) = match &def.quota {
                Quota::Percent(p) => (0, p.clone()),
                Quota::Bytes(size) => (size.as_ref().and_then(size_bytes).unwrap_or(0) as u64, "0".to_string()),
            };
            Tier::new(def.id, def.path, quota_bytes, percent_text)
        })
        .collect();
    Ok((config, tiers))
}

fn percent(t: &Tier) -> f64 {
    t.quota_percent.parse::<f64>().unwrap()
}

#[test]
fn test_parse_bytes_string() {
    assert_eq!(parse_bytes_string("100"), Some(100));
    assert_eq!(parse_bytes_string("1 kb"), Some(1000));
    assert_eq!(parse_bytes_string("1.5 kib"), Some(1536));
    assert_eq!(parse_bytes_string("2 MB"), Some(2_000_000));
    assert_eq!(parse_bytes_string("1 mib"), Some(1_048_576));
    assert_eq!(parse_bytes_string("10 gib"), Some(10_737_418_240));
}

#[test]
fn test_parse_quota() {
    let (b, p) = parse_quota("80%");
    assert_eq!((b, p), (0, 80.0));
    let (b, p) = parse_quota("50");
    assert_eq!((b, p), (50, 0.0));
    let (b, p) = parse_quota("1 mib");
    assert_eq!((b, p), (1_048_576, 0.0));
}

#[test]
fn test_config_load() {
    let content = r#"[Global]
Log Level = 2
Tier Period = 5
Copy Buffer Size = 2 MiB
Run Path = /tmp/tierfs

[FastTier]
Path = /tmp/fast
Quota = 75%

[SlowTier]
Path = /tmp/slow
Quota = 100 MiB
"#;
    let overrides = ConfigOverrides::default();
    let (config, tiers) = load(content, &overrides).unwrap();

    assert_eq!(config.log_level, LogLevel::Debug);
    assert_eq!(config.tier_period_s, 5);
    assert_eq!(copy_buff_sz(&config), 2_097_152);
    assert_eq!(config.run_path, "/tmp/tierfs");

    assert_eq!(tiers.len(), 2);
    assert_eq!(tiers[0].id, "FastTier");
    assert_eq!(tiers[0].path, "/tmp/fast");
    assert_eq!(percent(&tiers[0]), 75.0);
    assert_eq!(tiers[0].quota_bytes, 0);

    assert_eq!(tiers[1].id, "SlowTier");
    assert_eq!(tiers[1].path, "/tmp/slow");
    assert_eq!(percent(&tiers[1]), 0.0);
    assert_eq!(tiers[1].quota_bytes, 104_857_600);
}

#[test]
fn parse_bytes_string_edge_cases() {
    assert_eq!(parse_bytes_string(""), None);
    assert_eq!(parse_bytes_string("   "), None);
    assert_eq!(parse_bytes_string("abc"), None);
    assert_eq!(parse_bytes_string("  2   MB  trailing words"), Some(2_000_000));
    assert_eq!(parse_bytes_string("-5 kb"), Some(0));
    assert_eq!(parse_bytes_string("nan"), Some(0));
    assert_eq!(parse_bytes_string("inf kb"), Some(usize::MAX));
    assert_eq!(parse_bytes_string("1e3 kb"), Some(1_000_000));
    assert_eq!(parse_bytes_string("1E2"), Some(100));
    assert_eq!(parse_bytes_string("2.5e-1 kib"), Some(256));
    assert_eq!(parse_bytes_string(".5 kb"), Some(500));
    assert_eq!(parse_bytes_string("3. kb"), Some(3000));
    assert_eq!(parse_bytes_string("0.0001 kb"), Some(0));
    assert_eq!(parse_bytes_string("1 \u{212A}B"), Some(1000));
    assert_eq!(parse_bytes_string("7 parsecs"), Some(7));
    assert_eq!(parse_bytes_string("5.3 TiB"), Some(5_827_411_627_212));
    assert_eq!(parse_bytes_string("1e30 tib"), Some(usize::MAX));
    assert_eq!(parse_bytes_string("1e"), None);
    assert_eq!(parse_bytes_string("."), None);
    assert_eq!(parse_bytes_string("1.2.3"), None);
}

#[test]
fn parse_quota_edge_cases() {
    let (b, p) = parse_quota("12.5%");
    assert_eq!((b, p), (0, 12.5));
    let (b, p) = parse_quota(" 90 %");
    assert_eq!((b, p), (0, 90.0));
    let (b, p) = parse_quota("abc%");
    assert_eq!((b, p), (0, 0.0));
    let (b, p) = parse_quota("2 kib");
    assert_eq!((b, p), (2048, 0.0));
}

#[test]
fn config_defaults_and_overrides() {
    let d = Config::default();
    assert_eq!(d.log_level, LogLevel::Normal);
    assert_eq!(copy_buff_sz(&d), 1024 * 1024);
    assert_eq!(d.tier_period_s, 1000);
    assert_eq!(d.run_path, "/var/lib/tierfs");
    assert!(d.log_file.is_none());

    let text = "[Global]\nLog Level = 0\nTier Period = soon\nCopy Buffer Size = lots\nLog File =  /var/log/t.log \n\n[Global]\nRun Path = /ignored\n\n[T1]\nPath =  /mnt/a \n\n[NoPath]\nQuota = 5%\n";
    let (c, tiers) = load(text, &ConfigOverrides::default()).unwrap();
    assert_eq!(c.log_level, LogLevel::Quiet);
    assert_eq!(c.tier_period_s, 1000);
    assert_eq!(copy_buff_sz(&c), 1024 * 1024);
    assert_eq!(c.run_path, "/var/lib/tierfs");
    assert_eq!(c.log_file.as_deref(), Some("/var/log/t.log"));
    assert_eq!(tiers.len(), 1);
    assert_eq!(tiers[0].id, "T1");
    assert_eq!(tiers[0].path, "/mnt/a");
    assert_eq!(percent(&tiers[0]), 80.0);

    let overrides = ConfigOverrides { log_level_override: Some(LogLevel::Debug) };
    let (c, _) = load(text, &overrides).unwrap();
    assert_eq!(c.log_level, LogLevel::Debug);
}

#[test]
fn config_load_reports_parse_errors() {
    let err = load("[Global\nLog Level = 1\n", &ConfigOverrides::default()).unwrap_err();
    assert!(err.starts_with("Failed to parse INI config: "), "{}", err);
}

#[test]
fn run_path_joins_the_hash_of_the_config_path() {
    let path = "/etc/tierfs.conf";
    let mut hasher = DefaultHasher::new();
    path.to_string().hash(&mut hasher);
    let h = hasher.finish();

    let text = "[Global]\nRun Path = /run/tierfs\n";
    assert_eq!(get_run_path(path, Some(text), "/var/lib/tierfs"), format!("/run/tierfs/{}", h));
    assert_eq!(get_run_path(path, None, "/var/lib/autotier"), format!("/var/lib/autotier/{}", h));
    assert_eq!(get_run_path(path, Some("[Global"), "/var/lib/tierfs"), format!("/var/lib/tierfs/{}", h));
    assert_eq!(get_run_path(path, Some("[Global]\nRun Path = /r/\n"), "/x"), format!("/r/{}", h));
}

#[test]
fn file_without_global_section_keeps_defaults() {
    let text = "[T1]\nPath = /a\nLog Level = 2\n";
    let (c, tiers) = load(text, &ConfigOverrides::default()).unwrap();
    assert_eq!(c.log_level, LogLevel::Normal);
    assert_eq!(c.tier_period_s, 1000);
    assert_eq!(copy_buff_sz(&c), 1024 * 1024);
    assert_eq!(c.run_path, "/var/lib/tierfs");
    assert!(c.log_file.is_none());
    assert_eq!(tiers.len(), 1);
    let overrides = ConfigOverrides { log_level_override: Some(LogLevel::Quiet) };
    let (c, _) = load(text, &overrides).unwrap();
    assert_eq!(c.log_level, LogLevel::Quiet);
}

#[test]
fn daemon_flags_and_log_filters() {
    assert_eq!(ConfigOverrides::from_flags(true, true).log_level_override, Some(LogLevel::Debug));
    assert_eq!(ConfigOverrides::from_flags(false, true).log_level_override, Some(LogLevel::Quiet));
    assert_eq!(ConfigOverrides::from_flags(false, false).log_level_override, None);
    assert_eq!(LogLevel::Quiet.log_filter(), "error");
    assert_eq!(LogLevel::Normal.log_filter(), "info");
    assert_eq!(LogLevel::Debug.log_filter(), "trace");
}

#[test]
fn sizes_are_taken_apart_for_the_caller() {
    let s = parse_size("  1.5   KiB  extra ").unwrap();
    assert_eq!((s.number.as_str(), s.multiplier), ("1.5", 1024));
    let s = parse_size("7").unwrap();
    assert_eq!((s.number.as_str(), s.multiplier), ("7", 1));
    assert!(parse_size("x kb").is_none());
    // The caller's floating-point product is what the daemon uses.
    assert_eq!(parse_bytes_string("1.005 kb"), Some(1004));
    match quota_of(" 57 %") {
        Quota::Percent(p) => assert_eq!(p, "57"),
        other => panic!("{:?}", other),
    }
    match quota_of("abc%") {
        Quota::Bytes(None) => {}
        other => panic!("{:?}", other),
    }
    let (c, _) = Config::load("[Global]\nCopy Buffer Size = 3 mb\n", &ConfigOverrides::default()).unwrap();
    assert_eq!((c.copy_buff_sz.number.as_str(), c.copy_buff_sz.multiplier), ("3", 1_000_000));
    assert_eq!(copy_buff_sz(&c), 3_000_000);
    let (c, _) = Config::load("[Global]\nCopy Buffer Size = lots\n", &ConfigOverrides::default()).unwrap();
    assert_eq!((c.copy_buff_sz.number.as_str(), c.copy_buff_sz.multiplier), ("1", 1_048_576));
    assert_eq!(copy_buff_sz(&c), 1024 * 1024);
}

#[test]
fn readme_example_configuration() {
    let text = "[Global]
Log Level = 1
Tier Period = 1000          # Background migration interval (seconds)
Copy Buffer Size = 1 MiB    # Buffer size for migrating files
Run Path = /var/lib/tierfs  # Internal state database path

[Tier1]
Path = /mnt/fast-ssd
Quota = 80%                 # Target utilization threshold

[Tier2]
Path = /mnt/slower-hdd
Quota = 90%
";
    let (c, tiers) = load(text, &ConfigOverrides::default()).unwrap();
    assert_eq!(c.log_level, LogLevel::Normal);
    assert_eq!(c.tier_period_s, 1000);
    assert_eq!(copy_buff_sz(&c), 1_048_576);
    assert_eq!(c.run_path, "/var/lib/tierfs");
    assert_eq!(tiers.len(), 2);
    assert_eq!(tiers[0].id, "Tier1");
    assert_eq!(tiers[0].path, "/mnt/fast-ssd");
    assert_eq!(percent(&tiers[0]), 80.0);
    assert_eq!(tiers[1].id, "Tier2");
    assert_eq!(tiers[1].path, "/mnt/slower-hdd");
    assert_eq!(percent(&tiers[1]), 90.0);
}

#[test]
fn settings_from_a_parsed_document() {
    let doc: Vec<(Option<String>, Vec<(String, String)>)> = vec![
        (None, vec![]),
        (
            Some("Global".to_string()),
            vec![
                ("Log Level".to_string(), " 2 ".to_string()),
                ("Copy Buffer Size".to_string(), "4 KiB".to_string()),
            ],
        ),
        (Some("Fast".to_string()), vec![("Path".to_string(), " /mnt/f ".to_string())]),
        (Some("NoPath".to_string()), vec![("Quota".to_string(), "5%".to_string())]),
    ];
    let (c, tiers) = Config::from_document(&doc, &ConfigOverrides::default());
    assert_eq!(c.log_level, LogLevel::Debug);
    assert_eq!((c.copy_buff_sz.number.as_str(), c.copy_buff_sz.multiplier), ("4", 1024));
    assert_eq!(tiers.len(), 1);
    assert_eq!((tiers[0].id.as_str(), tiers[0].path.as_str()), ("Fast", "/mnt/f"));
    match &tiers[0].quota {
        Quota::Percent(p) => assert_eq!(p, "80"),
        other => panic!("{:?}", other),
    }
}
