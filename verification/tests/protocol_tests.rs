use tierfs::engine::{
    reply_lines,
    daemon_next, DaemonAction,
    classify_entry, decode_request, decode_response, encode_message, handle_adhoc_cmd,
    is_hidden_tierfs_file, pin_targets, pins_report, relative_to, unpin_targets,
    which_tier_report, AdHocReply, CrawlAction,
};
use tierfs::open_files::{
    is_open, register_open_file, release_open_file, resolve_path, FusePriv, OpenFiles,
};
use tierfs::tier::Tier;
use tierfs::tools::{
    directory_rename_prefixes, fuse_custom_options, renamed_key, get_command_index, plan_client_request, reply_outcome, sanitize_paths,
    AdHoc, ClientPlan, Command,
};

fn strings(v: &[&str]) -> Vec<String> {
    v.iter().map(|s| s.to_string()).collect()
}

fn lines(r: &AdHocReply) -> Vec<String> {
    match r {
        AdHocReply::Done(v) => v.clone(),
        _ => panic!("not a complete reply"),
    }
}

#[test]
fn command_names() {
    assert_eq!(get_command_index("tier"), Some(Command::OneShot));
    assert_eq!(get_command_index("OneShot"), Some(Command::OneShot));
    assert_eq!(get_command_index("PIN"), Some(Command::Pin));
    assert_eq!(get_command_index("unpin"), Some(Command::Unpin));
    assert_eq!(get_command_index("Status"), Some(Command::Status));
    assert_eq!(get_command_index("config"), Some(Command::Config));
    assert_eq!(get_command_index("help"), Some(Command::Help));
    assert_eq!(get_command_index("List-Pins"), Some(Command::LPin));
    assert_eq!(get_command_index("lpop"), Some(Command::LPop));
    assert_eq!(get_command_index("which-tier"), Some(Command::WhichTier));
    assert_eq!(get_command_index("whichtier"), Some(Command::WhichTier));
    assert_eq!(get_command_index("P\u{130}N"), None);
    assert_eq!(get_command_index("bogus"), None);
    assert_eq!(get_command_index(""), None);
}

#[test]
fn adhoc_from_payload() {
    assert!(AdHoc::from_payload(&[]).is_none());
    assert!(AdHoc::from_payload(&strings(&["nope", "x"])).is_none());
    let a = AdHoc::from_payload(&strings(&["pin", "Tier1", "/mnt/a"])).unwrap();
    assert_eq!(a.cmd, Command::Pin);
    assert_eq!(a.args, strings(&["Tier1", "/mnt/a"]));
    let b = AdHoc::new(Command::Status, vec![]);
    assert_eq!(b.cmd, Command::Status);
    assert!(b.args.is_empty());
}

#[test]
fn sanitize_drops_empty_paths() {
    let mut p = strings(&["/mnt/a", "", "/mnt/b", ""]);
    sanitize_paths(&mut p, "/mnt");
    assert_eq!(p, strings(&["/mnt/a", "/mnt/b"]));
}

#[test]
fn sanitize_keeps_only_paths_in_the_filesystem() {
    let mut p = strings(&["/etc/passwd", "/mnt/tierfs/a", "/mnt/tierfsx/b", "/mnt/tierfs", "/mnt/tierfs/d/e"]);
    sanitize_paths(&mut p, "/mnt/tierfs");
    assert_eq!(p, strings(&["/mnt/tierfs/a", "/mnt/tierfs", "/mnt/tierfs/d/e"]));
}

#[test]
fn request_round_trip() {
    let payload = strings(&["pin", "Fast \"tier\"", "/mnt/ä b"]);
    let text = encode_message(&payload);
    let job = decode_request(text.as_bytes()).unwrap();
    assert_eq!(job.cmd, Command::Pin);
    assert_eq!(job.args, strings(&["Fast \"tier\"", "/mnt/ä b"]));
    assert_eq!(decode_response(text.as_bytes()), Some(payload));
    assert!(decode_request(b"not json").is_none());
    assert!(decode_request(b"[]").is_none());
    assert!(decode_request(b"[\"frobnicate\"]").is_none());
    assert!(decode_response(b"{}").is_none());
}

#[test]
fn adhoc_replies_and_queue() {
    let mut queue: Vec<AdHoc> = Vec::new();
    let r = handle_adhoc_cmd(AdHoc::new(Command::OneShot, vec![]), true, &mut queue);
    assert_eq!(lines(&r), strings(&["ERR", "tierfs already tiering."]));
    assert!(queue.is_empty());
    let r = handle_adhoc_cmd(AdHoc::new(Command::OneShot, vec![]), false, &mut queue);
    assert_eq!(lines(&r), strings(&["OK", "Work queued."]));
    let r = handle_adhoc_cmd(AdHoc::new(Command::Pin, strings(&["T", "/x"])), true, &mut queue);
    assert_eq!(lines(&r), strings(&["OK", "Work queued."]));
    let r = handle_adhoc_cmd(AdHoc::new(Command::Unpin, strings(&["/x"])), false, &mut queue);
    assert_eq!(lines(&r), strings(&["OK", "Work queued."]));
    assert_eq!(queue.len(), 3);
    assert_eq!(queue[1].cmd, Command::Pin);
    let r = handle_adhoc_cmd(AdHoc::new(Command::Help, vec![]), false, &mut queue);
    assert_eq!(lines(&r), strings(&["ERR", "Unknown or unimplemented command."]));
    assert!(matches!(handle_adhoc_cmd(AdHoc::new(Command::Status, vec![]), false, &mut queue), AdHocReply::ConfigDump));
    assert!(matches!(handle_adhoc_cmd(AdHoc::new(Command::Config, vec![]), false, &mut queue), AdHocReply::ConfigDump));
    assert!(matches!(handle_adhoc_cmd(AdHoc::new(Command::LPin, vec![]), false, &mut queue), AdHocReply::ListPins));
    assert!(matches!(handle_adhoc_cmd(AdHoc::new(Command::LPop, vec![]), false, &mut queue), AdHocReply::ListPopularity));
    match handle_adhoc_cmd(AdHoc::new(Command::WhichTier, strings(&["a"])), false, &mut queue) {
        AdHocReply::WhichTier(args) => assert_eq!(args, strings(&["a"])),
        _ => panic!("expected which-tier"),
    }
    assert_eq!(queue.len(), 3);
}

#[test]
fn reports() {
    let r = which_tier_report(&strings(&["a", "b"]), &[Some("/t1".to_string()), None]);
    assert_eq!(r, "a : /t1\nb : not found\n");
    let rows = vec![("x".to_string(), "/t2".to_string())];
    assert_eq!(pins_report(&rows), "x : /t2\n");
    assert_eq!(pins_report(&[]), "");
}

#[test]
fn pin_and_unpin_targets() {
    let tiers = vec![
        Tier::new("Fast".to_string(), "/f".to_string(), 1, "0".to_string()),
        Tier::new("Slow".to_string(), "/s".to_string(), 1, "0".to_string()),
    ];
    assert!(pin_targets(&[], &tiers, "/mnt").is_none());
    assert!(pin_targets(&strings(&["None"]), &tiers, "/mnt").is_none());
    let (t, rels) = pin_targets(&strings(&["Slow", "/mnt/a/b", "/other/c"]), &tiers, "/mnt").unwrap();
    assert_eq!(t, 1);
    assert_eq!(rels, strings(&["a/b", "/other/c"]));
    assert_eq!(unpin_targets(&strings(&["/mnt/x", "/mntx/y"]), "/mnt"), strings(&["x", "/mntx/y"]));
    assert_eq!(relative_to("/mnt//a/./b", "/mnt"), "a/./b");
}

#[test]
fn crawl_classification() {
    assert!(is_hidden_tierfs_file(".x.tierfs.hide"));
    assert!(!is_hidden_tierfs_file("x.tierfs.hide"));
    assert!(!is_hidden_tierfs_file(".tierfs"));
    assert_eq!(classify_entry(true, false, ".x.tierfs.hide"), CrawlAction::Descend);
    assert_eq!(classify_entry(false, true, "a"), CrawlAction::Skip);
    assert_eq!(classify_entry(false, false, ".a.tierfs.hide"), CrawlAction::Skip);
    assert_eq!(classify_entry(false, false, "a.txt"), CrawlAction::Track);
}

#[test]
fn open_file_registry() {
    let mut open = OpenFiles::new();
    assert!(!is_open(&open, "/a"));
    register_open_file(&mut open, "/a");
    register_open_file(&mut open, "/a");
    register_open_file(&mut open, "/b");
    assert!(is_open(&open, "/a"));
    assert!(is_open(&open, "/b"));
    release_open_file(&mut open, "/a");
    assert!(!is_open(&open, "/a"));
    assert!(is_open(&open, "/b"));
    release_open_file(&mut open, "/zzz");
    assert!(is_open(&open, "/b"));
}

#[test]
fn fuse_private_state() {
    let db = rusqlite::Connection::open_in_memory().unwrap();
    let mut p = FusePriv::new("/etc/tierfs.conf".to_string(), "/mnt".to_string(), db);
    assert_eq!(p.fd_to_path(3), None);
    p.insert_fd_to_path(3, "a.txt".to_string());
    p.insert_size_at_open(3, 42);
    assert_eq!(p.fd_to_path(3), Some("a.txt".to_string()));
    assert_eq!(p.size_at_open(3), Some(42));
    p.remove_fd_to_path(3);
    p.remove_size_at_open(3);
    assert_eq!(p.fd_to_path(3), None);
    assert_eq!(p.size_at_open(3), None);
    assert_eq!(p.mount_point, "/mnt");
}

#[test]
fn encoded_message_text() {
    assert_eq!(encode_message(&strings(&["pin", "x"])), "[\"pin\",\"x\"]");
    assert_eq!(encode_message(&strings(&[])), "[]");
    assert_eq!(encode_message(&strings(&["a\"b"])), "[\"a\\\"b\"]");
}

#[test]
fn request_with_invalid_utf8_is_read_lossily() {
    let job = decode_request(b"[\"pin\",\"\xff\"]").unwrap();
    assert_eq!(job.cmd, Command::Pin);
    assert_eq!(job.args, vec!["\u{FFFD}".to_string()]);
}

#[test]
fn sanitize_twice_is_sanitize_once() {
    let mut p = strings(&["", "/m/a", "", "/x", "/m/b"]);
    sanitize_paths(&mut p, "/m");
    let once = p.clone();
    sanitize_paths(&mut p, "/m");
    assert_eq!(p, once);
    assert_eq!(p, strings(&["/m/a", "/m/b"]));
}

#[test]
fn open_until_released_scenario() {
    let mut open = OpenFiles::new();
    register_open_file(&mut open, "/a");
    register_open_file(&mut open, "/b");
    register_open_file(&mut open, "/a");
    assert!(is_open(&open, "/a"));
    release_open_file(&mut open, "/a");
    assert!(!is_open(&open, "/a"));
    assert!(is_open(&open, "/b"));
}

#[test]
fn resolve_path_prefers_the_recorded_tier() {
    let tiers = vec![
        Tier::new("Fast".to_string(), "/mnt/fast".to_string(), 10, "0".to_string()),
        Tier::new("Slow".to_string(), "/mnt/slow/".to_string(), 10, "0".to_string()),
    ];
    assert_eq!(
        resolve_path(Some("/mnt/slow"), &tiers, "dir/f.txt"),
        Some("/mnt/slow/dir/f.txt".to_string())
    );
    assert_eq!(resolve_path(None, &tiers, "dir/f.txt"), Some("/mnt/fast/dir/f.txt".to_string()));
    assert_eq!(resolve_path(None, &[], "dir/f.txt"), None);
    assert_eq!(resolve_path(Some("/mnt/slow"), &[], "dir/f.txt"), Some("/mnt/slow/dir/f.txt".to_string()));
}

#[test]
fn daemon_loop_steps() {
    let sec: u128 = 1_000_000_000;
    assert_eq!(daemon_next(0, true, false, 5, None), DaemonAction::ServeUntilWoken);
    assert_eq!(daemon_next(0, false, false, 5, None), DaemonAction::Exit);
    assert_eq!(daemon_next(0, true, true, 5, None), DaemonAction::Exit);
    assert_eq!(daemon_next(10, true, false, 7, None), DaemonAction::Tier { wake: 7 + 10 * sec });
    assert_eq!(daemon_next(10, false, false, 7, None), DaemonAction::Tier { wake: 7 + 10 * sec });
    let due = 7 + 10 * sec;
    assert_eq!(daemon_next(10, true, false, 8, Some(due)), DaemonAction::ServeUntil { wake: due });
    assert_eq!(daemon_next(10, true, false, due, Some(due)), DaemonAction::Tier { wake: due + 10 * sec });
    assert_eq!(daemon_next(10, false, false, 8, Some(due)), DaemonAction::Exit);
    assert_eq!(daemon_next(10, true, true, 8, Some(due)), DaemonAction::Exit);
}

#[test]
fn directory_rename_key_prefixes() {
    let (old, new) = directory_rename_prefixes("/music/old", "//music/new/");
    assert_eq!(old, "music/old/");
    assert_eq!(new, "music/new/");
    let (old, new) = directory_rename_prefixes("", "/");
    assert_eq!(old, "/");
    assert_eq!(new, "/");
}

#[test]
fn renamed_keys_match_the_prefix_exactly() {
    assert_eq!(renamed_key("music/old/a.mp3", "music/old/", "music/new/"), Some("music/new/a.mp3".to_string()));
    assert_eq!(renamed_key("music/old/", "music/old/", "x/"), Some("x/".to_string()));
    assert_eq!(renamed_key("music/older/a", "music/old/", "x/"), None);
    assert_eq!(renamed_key("Music/old/a", "music/old/", "x/"), None);
    assert_eq!(renamed_key("a_b/c", "a%b/", "x/"), None);
    assert_eq!(renamed_key("a", "music/old/", "x/"), None);
}

fn failure(p: ClientPlan) -> (String, bool) {
    match p {
        ClientPlan::Fail { message, usage } => (message, usage),
        other => panic!("not a failure: {:?}", other),
    }
}

fn request(p: ClientPlan) -> (Vec<String>, Vec<String>) {
    match p {
        ClientPlan::Send { head, paths } => (head, paths),
        other => panic!("not a request: {:?}", other),
    }
}

#[test]
fn client_plans() {
    assert_eq!(failure(plan_client_request(&[], false)), ("Error: No command passed.".to_string(), true));
    assert_eq!(
        failure(plan_client_request(&strings(&["frob"]), false)),
        ("Error: Invalid command: frob".to_string(), true)
    );
    assert!(matches!(plan_client_request(&strings(&["HELP", "x"]), false), ClientPlan::ShowHelp));
    assert_eq!(
        failure(plan_client_request(&strings(&["pin"]), false)),
        ("Error: No arguments passed (missing target tier).".to_string(), false)
    );
    assert_eq!(
        failure(plan_client_request(&strings(&["pin", "Fast"]), false)),
        ("Error: No arguments passed.".to_string(), false)
    );
    assert_eq!(
        request(plan_client_request(&strings(&["Pin", "Fast", "a", "b"]), false)),
        (strings(&["Pin", "Fast"]), strings(&["a", "b"]))
    );
    assert_eq!(
        failure(plan_client_request(&strings(&["which-tier"]), false)),
        ("Error: No arguments passed.".to_string(), false)
    );
    assert_eq!(
        request(plan_client_request(&strings(&["unpin", "a"]), true)),
        (strings(&["unpin"]), strings(&["a"]))
    );
    assert_eq!(
        request(plan_client_request(&strings(&["status", "ignored"]), true)),
        (strings(&["status", "true"]), strings(&[]))
    );
    assert_eq!(
        request(plan_client_request(&strings(&["status"]), false)),
        (strings(&["status", "false"]), strings(&[]))
    );
    assert_eq!(
        request(plan_client_request(&strings(&["tier", "extra"]), true)),
        (strings(&["tier"]), strings(&[]))
    );
}

#[test]
fn client_reply_outcomes() {
    assert_eq!(reply_outcome(&[]), None);
    assert_eq!(reply_outcome(&strings(&["OK", "a", "b"])), Some((true, strings(&["a", "b"]))));
    assert_eq!(reply_outcome(&strings(&["ERR", "bad"])), Some((false, strings(&["bad"]))));
    assert_eq!(reply_outcome(&strings(&["ok"])), Some((false, strings(&[]))));
}

#[test]
fn fuse_option_lists() {
    assert_eq!(fuse_custom_options("ro, allow_root ,,  "), strings(&["ro", "allow_root"]));
    assert_eq!(fuse_custom_options(""), strings(&[]));
    assert_eq!(fuse_custom_options("a b,c"), strings(&["a b", "c"]));
    assert_eq!(fuse_custom_options(",x,"), strings(&["x"]));
}

#[test]
fn reply_lines_start_with_the_status() {
    assert_eq!(reply_lines(AdHocReply::ConfigDump, "dump".to_string()), strings(&["OK", "dump"]));
    assert_eq!(
        reply_lines(AdHocReply::WhichTier(strings(&["a.txt"])), "a.txt : not found\n".to_string()),
        strings(&["OK", "a.txt : not found\n"])
    );
    assert_eq!(reply_lines(AdHocReply::ListPins, String::new()), strings(&["OK", ""]));
    assert_eq!(reply_lines(AdHocReply::ListPopularity, "p".to_string()), strings(&["OK", "p"]));
    assert_eq!(
        reply_lines(AdHocReply::Done(strings(&["ERR", "x"])), "ignored".to_string()),
        strings(&["ERR", "x"])
    );
}
