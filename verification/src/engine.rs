//! The daemon's decisions: the ad-hoc command protocol between the client
//! and the daemon, the replies to each command, pinning, and which directory
//! entries a tier crawl tracks.

use vstd::prelude::*;
use vstd::utf8::{decode_utf8, encode_utf8, valid_utf8};
use crate::config::string_eq_str;
use crate::tier::Tier;
use crate::tools::{command_of, AdHoc, Command};
use crate::text::str_to_chars;

verus! {

/// What `serde_json::from_str::<Vec<String>>` makes of a text.
pub uninterp spec fn json_string_list(text: Seq<char>) -> Option<Seq<Seq<char>>>;

/// What `serde_json::from_slice::<Vec<String>>` makes of bytes.
pub uninterp spec fn json_string_list_bytes(bytes: Seq<u8>) -> Option<Seq<Seq<char>>>;

/// What `serde_json::to_string` writes for a list of strings.
pub uninterp spec fn json_encode_strings(items: Seq<Seq<char>>) -> Seq<char>;

/// What `String::from_utf8_lossy` makes of bytes.
pub uninterp spec fn utf8_lossy(bytes: Seq<u8>) -> Seq<char>;

/// `serde_json::from_str::<Vec<String>>`: a JSON array of strings, or
/// `None` when the text is not one. Only the outcome is named here.
#[verifier::external_body]
fn json_from_str(text: &str) -> (r: Option<Vec<String>>)
    ensures
        r.deep_view() == json_string_list(text@),
{
    serde_json::from_str::<Vec<String>>(text).ok()
}

/// `serde_json::from_slice::<Vec<String>>`: a JSON array of strings read
/// from bytes, or `None` when they are not one. Only the outcome is named.
#[verifier::external_body]
fn json_from_slice(bytes: &[u8]) -> (r: Option<Vec<String>>)
    ensures
        r.deep_view() == json_string_list_bytes(bytes@),
{
    serde_json::from_slice::<Vec<String>>(bytes).ok()
}

/// `serde_json::to_string` on a list of strings (which cannot fail for
/// strings). The contract names the text and states that serde_json reads
/// it back, as text or as its UTF-8 bytes, as the same list: serde_json
/// escapes every string it writes so that its reader restores it.
#[verifier::external_body]
fn json_to_string(items: &Vec<String>) -> (r: String)
    ensures
        r@ == json_encode_strings(items.deep_view()),
        json_string_list(r@) == Some(items.deep_view()),
        json_string_list_bytes(encode_utf8(r@)) == Some(items.deep_view()),
{
    serde_json::to_string(items).unwrap_or_default()
}

/// `String::from_utf8_lossy`: the text that the bytes encode, with each
/// invalid sequence replaced by U+FFFD; bytes that are valid UTF-8 give
/// exactly the text they encode, as std documents.
#[verifier::external_body]
fn from_utf8_lossy(bytes: &[u8]) -> (r: String)
    ensures
        r@ == utf8_lossy(bytes@),
        valid_utf8(bytes@) ==> r@ == decode_utf8(bytes@),
{
    String::from_utf8_lossy(bytes).into_owned()
}

/// The text of a message as the daemon reads it.
pub open spec fn message_text(bytes: Seq<u8>) -> Seq<char> {
    if valid_utf8(bytes) {
        decode_utf8(bytes)
    } else {
        utf8_lossy(bytes)
    }
}

/// The job that a list of strings asks for: the first names the command,
/// the rest are its arguments.
pub open spec fn adhoc_of(items: Seq<Seq<char>>) -> Option<(Command, Seq<Seq<char>>)> {
    if items.len() == 0 {
        None
    } else {
        match command_of(items[0]) {
            Some(c) => Some((c, items.skip(1))),
            None => None,
        }
    }
}

/// The job that a request's bytes ask for.
pub open spec fn request_of(bytes: Seq<u8>) -> Option<(Command, Seq<Seq<char>>)> {
    match json_string_list(message_text(bytes)) {
        Some(items) => adhoc_of(items),
        None => None,
    }
}

/// Writes a message (a request of the client or a reply of the daemon) as
/// the JSON text sent over the socket.
pub fn encode_message(items: &Vec<String>) -> (r: String)
    ensures
        r@ == json_encode_strings(items.deep_view()),
        json_string_list(r@) == Some(items.deep_view()),
        json_string_list_bytes(encode_utf8(r@)) == Some(items.deep_view()),
{
    json_to_string(items)
}

/// Reads the job that a client's request asks for.
pub fn decode_request(bytes: &[u8]) -> (r: Option<AdHoc>)
    ensures
        match r {
            Some(a) => request_of(bytes@) == Some((a.cmd, a.args.deep_view())),
            None => request_of(bytes@) is None,
        },
{
    let text = from_utf8_lossy(bytes);
    assert(text@ == message_text(bytes@));
    match json_from_str(text.as_str()) {
        Some(payload) => {
            let r = AdHoc::from_payload(payload.as_slice());
            proof {
                let items = payload.deep_view();
                if payload@.len() > 0 {
                    assert(items[0] == payload@[0]@);
                }
                if r is Some {
                    assert(r->0.args.deep_view() =~= items.skip(1));
                }
            }
            r
        },
        None => None,
    }
}

/// Reads the daemon's reply as the client does.
pub fn decode_response(bytes: &[u8]) -> (r: Option<Vec<String>>)
    ensures
        r.deep_view() == json_string_list_bytes(bytes@),
{
    json_from_slice(bytes)
}

/// A request that the client writes reaches the daemon as the job that the
/// request's strings ask for.
pub proof fn lemma_request_round_trip(text: Seq<char>, items: Seq<Seq<char>>)
    requires
        json_string_list(text) == Some(items),
    ensures
        request_of(encode_utf8(text)) == adhoc_of(items),
{
    vstd::utf8::encode_utf8_valid_utf8(text);
    vstd::utf8::encode_utf8_decode_utf8(text);
}

/// What the daemon answers a job with, once the job is queued if it is
/// one to run later.
#[derive(Debug)]
pub enum AdHocReply {
    /// The reply is complete.
    Done(Vec<String>),
    /// `OK`, then the configuration and tiers as `Config::dump` writes them.
    ConfigDump,
    /// `OK`, then the pinned files and their tiers.
    ListPins,
    /// `OK`, then the tracked files and their popularity.
    ListPopularity,
    /// `OK`, then the tier of each of these files.
    WhichTier(Vec<String>),
}

/// A complete reply of two lines.
pub open spec fn is_reply(r: AdHocReply, status: Seq<char>, message: Seq<char>) -> bool {
    r matches AdHocReply::Done(v) && v@.len() == 2 && v@[0]@ == status && v@[1]@ == message
}

fn reply(status: &str, message: &str) -> (r: AdHocReply)
    ensures
        is_reply(r, status@, message@),
{
    let mut v: Vec<String> = Vec::new();
    v.push(status.to_owned());
    v.push(message.to_owned());
    AdHocReply::Done(v)
}

/// Decides what a job received over the socket does: a tiering run (unless
/// one is under way), a pin or an unpin is queued for the engine and
/// acknowledged; the other commands are answered at once; `help` is refused.
pub fn handle_adhoc_cmd(work: AdHoc, currently_tiering: bool, queue: &mut Vec<AdHoc>) -> (r: AdHocReply)
    ensures
        match work.cmd {
            Command::OneShot => if currently_tiering {
                &&& final(queue)@ == old(queue)@
                &&& is_reply(r, "ERR"@, "tierfs already tiering."@)
            } else {
                &&& final(queue)@ == old(queue)@.push(work)
                &&& is_reply(r, "OK"@, "Work queued."@)
            },
            Command::Pin | Command::Unpin => {
                &&& final(queue)@ == old(queue)@.push(work)
                &&& is_reply(r, "OK"@, "Work queued."@)
            },
            Command::Status | Command::Config => final(queue)@ == old(queue)@ && r is ConfigDump,
            Command::LPin => final(queue)@ == old(queue)@ && r is ListPins,
            Command::LPop => final(queue)@ == old(queue)@ && r is ListPopularity,
            Command::WhichTier => {
                &&& final(queue)@ == old(queue)@
                &&& (r matches AdHocReply::WhichTier(args) && args@ == work.args@)
            },
            Command::Help => {
                &&& final(queue)@ == old(queue)@
                &&& is_reply(r, "ERR"@, "Unknown or unimplemented command."@)
            },
        },
{
    match work.cmd {
        Command::OneShot => {
            if currently_tiering {
                reply("ERR", "tierfs already tiering.")
            } else {
                queue.push(work);
                reply("OK", "Work queued.")
            }
        },
        Command::Pin | Command::Unpin => {
            queue.push(work);
            reply("OK", "Work queued.")
        },
        Command::Status | Command::Config => AdHocReply::ConfigDump,
        Command::LPin => AdHocReply::ListPins,
        Command::LPop => AdHocReply::ListPopularity,
        Command::WhichTier => AdHocReply::WhichTier(work.args),
        Command::Help => reply("ERR", "Unknown or unimplemented command."),
    }
}

/// The lines that the daemon sends back for a reply: a complete reply as
/// it is; otherwise the status line `OK`, then `body`, the text that the
/// reply asks for (the configuration dump, the pinned files, the popularity
/// of the tracked files, or the which-tier report).
pub fn reply_lines(reply: AdHocReply, body: String) -> (r: Vec<String>)
    ensures
        match reply {
            AdHocReply::Done(v) => r@ == v@,
            _ => r@.len() == 2 && r@[0]@ == "OK"@ && r@[1] == body,
        },
{
    match reply {
        AdHocReply::Done(v) => v,
        _ => {
            let mut r: Vec<String> = Vec::new();
            r.push("OK".to_owned());
            r.push(body);
            r
        },
    }
}

/// One line per file: `path : tier path`, or `path : not found` for a file
/// that the database does not know.
pub open spec fn which_tier_text(args: Seq<Seq<char>>, locations: Seq<Option<Seq<char>>>) -> Seq<char>
    decreases args.len(),
{
    if args.len() == 0 {
        Seq::empty()
    } else {
        let k = args.len() - 1;
        which_tier_text(args.drop_last(), locations) + args[k] + " : "@ + match locations[k] {
            Some(t) => t,
            None => "not found"@,
        } + "\n"@
    }
}

/// The which-tier report has one line per file, in order: no files give an
/// empty text, and one more file adds its line at the end, `path : tier path`
/// when the database knows where it is and `path : not found` otherwise.
pub proof fn lemma_which_tier_one_line_per_file(
    args: Seq<Seq<char>>,
    locations: Seq<Option<Seq<char>>>,
    file: Seq<char>,
)
    ensures
        which_tier_text(Seq::empty(), locations) == Seq::<char>::empty(),
        which_tier_text(args.push(file), locations) == which_tier_text(args, locations) + file
            + " : "@ + match locations[args.len() as int] {
            Some(t) => t,
            None => "not found"@,
        } + "\n"@,
{
    assert(args.push(file).drop_last() =~= args);
}

/// The answer to `which-tier`: for each file, the tier path that the
/// database records (`None` when it has no record).
pub fn which_tier_report(args: &[String], locations: &[Option<String>]) -> (r: String)
    requires
        args@.len() == locations@.len(),
    ensures
        r@ == which_tier_text(args.deep_view(), locations.deep_view()),
{
    let mut r = String::new();
    let mut i: usize = 0;
    while i < args.len()
        invariant
            i <= args@.len() == locations@.len(),
            r@ == which_tier_text(args.deep_view().subrange(0, i as int), locations.deep_view()),
        decreases args.len() - i,
    {
        let ghost pre = args.deep_view().subrange(0, i as int);
        assert(args.deep_view().subrange(0, i + 1).drop_last() == pre);
        r.append(args[i].as_str());
        r.append(" : ");
        match &locations[i] {
            Some(t) => {
                r.append(t.as_str());
            },
            None => {
                r.append("not found");
            },
        }
        r.append("\n");
        i = i + 1;
    }
    assert(args.deep_view().subrange(0, args@.len() as int) == args.deep_view());
    r
}

/// One line per pinned file: `path : tier path`.
pub open spec fn pins_text(rows: Seq<(Seq<char>, Seq<char>)>) -> Seq<char>
    decreases rows.len(),
{
    if rows.len() == 0 {
        Seq::empty()
    } else {
        let k = rows.len() - 1;
        pins_text(rows.drop_last()) + rows[k].0 + " : "@ + rows[k].1 + "\n"@
    }
}

/// The list of pins has one line per pinned file, in order: no rows give an
/// empty text, and one more row adds its line `path : tier path` at the end.
pub proof fn lemma_pins_text_one_line_per_row(rows: Seq<(Seq<char>, Seq<char>)>, row: (Seq<char>, Seq<char>))
    ensures
        pins_text(Seq::empty()) == Seq::<char>::empty(),
        pins_text(rows.push(row)) == pins_text(rows) + row.0 + " : "@ + row.1 + "\n"@,
{
    assert(rows.push(row).drop_last() =~= rows);
}

/// The list of pins for two runs of rows is the list for the first run
/// followed by the list for the second.
pub proof fn lemma_pins_text_concat(a: Seq<(Seq<char>, Seq<char>)>, b: Seq<(Seq<char>, Seq<char>)>)
    ensures
        pins_text(a + b) == pins_text(a) + pins_text(b),
    decreases b.len(),
{
    if b.len() == 0 {
        assert(a + b =~= a);
        assert(pins_text(a) + Seq::<char>::empty() =~= pins_text(a));
    } else {
        lemma_pins_text_concat(a, b.drop_last());
        assert((a + b).drop_last() =~= a + b.drop_last());
        assert((a + b).last() == b.last());
        let l = b.last();
        assert(pins_text(a + b) == pins_text(a + b.drop_last()) + l.0 + " : "@ + l.1 + "\n"@);
        assert(pins_text(b) == pins_text(b.drop_last()) + l.0 + " : "@ + l.1 + "\n"@);
        assert(pins_text(a) + pins_text(b.drop_last()) + l.0 + " : "@ + l.1 + "\n"@ =~= pins_text(a)
            + (pins_text(b.drop_last()) + l.0 + " : "@ + l.1 + "\n"@));
    }
}

/// The answer to `list-pins`, from the pinned files and their tier paths.
pub fn pins_report(rows: &[(String, String)]) -> (r: String)
    ensures
        r@ == pins_text(rows.deep_view()),
{
    let mut r = String::new();
    let mut i: usize = 0;
    while i < rows.len()
        invariant
            i <= rows@.len(),
            r@ == pins_text(rows.deep_view().subrange(0, i as int)),
        decreases rows.len() - i,
    {
        assert(rows.deep_view().subrange(0, i + 1).drop_last() == rows.deep_view().subrange(
            0,
            i as int,
        ));
        r.append(rows[i].0.as_str());
        r.append(" : ");
        r.append(rows[i].1.as_str());
        r.append("\n");
        i = i + 1;
    }
    assert(rows.deep_view().subrange(0, rows@.len() as int) == rows.deep_view());
    r
}

/// What `Path::strip_prefix` leaves of `path` once the leading components
/// that make up `base` are removed (`None` when `base` is no prefix).
pub uninterp spec fn std_strip_prefix(path: Seq<char>, base: Seq<char>) -> Option<Seq<char>>;

/// `std::path::Path::strip_prefix`, on paths given as text. Only the outcome
/// is named here: std compares whole components, which is not restated.
#[verifier::external_body]
pub(crate) fn strip_path_prefix(path: &str, base: &str) -> (r: Option<String>)
    ensures
        r.deep_view() == std_strip_prefix(path@, base@),
{
    std::path::Path::new(path).strip_prefix(base).ok().map(|p| p.to_string_lossy().into_owned())
}

/// `path` relative to `base`, or `path` itself when it is not under `base`.
pub open spec fn relative_spec(path: Seq<char>, base: Seq<char>) -> Seq<char> {
    match std_strip_prefix(path, base) {
        Some(r) => r,
        None => path,
    }
}

/// `path` relative to `base`, or `path` itself when it is not under `base`.
pub fn relative_to(path: &str, base: &str) -> (r: String)
    ensures
        r@ == relative_spec(path@, base@),
{
    match strip_path_prefix(path, base) {
        Some(rel) => rel,
        None => path.to_owned(),
    }
}

/// The first tier at or after `k` whose name is `name`.
pub open spec fn find_tier_spec(tiers: Seq<Tier>, name: Seq<char>, k: int) -> Option<int>
    decreases tiers.len() - k,
{
    if k < 0 || k >= tiers.len() {
        None
    } else if tiers[k].id@ == name {
        Some(k)
    } else {
        find_tier_spec(tiers, name, k + 1)
    }
}

/// The tier that a name finds is the first tier with that name: it has the
/// name and no tier before it does; when none is found, no tier at or after
/// the starting place has the name.
pub proof fn lemma_find_tier_first_named(tiers: Seq<Tier>, name: Seq<char>, k: int)
    requires
        0 <= k,
    ensures
        find_tier_spec(tiers, name, k) matches Some(j) ==> k <= j < tiers.len() && tiers[j].id@ == name
            && forall|i: int| k <= i < j ==> (#[trigger] tiers[i]).id@ != name,
        find_tier_spec(tiers, name, k) is None ==> forall|i: int|
            k <= i < tiers.len() ==> (#[trigger] tiers[i]).id@ != name,
    decreases tiers.len() - k,
{
    if k < tiers.len() && tiers[k].id@ != name {
        lemma_find_tier_first_named(tiers, name, k + 1);
    }
}

/// The index of the first tier named `name`.
pub fn find_tier(tiers: &[Tier], name: &str) -> (r: Option<usize>)
    ensures
        r matches Some(k) ==> k < tiers@.len(),
        match r {
            Some(k) => find_tier_spec(tiers@, name@, 0) == Some(k as int),
            None => find_tier_spec(tiers@, name@, 0) is None,
        },
{
    let mut i: usize = 0;
    while i < tiers.len()
        invariant
            i <= tiers@.len(),
            find_tier_spec(tiers@, name@, 0) == find_tier_spec(tiers@, name@, i as int),
        decreases tiers.len() - i,
    {
        if string_eq_str(&tiers[i].id, name) {
            return Some(i);
        }
        i = i + 1;
    }
    None
}

/// The files of an `unpin` job, relative to the mount point.
pub fn unpin_targets(args: &[String], mount_point: &str) -> (rels: Vec<String>)
    ensures
        rels@.len() == args@.len(),
        forall|k: int|
            0 <= k < args@.len() ==> (#[trigger] rels@[k])@ == relative_spec(args@[k]@, mount_point@),
{
    let mut rels: Vec<String> = Vec::new();
    let mut i: usize = 0;
    while i < args.len()
        invariant
            i <= args@.len(),
            rels@.len() == i,
            forall|k: int|
                0 <= k < i ==> (#[trigger] rels@[k])@ == relative_spec(args@[k]@, mount_point@),
        decreases args.len() - i,
    {
        rels.push(relative_to(args[i].as_str(), mount_point));
        i = i + 1;
    }
    rels
}

/// The target tier and files of a `pin` job: the first argument names the
/// tier, the others are the files, taken relative to the mount point. There
/// is nothing to do without arguments or when no tier has that name.
pub fn pin_targets(args: &[String], tiers: &[Tier], mount_point: &str) -> (r: Option<(usize, Vec<String>)>)
    ensures
        args@.len() == 0 ==> r is None,
        args@.len() > 0 ==> match find_tier_spec(tiers@, args@[0]@, 0) {
            None => r is None,
            Some(k) => r matches Some(plan) && plan.0 == k && plan.1@.len() == args@.len() - 1
                && forall|j: int|
                0 <= j < plan.1@.len() ==> (#[trigger] plan.1@[j])@ == relative_spec(
                    args@[j + 1]@,
                    mount_point@,
                ),
        },
{
    if args.len() == 0 {
        return None;
    }
    let t = match find_tier(tiers, args[0].as_str()) {
        Some(t) => t,
        None => {
            return None;
        },
    };
    let mut rels: Vec<String> = Vec::new();
    let mut i: usize = 1;
    while i < args.len()
        invariant
            1 <= i <= args@.len(),
            rels@.len() == i - 1,
            forall|j: int|
                0 <= j < i - 1 ==> (#[trigger] rels@[j])@ == relative_spec(args@[j + 1]@, mount_point@),
        decreases args.len() - i,
    {
        rels.push(relative_to(args[i].as_str(), mount_point));
        i = i + 1;
    }
    Some((t, rels))
}

/// Whether `s` ends with `suffix`.
pub open spec fn ends_with(s: Seq<char>, suffix: Seq<char>) -> bool {
    s.len() >= suffix.len() && s.subrange(s.len() - suffix.len(), s.len() as int) == suffix
}

/// The names of the files that tierfs keeps for itself on a tier.
pub open spec fn is_hidden_name(name: Seq<char>) -> bool {
    name.len() > 0 && name[0] == '.' && ends_with(name, ".tierfs.hide"@)
}

pub fn is_hidden_tierfs_file(name: &str) -> (b: bool)
    ensures
        b == is_hidden_name(name@),
{
    let c = str_to_chars(name);
    let suffix = str_to_chars(".tierfs.hide");
    if c.len() == 0 || c[0] != '.' || c.len() < suffix.len() {
        return false;
    }
    let tail = crate::text::sub_chars(c.as_slice(), c.len() - suffix.len(), c.len());
    crate::text::chars_eq(tail.as_slice(), suffix.as_slice())
}

/// What a tier crawl does with a directory entry.
#[derive(Debug, Clone, Copy, PartialEq, Eq, Structural)]
pub enum CrawlAction {
    /// Crawl the directory.
    Descend,
    /// Leave the entry out.
    Skip,
    /// Track the file as a candidate for tiering.
    Track,
}

/// Directories are crawled; symbolic links and tierfs's own hidden files are
/// left out; every other file is tracked.
pub fn classify_entry(is_dir: bool, is_symlink: bool, file_name: &str) -> (a: CrawlAction)
    ensures
        a == if is_dir {
            CrawlAction::Descend
        } else if is_symlink || is_hidden_name(file_name@) {
            CrawlAction::Skip
        } else {
            CrawlAction::Track
        },
{
    if is_dir {
        CrawlAction::Descend
    } else if is_symlink || is_hidden_tierfs_file(file_name) {
        CrawlAction::Skip
    } else {
        CrawlAction::Track
    }
}

/// What the daemon's main loop does next.
#[derive(Debug, Clone, Copy, PartialEq, Eq, Structural)]
pub enum DaemonAction {
    /// Run the queued work, then sleep until woken.
    ServeUntilWoken,
    /// Run a tiering pass; the next one is due at `wake` (in nanoseconds).
    Tier { wake: u128 },
    /// Run the queued work, then sleep until `wake` or until woken.
    ServeUntil { wake: u128 },
    /// Leave the loop.
    Exit,
}

/// The daemon's main loop, one step at a time. With a tier period of zero
/// it only serves queued work, sleeping until woken in between. Otherwise it
/// runs a tiering pass every `period_s` seconds and serves queued work until
/// the next pass is due. Outside daemon mode, or once stopped, it leaves the
/// loop (after the first pass when there is a period). `now` is the time in
/// nanoseconds, and `pending_wake` the time at which the next pass is due,
/// `None` before the first pass.
pub open spec fn daemon_step(
    period_s: u64,
    daemon_mode: bool,
    stopped: bool,
    now: u128,
    pending_wake: Option<u128>,
) -> DaemonAction {
    if period_s == 0 {
        if daemon_mode && !stopped {
            DaemonAction::ServeUntilWoken
        } else {
            DaemonAction::Exit
        }
    } else {
        match pending_wake {
            None => DaemonAction::Tier { wake: (now + period_s * 1_000_000_000) as u128 },
            Some(w) => if daemon_mode && !stopped && now < w {
                DaemonAction::ServeUntil { wake: w }
            } else if !daemon_mode || stopped {
                DaemonAction::Exit
            } else {
                DaemonAction::Tier { wake: (now + period_s * 1_000_000_000) as u128 }
            },
        }
    }
}

/// The next step of the daemon's main loop (see [`daemon_step`]).
pub fn daemon_next(period_s: u64, daemon_mode: bool, stopped: bool, now: u128, pending_wake: Option<u128>) -> (a: DaemonAction)
    requires
        now + period_s * 1_000_000_000 <= u128::MAX,
    ensures
        a == daemon_step(period_s, daemon_mode, stopped, now, pending_wake),
{
    if period_s == 0 {
        if daemon_mode && !stopped {
            DaemonAction::ServeUntilWoken
        } else {
            DaemonAction::Exit
        }
    } else {
        let period_ns: u128 = (period_s as u128) * 1_000_000_000;
        match pending_wake {
            None => DaemonAction::Tier { wake: now + period_ns },
            Some(w) => {
                if daemon_mode && !stopped && now < w {
                    DaemonAction::ServeUntil { wake: w }
                } else if !daemon_mode || stopped {
                    DaemonAction::Exit
                } else {
                    DaemonAction::Tier { wake: now + period_ns }
                }
            },
        }
    }
}

/// A running daemon with a tier period runs a pass at once, then serves
/// queued work until the pass after it is due, `period_s` seconds later, and
/// then runs that pass; once stopped, it leaves the loop instead.
pub proof fn lemma_daemon_paces_passes(period_s: u64, start: u128, t: u128)
    requires
        period_s > 0,
        start + period_s * 1_000_000_000 <= u128::MAX,
    ensures
        ({
            let due = (start + period_s * 1_000_000_000) as u128;
            &&& daemon_step(period_s, true, false, start, None) == (DaemonAction::Tier { wake: due })
            &&& start <= t < due ==> daemon_step(period_s, true, false, t, Some(due)) == (
            DaemonAction::ServeUntil { wake: due })
            &&& t >= due ==> daemon_step(period_s, true, false, t, Some(due)) is Tier
            &&& daemon_step(period_s, true, true, t, Some(due)) == DaemonAction::Exit
        }),
{
}

/// Without a tier period the daemon never runs a pass on its own: it only
/// serves queued work, until stopped.
pub proof fn lemma_no_period_only_serves(daemon_mode: bool, stopped: bool, t: u128, w: Option<u128>)
    ensures
        daemon_step(0, daemon_mode, stopped, t, w) == if daemon_mode && !stopped {
            DaemonAction::ServeUntilWoken
        } else {
            DaemonAction::Exit
        },
{
}

} // verus!
