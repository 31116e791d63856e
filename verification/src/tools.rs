//! Commands of the command-line client and the ad-hoc jobs they become.

use vstd::prelude::*;
use crate::engine::{std_strip_prefix, strip_path_prefix};
use crate::text::{
    append_chars, chars_eq, fold_char, lower_eq, lower_eq_str, str_to_chars, string_from_chars, sub_chars,
    trim_chars, trim_spec,
};

verus! {

/// A command sent by the client to the daemon.
#[derive(Debug, Clone, Copy, PartialEq, Eq, Structural)]
pub enum Command {
    OneShot,
    Pin,
    Unpin,
    Status,
    Config,
    Help,
    LPin,
    LPop,
    WhichTier,
}

/// The command that a command name selects, compared without regard to case.
pub open spec fn command_of(s: Seq<char>) -> Option<Command> {
    if lower_eq(s, "oneshot"@) || lower_eq(s, "tier"@) {
        Some(Command::OneShot)
    } else if lower_eq(s, "pin"@) {
        Some(Command::Pin)
    } else if lower_eq(s, "unpin"@) {
        Some(Command::Unpin)
    } else if lower_eq(s, "status"@) {
        Some(Command::Status)
    } else if lower_eq(s, "config"@) {
        Some(Command::Config)
    } else if lower_eq(s, "help"@) {
        Some(Command::Help)
    } else if lower_eq(s, "lpin"@) || lower_eq(s, "list-pins"@) {
        Some(Command::LPin)
    } else if lower_eq(s, "lpop"@) || lower_eq(s, "list-popularity"@) {
        Some(Command::LPop)
    } else if lower_eq(s, "whichtier"@) || lower_eq(s, "which-tier"@) {
        Some(Command::WhichTier)
    } else {
        None
    }
}

/// Whether `s` is, without regard to case, one of the names of a command.
pub open spec fn names_command(s: Seq<char>) -> bool {
    lower_eq(s, "oneshot"@) || lower_eq(s, "tier"@) || lower_eq(s, "pin"@) || lower_eq(s, "unpin"@)
        || lower_eq(s, "status"@) || lower_eq(s, "config"@) || lower_eq(s, "help"@) || lower_eq(
        s,
        "lpin"@,
    ) || lower_eq(s, "list-pins"@) || lower_eq(s, "lpop"@) || lower_eq(s, "list-popularity"@)
        || lower_eq(s, "whichtier"@) || lower_eq(s, "which-tier"@)
}

/// The command names, without regard to case, and what each selects:
/// `oneshot`/`tier` a tiering run, `pin`, `unpin`, `status`, `config`,
/// `help`, `lpin`/`list-pins` the pinned files, `lpop`/`list-popularity`
/// the popularity list, `whichtier`/`which-tier` the tier of files; every
/// other name selects nothing.
pub proof fn lemma_command_names(s: Seq<char>)
    ensures
        lower_eq(s, "oneshot"@) || lower_eq(s, "tier"@) ==> command_of(s) == Some(Command::OneShot),
        lower_eq(s, "pin"@) ==> command_of(s) == Some(Command::Pin),
        lower_eq(s, "unpin"@) ==> command_of(s) == Some(Command::Unpin),
        lower_eq(s, "status"@) ==> command_of(s) == Some(Command::Status),
        lower_eq(s, "config"@) ==> command_of(s) == Some(Command::Config),
        lower_eq(s, "help"@) ==> command_of(s) == Some(Command::Help),
        lower_eq(s, "lpin"@) || lower_eq(s, "list-pins"@) ==> command_of(s) == Some(Command::LPin),
        lower_eq(s, "lpop"@) || lower_eq(s, "list-popularity"@) ==> command_of(s) == Some(
            Command::LPop,
        ),
        lower_eq(s, "whichtier"@) || lower_eq(s, "which-tier"@) ==> command_of(s) == Some(
            Command::WhichTier,
        ),
        !names_command(s) ==> command_of(s) is None,
{
    reveal_strlit("oneshot");
    reveal_strlit("tier");
    reveal_strlit("pin");
    reveal_strlit("unpin");
    reveal_strlit("status");
    reveal_strlit("config");
    reveal_strlit("help");
    reveal_strlit("lpin");
    reveal_strlit("list-pins");
    reveal_strlit("lpop");
    reveal_strlit("list-popularity");
    reveal_strlit("whichtier");
    reveal_strlit("which-tier");
    if s.len() > 2 {
        let c0 = fold_char(s[0]);
        let c2 = fold_char(s[2]);
        assert(c0 == c0 && c2 == c2);
    }
}

/// The command that a command name selects.
pub fn get_command_index(cmd: &str) -> (r: Option<Command>)
    ensures
        r == command_of(cmd@),
{
    let c = str_to_chars(cmd);
    let s = c.as_slice();
    if lower_eq_str(s, "oneshot") || lower_eq_str(s, "tier") {
        Some(Command::OneShot)
    } else if lower_eq_str(s, "pin") {
        Some(Command::Pin)
    } else if lower_eq_str(s, "unpin") {
        Some(Command::Unpin)
    } else if lower_eq_str(s, "status") {
        Some(Command::Status)
    } else if lower_eq_str(s, "config") {
        Some(Command::Config)
    } else if lower_eq_str(s, "help") {
        Some(Command::Help)
    } else if lower_eq_str(s, "lpin") || lower_eq_str(s, "list-pins") {
        Some(Command::LPin)
    } else if lower_eq_str(s, "lpop") || lower_eq_str(s, "list-popularity") {
        Some(Command::LPop)
    } else if lower_eq_str(s, "whichtier") || lower_eq_str(s, "which-tier") {
        Some(Command::WhichTier)
    } else {
        None
    }
}

/// An ad-hoc job: a command and its arguments.
#[derive(Debug)]
pub struct AdHoc {
    pub cmd: Command,
    pub args: Vec<String>,
}

/// A copy of `v`, string by string.
pub fn copy_strings(v: &[String]) -> (r: Vec<String>)
    ensures
        r@ == v@,
{
    let mut r: Vec<String> = Vec::new();
    let mut i: usize = 0;
    while i < v.len()
        invariant
            i <= v@.len(),
            r@ == v@.subrange(0, i as int),
        decreases v.len() - i,
    {
        r.push(v[i].clone());
        i = i + 1;
    }
    assert(v@.subrange(0, v@.len() as int) == v@);
    r
}

impl Clone for AdHoc {
    fn clone(&self) -> (r: Self)
        ensures
            r.cmd == self.cmd,
            r.args@ == self.args@,
    {
        AdHoc { cmd: self.cmd, args: copy_strings(self.args.as_slice()) }
    }
}

impl AdHoc {
    pub fn new(cmd: Command, args: Vec<String>) -> (a: Self)
        ensures
            a.cmd == cmd,
            a.args == args,
    {
        AdHoc { cmd, args }
    }

    /// A job from a message whose first element names the command and whose
    /// other elements are its arguments; `None` when the message is empty or
    /// names no command.
    pub fn from_payload(payload: &[String]) -> (r: Option<Self>)
        ensures
            match r {
                Some(a) => payload@.len() > 0 && command_of(payload@[0]@) == Some(a.cmd)
                    && a.args@ == payload@.skip(1),
                None => payload@.len() == 0 || command_of(payload@[0]@) is None,
            },
    {
        if payload.len() == 0 {
            return None;
        }
        let cmd = match get_command_index(payload[0].as_str()) {
            Some(c) => c,
            None => {
                return None;
            },
        };
        let mut args: Vec<String> = Vec::new();
        let mut i: usize = 1;
        while i < payload.len()
            invariant
                1 <= i <= payload@.len(),
                args@ == payload@.subrange(1, i as int),
            decreases payload.len() - i,
        {
            args.push(payload[i].clone());
            i = i + 1;
        }
        assert(payload@.subrange(1, payload@.len() as int) == payload@.skip(1));
        Some(AdHoc { cmd, args })
    }
}

/// Whether `path` lies in the tierfs filesystem mounted at `mount_point`:
/// it is not empty and `Path::strip_prefix` finds the mount point at its
/// start (whole components compared).
pub open spec fn in_filesystem(path: Seq<char>, mount_point: Seq<char>) -> bool {
    path.len() > 0 && std_strip_prefix(path, mount_point) is Some
}

/// The paths of `paths` that lie in the filesystem mounted at
/// `mount_point`, in order.
pub open spec fn sanitized_paths(paths: Seq<String>, mount_point: Seq<char>) -> Seq<String>
    decreases paths.len(),
{
    if paths.len() == 0 {
        Seq::empty()
    } else {
        let prev = sanitized_paths(paths.drop_last(), mount_point);
        if in_filesystem(paths.last()@, mount_point) {
            prev.push(paths.last())
        } else {
            prev
        }
    }
}

/// Keeps the paths that lie in the tierfs filesystem mounted at
/// `mount_point`, in order, and drops the others (empty paths among them).
pub fn sanitize_paths(paths: &mut Vec<String>, mount_point: &str)
    ensures
        final(paths)@ == sanitized_paths(old(paths)@, mount_point@),
{
    let ghost p0 = paths@;
    let mut kept: Vec<String> = Vec::new();
    let mut i: usize = 0;
    while i < paths.len()
        invariant
            paths@ == p0,
            i <= p0.len(),
            kept@ == sanitized_paths(p0.subrange(0, i as int), mount_point@),
        decreases paths.len() - i,
    {
        assert(p0.subrange(0, i + 1).drop_last() == p0.subrange(0, i as int));
        assert(p0.subrange(0, i + 1).last() == p0[i as int]);
        if !paths[i].as_str().is_empty() {
            if strip_path_prefix(paths[i].as_str(), mount_point).is_some() {
                kept.push(paths[i].clone());
            }
        }
        i = i + 1;
    }
    assert(p0.subrange(0, p0.len() as int) == p0);
    *paths = kept;
}

proof fn lemma_sanitized_all_in_filesystem(paths: Seq<String>, mount_point: Seq<char>)
    ensures
        forall|k: int|
            0 <= k < sanitized_paths(paths, mount_point).len() ==> in_filesystem(
                (#[trigger] sanitized_paths(paths, mount_point)[k])@,
                mount_point,
            ),
    decreases paths.len(),
{
    if paths.len() > 0 {
        let prev = sanitized_paths(paths.drop_last(), mount_point);
        lemma_sanitized_all_in_filesystem(paths.drop_last(), mount_point);
        assert forall|k: int| 0 <= k < sanitized_paths(paths, mount_point).len() implies in_filesystem(
            (#[trigger] sanitized_paths(paths, mount_point)[k])@,
            mount_point,
        ) by {
            if k < prev.len() {
                assert(sanitized_paths(paths, mount_point)[k] == prev[k]);
            }
        }
    }
}

proof fn lemma_sanitized_keeps_all(paths: Seq<String>, mount_point: Seq<char>)
    requires
        forall|k: int| 0 <= k < paths.len() ==> in_filesystem((#[trigger] paths[k])@, mount_point),
    ensures
        sanitized_paths(paths, mount_point) == paths,
    decreases paths.len(),
{
    if paths.len() > 0 {
        lemma_sanitized_keeps_all(paths.drop_last(), mount_point);
        assert(paths.drop_last().push(paths.last()) =~= paths);
    }
}

/// Sanitizing keeps exactly the paths that lie in the filesystem: a path is
/// in the result if and only if it is among the given paths and lies in the
/// filesystem mounted at `mount_point`.
pub proof fn lemma_sanitize_keeps_exactly_the_inside_paths(
    paths: Seq<String>,
    mount_point: Seq<char>,
    x: String,
)
    ensures
        sanitized_paths(paths, mount_point).contains(x) <==> (paths.contains(x) && in_filesystem(
            x@,
            mount_point,
        )),
    decreases paths.len(),
{
    if paths.len() > 0 {
        let init = paths.drop_last();
        let prev = sanitized_paths(init, mount_point);
        lemma_sanitize_keeps_exactly_the_inside_paths(init, mount_point, x);
        assert(paths =~= init.push(paths.last()));
        if paths.contains(x) && x != paths.last() {
            let k = choose|k: int| 0 <= k < paths.len() && paths[k] == x;
            assert(k < init.len());
            assert(init[k] == x);
        }
        if init.contains(x) {
            let k = choose|k: int| 0 <= k < init.len() && init[k] == x;
            assert(paths[k] == x);
        }
        if in_filesystem(paths.last()@, mount_point) {
            assert(sanitized_paths(paths, mount_point) == prev.push(paths.last()));
            if prev.contains(x) {
                let k = choose|k: int| 0 <= k < prev.len() && prev[k] == x;
                assert(prev.push(paths.last())[k] == x);
            }
            if prev.push(paths.last()).contains(x) && x != paths.last() {
                let k = choose|k: int| 0 <= k < prev.len() + 1 && prev.push(paths.last())[k] == x;
                assert(prev[k] == x);
            }
            assert(prev.push(paths.last())[prev.len() as int] == paths.last());
        }
        assert(paths[paths.len() - 1] == paths.last());
    }
}

/// Sanitizing is idempotent: a second pass over sanitized paths changes
/// nothing.
pub proof fn lemma_sanitize_idempotent(paths: Seq<String>, mount_point: Seq<char>)
    ensures
        sanitized_paths(sanitized_paths(paths, mount_point), mount_point) == sanitized_paths(
            paths,
            mount_point,
        ),
{
    lemma_sanitized_all_in_filesystem(paths, mount_point);
    lemma_sanitized_keeps_all(sanitized_paths(paths, mount_point), mount_point);
}

/// What the command-line client does with the command and arguments that
/// it was given.
#[derive(Debug)]
pub enum ClientPlan {
    /// Print the usage text and exit successfully.
    ShowHelp,
    /// Print `message` (and the usage text too when `usage`) and exit with
    /// failure.
    Fail { message: String, usage: bool },
    /// Send the daemon `head` followed by each of `paths` made absolute.
    Send { head: Vec<String>, paths: Vec<String> },
}

/// A failure with the given message.
pub open spec fn is_failure(r: ClientPlan, message: Seq<char>, usage: bool) -> bool {
    r matches ClientPlan::Fail { message: m, usage: u } && m@ == message && u == usage
}

/// A request made of `head` and the paths `paths`.
pub open spec fn is_request(r: ClientPlan, head: Seq<Seq<char>>, paths: Seq<Seq<char>>) -> bool {
    r matches ClientPlan::Send { head: h, paths: p } && h.deep_view() == head && p.deep_view()
        == paths
}

/// The client's plan for `args` (the command, then its arguments): `help`
/// shows the usage; `pin` needs a tier and at least one path, `unpin` and
/// `which-tier` at least one path, and the paths are sent made absolute;
/// `status` sends whether JSON output was asked for; the other commands are
/// sent without their arguments.
pub open spec fn is_client_plan(r: ClientPlan, args: Seq<Seq<char>>, json: bool) -> bool {
    if args.len() == 0 {
        is_failure(r, "Error: No command passed."@, true)
    } else {
        match command_of(args[0]) {
            None => is_failure(r, "Error: Invalid command: "@ + args[0], true),
            Some(Command::Help) => r is ShowHelp,
            Some(Command::Pin) => if args.len() < 2 {
                is_failure(r, "Error: No arguments passed (missing target tier)."@, false)
            } else if args.len() == 2 {
                is_failure(r, "Error: No arguments passed."@, false)
            } else {
                is_request(r, seq![args[0], args[1]], args.skip(2))
            },
            Some(Command::Unpin) | Some(Command::WhichTier) => if args.len() == 1 {
                is_failure(r, "Error: No arguments passed."@, false)
            } else {
                is_request(r, seq![args[0]], args.skip(1))
            },
            Some(Command::Status) => is_request(
                r,
                seq![args[0], if json { "true"@ } else { "false"@ }],
                Seq::empty(),
            ),
            Some(_) => is_request(r, seq![args[0]], Seq::empty()),
        }
    }
}

/// Every file given to the client reaches the daemon: for `pin` with a
/// tier and at least one file, and for `unpin` and `which-tier` with at
/// least one file, the plan is to send a message that is exactly the
/// client's arguments, in order; its paths (the ones made absolute) are the
/// arguments after the command, and after the tier for `pin`.
pub proof fn lemma_files_reach_the_daemon(r: ClientPlan, args: Seq<Seq<char>>, json: bool)
    requires
        is_client_plan(r, args, json),
        args.len() > 0,
    ensures
        command_of(args[0]) == Some(Command::Pin) && args.len() > 2 ==> (r matches ClientPlan::Send {
            head,
            paths,
        } && head.deep_view() + paths.deep_view() == args && paths.deep_view() == args.skip(2)),
        (command_of(args[0]) == Some(Command::Unpin) || command_of(args[0]) == Some(
            Command::WhichTier,
        )) && args.len() > 1 ==> (r matches ClientPlan::Send { head, paths } && head.deep_view()
            + paths.deep_view() == args && paths.deep_view() == args.skip(1)),
{
    if let ClientPlan::Send { head, paths } = r {
        if command_of(args[0]) == Some(Command::Pin) && args.len() > 2 {
            assert(seq![args[0], args[1]] + args.skip(2) =~= args);
        }
        if args.len() > 1 {
            assert(seq![args[0]] + args.skip(1) =~= args);
        }
    }
}

fn fail(message: &str, usage: bool) -> (r: ClientPlan)
    ensures
        is_failure(r, message@, usage),
{
    ClientPlan::Fail { message: message.to_owned(), usage }
}

/// Decides what the command-line client does with its command and arguments.
pub fn plan_client_request(args: &[String], json: bool) -> (r: ClientPlan)
    ensures
        is_client_plan(r, args.deep_view(), json),
{
    if args.len() == 0 {
        return fail("Error: No command passed.", true);
    }
    let cmd = match get_command_index(args[0].as_str()) {
        Some(c) => c,
        None => {
            let mut message = "Error: Invalid command: ".to_owned();
            message.append(args[0].as_str());
            return ClientPlan::Fail { message, usage: true };
        },
    };
    let ghost dv = args.deep_view();
    assert(dv[0] == args@[0]@);
    let mut head: Vec<String> = Vec::new();
    head.push(args[0].clone());
    let first: usize = match cmd {
        Command::Help => {
            return ClientPlan::ShowHelp;
        },
        Command::Pin => {
            if args.len() < 2 {
                return fail("Error: No arguments passed (missing target tier).", false);
            }
            head.push(args[1].clone());
            2
        },
        Command::Unpin | Command::WhichTier => 1,
        Command::Status => {
            head.push((if json { "true" } else { "false" }).to_owned());
            assert(head.deep_view() =~= seq![dv[0], if json { "true"@ } else { "false"@ }]);
            let paths: Vec<String> = Vec::new();
            assert(paths.deep_view() =~= Seq::<Seq<char>>::empty());
            return ClientPlan::Send { head, paths };
        },
        _ => {
            assert(head.deep_view() =~= seq![dv[0]]);
            let paths: Vec<String> = Vec::new();
            assert(paths.deep_view() =~= Seq::<Seq<char>>::empty());
            return ClientPlan::Send { head, paths };
        },
    };
    if args.len() <= first {
        return fail("Error: No arguments passed.", false);
    }
    let mut paths: Vec<String> = Vec::new();
    let mut i: usize = first;
    while i < args.len()
        invariant
            first <= i <= args@.len(),
            dv == args.deep_view(),
            paths@ == args@.subrange(first as int, i as int),
        decreases args.len() - i,
    {
        paths.push(args[i].clone());
        i = i + 1;
    }
    assert(paths.deep_view() =~= dv.skip(first as int));
    if first == 2 {
        assert(head.deep_view() =~= seq![dv[0], dv[1]]);
    } else {
        assert(head.deep_view() =~= seq![dv[0]]);
    }
    ClientPlan::Send { head, paths }
}

/// How the client reports the daemon's reply: `None` for an empty reply;
/// otherwise whether the daemon answered `OK`, and the lines after the
/// status, to print on standard output when it did and on standard error
/// otherwise.
pub fn reply_outcome(response: &[String]) -> (r: Option<(bool, Vec<String>)>)
    ensures
        match r {
            None => response@.len() == 0,
            Some((ok, lines)) => response@.len() > 0 && ok == (response@[0]@ == "OK"@)
                && lines.deep_view() == response.deep_view().skip(1),
        },
{
    if response.len() == 0 {
        return None;
    }
    let ok = crate::config::string_eq_str(&response[0], "OK");
    let mut lines: Vec<String> = Vec::new();
    let mut i: usize = 1;
    while i < response.len()
        invariant
            1 <= i <= response@.len(),
            lines@ == response@.subrange(1, i as int),
        decreases response.len() - i,
    {
        lines.push(response[i].clone());
        i = i + 1;
    }
    assert(lines.deep_view() =~= response.deep_view().skip(1));
    Some((ok, lines))
}

/// The pieces of `s` between commas, as `str::split(',')` gives them (so
/// there is always one more piece than there are commas).
pub open spec fn comma_pieces(s: Seq<char>) -> Seq<Seq<char>>
    decreases s.len(),
{
    if s.len() == 0 {
        seq![Seq::empty()]
    } else {
        let p = comma_pieces(s.drop_last());
        if s.last() == ',' {
            p.push(Seq::empty())
        } else {
            p.update(p.len() - 1, p.last().push(s.last()))
        }
    }
}

/// The pieces, trimmed, leaving out those that are then empty.
pub open spec fn kept_options(pieces: Seq<Seq<char>>) -> Seq<Seq<char>>
    decreases pieces.len(),
{
    if pieces.len() == 0 {
        Seq::empty()
    } else {
        let prev = kept_options(pieces.drop_last());
        if trim_spec(pieces.last()).len() > 0 {
            prev.push(trim_spec(pieces.last()))
        } else {
            prev
        }
    }
}

/// Pieces joined back together with a comma between each two.
pub open spec fn join_with_commas(pieces: Seq<Seq<char>>) -> Seq<char>
    decreases pieces.len(),
{
    if pieces.len() == 0 {
        Seq::empty()
    } else if pieces.len() == 1 {
        pieces[0]
    } else {
        join_with_commas(pieces.drop_last()) + seq![','] + pieces.last()
    }
}

/// Splitting on commas loses nothing and cuts only at commas: there is at
/// least one piece, no piece holds a comma, and the pieces joined with commas
/// give the text back.
pub proof fn lemma_comma_pieces_split_at_commas(s: Seq<char>)
    ensures
        comma_pieces(s).len() >= 1,
        join_with_commas(comma_pieces(s)) == s,
        forall|k: int, i: int|
            0 <= k < comma_pieces(s).len() && 0 <= i < comma_pieces(s)[k].len() ==> #[trigger] comma_pieces(
                s,
            )[k][i] != ',',
    decreases s.len(),
{
    if s.len() == 0 {
        assert(comma_pieces(s) =~= seq![Seq::<char>::empty()]);
    } else {
        let init = s.drop_last();
        let p = comma_pieces(init);
        lemma_comma_pieces_split_at_commas(init);
        let c = s.last();
        assert(s =~= init.push(c));
        if c == ',' {
            let q = p.push(Seq::<char>::empty());
            assert(q.drop_last() =~= p);
            assert(join_with_commas(q) =~= init + seq![','] + Seq::<char>::empty());
            assert forall|k: int, i: int| 0 <= k < q.len() && 0 <= i < q[k].len() implies #[trigger] q[k][i]
                != ',' by {
                assert(k < p.len());
                assert(q[k] == p[k]);
            }
        } else {
            let n = p.len() - 1;
            let q = p.update(n, p.last().push(c));
            assert(q.last() == p.last().push(c));
            if p.len() == 1 {
                assert(join_with_commas(p) == p[0]);
                assert(join_with_commas(q) == q[0]);
                assert(q[0] =~= init.push(c));
            } else {
                assert(q.drop_last() =~= p.drop_last());
                assert(join_with_commas(q) == join_with_commas(p.drop_last()) + seq![','] + q.last());
                assert(join_with_commas(p) == join_with_commas(p.drop_last()) + seq![','] + p.last());
                assert(join_with_commas(q) =~= join_with_commas(p).push(c));
            }
            assert forall|k: int, i: int| 0 <= k < q.len() && 0 <= i < q[k].len() implies #[trigger] q[k][i]
                != ',' by {
                if k == n {
                    if i < p[n].len() {
                        assert(q[k][i] == p[n][i]);
                    } else {
                        assert(q[k][i] == c);
                    }
                } else {
                    assert(q[k] == p[k]);
                }
            }
        }
    }
}

/// An option is kept exactly when it is a piece, trimmed, that is not
/// empty.
pub proof fn lemma_kept_options_are_trimmed_pieces(pieces: Seq<Seq<char>>, x: Seq<char>)
    ensures
        kept_options(pieces).contains(x) <==> (x.len() > 0 && exists|k: int|
            0 <= k < pieces.len() && trim_spec(#[trigger] pieces[k]) == x),
    decreases pieces.len(),
{
    if pieces.len() > 0 {
        let init = pieces.drop_last();
        let prev = kept_options(init);
        let l = pieces.last();
        lemma_kept_options_are_trimmed_pieces(init, x);
        if exists|k: int| 0 <= k < init.len() && trim_spec(#[trigger] init[k]) == x {
            let k = choose|k: int| 0 <= k < init.len() && trim_spec(#[trigger] init[k]) == x;
            assert(pieces[k] == init[k]);
        }
        if exists|k: int| 0 <= k < pieces.len() && trim_spec(#[trigger] pieces[k]) == x {
            let k = choose|k: int| 0 <= k < pieces.len() && trim_spec(#[trigger] pieces[k]) == x;
            if k < init.len() {
                assert(init[k] == pieces[k]);
            } else {
                assert(pieces[k] == l);
            }
        }
        if trim_spec(l).len() > 0 {
            let q = prev.push(trim_spec(l));
            assert(kept_options(pieces) == q);
            assert(q[prev.len() as int] == trim_spec(l));
            if prev.contains(x) {
                let k = choose|k: int| 0 <= k < prev.len() && prev[k] == x;
                assert(q[k] == x);
            }
            if q.contains(x) && x != trim_spec(l) {
                let k = choose|k: int| 0 <= k < q.len() && q[k] == x;
                assert(prev[k] == x);
            }
            assert(pieces[pieces.len() - 1] == l);
        } else {
            assert(pieces[pieces.len() - 1] == l);
        }
    }
}

proof fn lemma_comma_pieces_len(s: Seq<char>)
    ensures
        comma_pieces(s).len() >= 1,
    decreases s.len(),
{
    if s.len() > 0 {
        lemma_comma_pieces_len(s.drop_last());
    }
}

/// The mount options given as a comma-separated list: each one trimmed,
/// the empty ones left out.
pub fn fuse_custom_options(opts: &str) -> (r: Vec<String>)
    ensures
        r.deep_view() == kept_options(comma_pieces(opts@)),
{
    let c = str_to_chars(opts);
    let mut r: Vec<String> = Vec::new();
    let mut cur: Vec<char> = Vec::new();
    let mut i: usize = 0;
    proof {
        assert(c@.subrange(0, 0) =~= Seq::<char>::empty());
        assert(comma_pieces(Seq::<char>::empty()).drop_last() =~= Seq::<Seq<char>>::empty());
    }
    while i < c.len()
        invariant
            i <= c@.len(),
            c@ == opts@,
            comma_pieces(c@.subrange(0, i as int)).len() >= 1,
            cur@ == comma_pieces(c@.subrange(0, i as int)).last(),
            r.deep_view() == kept_options(comma_pieces(c@.subrange(0, i as int)).drop_last()),
        decreases c.len() - i,
    {
        let ghost pre = c@.subrange(0, i as int);
        let ghost p = comma_pieces(pre);
        assert(c@.subrange(0, i + 1).drop_last() =~= pre);
        assert(c@.subrange(0, i + 1).last() == c@[i as int]);
        proof {
            lemma_comma_pieces_len(pre);
        }
        if c[i] == ',' {
            let t = trim_chars(&cur);
            let ghost old_r = r.deep_view();
            if t.len() > 0 {
                r.push(string_from_chars(t.as_slice()));
                assert(r.deep_view() =~= old_r.push(t@));
            }
            assert(comma_pieces(c@.subrange(0, i + 1)).drop_last() =~= p);
            assert(p.drop_last().push(p.last()) =~= p);
            cur = Vec::new();
        } else {
            cur.push(c[i]);
            assert(comma_pieces(c@.subrange(0, i + 1)).drop_last() =~= p.drop_last());
        }
        i = i + 1;
    }
    let ghost p = comma_pieces(c@.subrange(0, c@.len() as int));
    assert(c@.subrange(0, c@.len() as int) =~= c@);
    let t = trim_chars(&cur);
    let ghost old_r = r.deep_view();
    if t.len() > 0 {
        r.push(string_from_chars(t.as_slice()));
        assert(r.deep_view() =~= old_r.push(t@));
    }
    assert(p.drop_last().push(p.last()) =~= p);
    r
}

/// `s` without its leading `/` characters.
pub open spec fn strip_leading_slashes(s: Seq<char>) -> Seq<char>
    decreases s.len(),
{
    if s.len() > 0 && s[0] == '/' {
        strip_leading_slashes(s.drop_first())
    } else {
        s
    }
}

/// The database key prefix of the files inside directory `dir`: the
/// directory relative to the mount point (without leading `/`), ending in
/// exactly the `/` it ends with, or one added.
pub open spec fn directory_key_prefix_spec(dir: Seq<char>) -> Seq<char> {
    let t = strip_leading_slashes(dir);
    if t.len() > 0 && t.last() == '/' {
        t
    } else {
        t.push('/')
    }
}

/// The key prefix of a directory written as some `/` characters and then
/// `t` (not starting with `/`) is `t` ending in exactly one added `/`, or
/// `t` itself when it already ends in `/`.
pub proof fn lemma_directory_key_prefix_drops_leading_slashes(n: nat, t: Seq<char>)
    requires
        t.len() == 0 || t[0] != '/',
    ensures
        strip_leading_slashes(Seq::new(n, |i: int| '/') + t) == t,
        directory_key_prefix_spec(Seq::new(n, |i: int| '/') + t) == if t.len() > 0 && t.last() == '/' {
            t
        } else {
            t.push('/')
        },
    decreases n,
{
    let d = Seq::new(n, |i: int| '/') + t;
    if n == 0 {
        assert(d =~= t);
    } else {
        assert(d.drop_first() =~= Seq::new((n - 1) as nat, |i: int| '/') + t);
        lemma_directory_key_prefix_drops_leading_slashes((n - 1) as nat, t);
    }
}

fn directory_key_prefix(dir: &str) -> (r: Vec<char>)
    ensures
        r@ == directory_key_prefix_spec(dir@),
{
    let c = str_to_chars(dir);
    let mut i: usize = 0;
    assert(c@.skip(0) == c@);
    while i < c.len() && c[i] == '/'
        invariant
            i <= c@.len(),
            strip_leading_slashes(c@) == strip_leading_slashes(c@.skip(i as int)),
        decreases c.len() - i,
    {
        assert(c@.skip(i as int).drop_first() == c@.skip(i + 1));
        i = i + 1;
    }
    let ghost rest = c@.skip(i as int);
    assert(strip_leading_slashes(rest) == rest);
    let mut r: Vec<char> = Vec::new();
    let mut k: usize = i;
    while k < c.len()
        invariant
            i <= k <= c@.len(),
            r@ == c@.subrange(i as int, k as int),
        decreases c.len() - k,
    {
        r.push(c[k]);
        k = k + 1;
    }
    assert(r@ == rest);
    if r.len() == 0 || r[r.len() - 1] != '/' {
        r.push('/');
    }
    r
}

/// The key prefixes of a directory rename: that of the files under the old
/// directory and that of the files under the new one.
pub fn directory_rename_prefixes(old_directory: &str, new_directory: &str) -> (r: (String, String))
    ensures
        r.0@ == directory_key_prefix_spec(old_directory@),
        r.1@ == directory_key_prefix_spec(new_directory@),
{
    let old_prefix = directory_key_prefix(old_directory);
    let new_prefix = directory_key_prefix(new_directory);
    (string_from_chars(old_prefix.as_slice()), string_from_chars(new_prefix.as_slice()))
}

/// The key that a file's key becomes when the directory with key prefix
/// `old_prefix` is renamed to the one with prefix `new_prefix`: the files
/// whose keys start with exactly `old_prefix` (character for character) get
/// `new_prefix` in its place; other keys are not touched (`None`).
pub open spec fn renamed_key_spec(key: Seq<char>, old_prefix: Seq<char>, new_prefix: Seq<char>) -> Option<Seq<char>> {
    if old_prefix.len() <= key.len() && key.subrange(0, old_prefix.len() as int) == old_prefix {
        Some(new_prefix + key.skip(old_prefix.len() as int))
    } else {
        None
    }
}

/// A rename touches exactly the keys under the old prefix, and puts the new
/// prefix in place of the old one: a key made of `old_prefix` and a rest
/// becomes `new_prefix` and the same rest, and a key that is renamed was
/// such a key.
pub proof fn lemma_renamed_key_swaps_prefix(
    key: Seq<char>,
    rest: Seq<char>,
    old_prefix: Seq<char>,
    new_prefix: Seq<char>,
)
    ensures
        renamed_key_spec(old_prefix + rest, old_prefix, new_prefix) == Some(new_prefix + rest),
        renamed_key_spec(key, old_prefix, new_prefix) matches Some(n) ==> key == old_prefix
            + key.skip(old_prefix.len() as int) && n == new_prefix + key.skip(
            old_prefix.len() as int,
        ),
        renamed_key_spec(key, old_prefix, new_prefix) is None ==> key.len() < old_prefix.len()
            || key.subrange(0, old_prefix.len() as int) != old_prefix,
{
    let k = old_prefix + rest;
    assert(k.subrange(0, old_prefix.len() as int) =~= old_prefix);
    assert(k.skip(old_prefix.len() as int) =~= rest);
    if renamed_key_spec(key, old_prefix, new_prefix) is Some {
        assert(key =~= old_prefix + key.skip(old_prefix.len() as int));
    }
}

/// The new key of a file after a directory rename (see [`renamed_key_spec`]).
pub fn renamed_key(key: &str, old_prefix: &str, new_prefix: &str) -> (r: Option<String>)
    ensures
        r.deep_view() == renamed_key_spec(key@, old_prefix@, new_prefix@),
{
    let k = str_to_chars(key);
    let o = str_to_chars(old_prefix);
    if o.len() > k.len() {
        return None;
    }
    let head = sub_chars(k.as_slice(), 0, o.len());
    if !chars_eq(head.as_slice(), o.as_slice()) {
        return None;
    }
    let mut r = str_to_chars(new_prefix);
    let tail = sub_chars(k.as_slice(), o.len(), k.len());
    append_chars(&mut r, tail.as_slice());
    assert(k@.subrange(o@.len() as int, k@.len() as int) == k@.skip(o@.len() as int));
    Some(string_from_chars(r.as_slice()))
}

} // verus!
