//! Bookkeeping of the FUSE layer: which files are open, and what each file
//! handle refers to.

use vstd::prelude::*;
use std::collections::HashMap;
use crate::config::string_eq_str;
use crate::text::{join_path, join_path_spec, str_to_chars, string_from_chars};
use crate::tier::Tier;

verus! {

/// The files currently open through the filesystem, by path.
#[derive(Debug)]
pub struct OpenFiles {
    paths: Vec<String>,
}

impl View for OpenFiles {
    type V = Set<Seq<char>>;

    closed spec fn view(&self) -> Set<Seq<char>> {
        self.paths@.map_values(|p: String| p@).to_set()
    }
}

impl OpenFiles {
    /// No path is held twice.
    pub closed spec fn wf(&self) -> bool {
        forall|a: int, b: int|
            0 <= a < b < self.paths@.len() ==> #[trigger] self.paths@[a]@ != #[trigger] self.paths@[b]@
    }

    pub fn new() -> (r: Self)
        ensures
            r.wf(),
            r@ == Set::<Seq<char>>::empty(),
    {
        let r = OpenFiles { paths: Vec::new() };
        assert(r.paths@.map_values(|p: String| p@) =~= Seq::<Seq<char>>::empty());
        r
    }

    /// The index of `path` in the registry.
    fn index_of(&self, path: &str) -> (r: Option<usize>)
        ensures
            match r {
                Some(i) => i < self.paths@.len() && self.paths@[i as int]@ == path@,
                None => forall|k: int| 0 <= k < self.paths@.len() ==> self.paths@[k]@ != path@,
            },
    {
        let mut i: usize = 0;
        while i < self.paths.len()
            invariant
                i <= self.paths@.len(),
                forall|k: int| 0 <= k < i ==> self.paths@[k]@ != path@,
            decreases self.paths.len() - i,
        {
            if string_eq_str(&self.paths[i], path) {
                return Some(i);
            }
            i = i + 1;
        }
        None
    }
}

proof fn lemma_view_contains(f: &OpenFiles, p: Seq<char>)
    ensures
        f@.contains(p) <==> exists|k: int| 0 <= k < f.paths@.len() && #[trigger] f.paths@[k]@ == p,
{
    let s = f.paths@.map_values(|q: String| q@);
    if f@.contains(p) {
        let k = choose|k: int| 0 <= k < s.len() && s[k] == p;
        assert(f.paths@[k]@ == p);
    }
    if exists|k: int| 0 <= k < f.paths@.len() && #[trigger] f.paths@[k]@ == p {
        let k = choose|k: int| 0 <= k < f.paths@.len() && #[trigger] f.paths@[k]@ == p;
        assert(s[k] == p);
        assert(s.contains(p));
    }
}

/// Records `path` as open.
pub fn register_open_file(open: &mut OpenFiles, path: &str)
    requires
        old(open).wf(),
    ensures
        final(open).wf(),
        final(open)@ == old(open)@.insert(path@),
{
    proof {
        lemma_view_contains(open, path@);
    }
    match open.index_of(path) {
        Some(_) => {
            assert(open@.insert(path@) =~= open@);
        },
        None => {
            let ghost old_open = *open;
            open.paths.push(path.to_owned());
            proof {
                assert forall|p: Seq<char>| #[trigger] open@.contains(p) <==> old_open@.insert(
                    path@,
                ).contains(p) by {
                    lemma_view_contains(open, p);
                    lemma_view_contains(&old_open, p);
                    if exists|k: int| 0 <= k < old_open.paths@.len() && #[trigger] old_open.paths@[k]@ == p {
                        let k = choose|k: int| 0 <= k < old_open.paths@.len() && #[trigger] old_open.paths@[k]@ == p;
                        assert(open.paths@[k]@ == p);
                    }
                    if p == path@ {
                        assert(open.paths@[old_open.paths@.len() as int]@ == p);
                    }
                }
                assert(open@ =~= old_open@.insert(path@));
            }
        },
    }
}

/// Records `path` as no longer open.
pub fn release_open_file(open: &mut OpenFiles, path: &str)
    requires
        old(open).wf(),
    ensures
        final(open).wf(),
        final(open)@ == old(open)@.remove(path@),
{
    proof {
        lemma_view_contains(open, path@);
    }
    match open.index_of(path) {
        None => {
            assert(open@.remove(path@) =~= open@);
        },
        Some(i) => {
            let ghost old_open = *open;
            open.paths.remove(i);
            proof {
                assert forall|a: int, b: int|
                    0 <= a < b < open.paths@.len() implies #[trigger] open.paths@[a]@
                    != #[trigger] open.paths@[b]@ by {
                    let oa = if a < i { a } else { a + 1 };
                    let ob = if b < i { b } else { b + 1 };
                    assert(open.paths@[a] == old_open.paths@[oa]);
                    assert(open.paths@[b] == old_open.paths@[ob]);
                }
                assert forall|p: Seq<char>| #[trigger] open@.contains(p) <==> old_open@.remove(
                    path@,
                ).contains(p) by {
                    lemma_view_contains(open, p);
                    lemma_view_contains(&old_open, p);
                    if exists|k: int| 0 <= k < open.paths@.len() && #[trigger] open.paths@[k]@ == p {
                        let k = choose|k: int| 0 <= k < open.paths@.len() && #[trigger] open.paths@[k]@ == p;
                        let ok = if k < i { k } else { k + 1 };
                        assert(open.paths@[k] == old_open.paths@[ok]);
                    }
                    if p != path@ && exists|k: int| 0 <= k < old_open.paths@.len() && #[trigger] old_open.paths@[k]@ == p {
                        let k = choose|k: int| 0 <= k < old_open.paths@.len() && #[trigger] old_open.paths@[k]@ == p;
                        assert(k != i);
                        let nk = if k < i { k } else { k - 1 };
                        assert(open.paths@[nk] == old_open.paths@[k]);
                    }
                }
                assert(open@ =~= old_open@.remove(path@));
            }
        },
    }
}

/// Whether `path` is open.
pub fn is_open(open: &OpenFiles, path: &str) -> (b: bool)
    ensures
        b == open@.contains(path@),
{
    proof {
        lemma_view_contains(open, path@);
    }
    match open.index_of(path) {
        Some(_) => true,
        None => false,
    }
}

/// A registered path reads as open until it is released, and reads as closed
/// after; registering or releasing one path leaves every other path as it was.
pub proof fn lemma_open_until_released(open: OpenFiles, path: Seq<char>, other: Seq<char>)
    requires
        other != path,
    ensures
        open@.insert(path).contains(path),
        !open@.insert(path).remove(path).contains(path),
        open@.insert(path).contains(other) == open@.contains(other),
        open@.remove(path).contains(other) == open@.contains(other),
{
}

/// Where the file at `relative_path` of the mounted filesystem lies: under
/// the tier path that the database records for it, or, for a file that the
/// database does not know (`recorded_tier_path` being `None`), under the
/// first tier; `None` when there is no tier.
pub fn resolve_path(recorded_tier_path: Option<&str>, tiers: &[Tier], relative_path: &str) -> (r: Option<String>)
    ensures
        match recorded_tier_path {
            Some(tp) => r matches Some(p) && p@ == join_path_spec(tp@, relative_path@),
            None => if tiers@.len() == 0 {
                r is None
            } else {
                r matches Some(p) && p@ == join_path_spec(tiers@[0].path@, relative_path@)
            },
        },
{
    let root: Vec<char> = match recorded_tier_path {
        Some(tp) => str_to_chars(tp),
        None => {
            if tiers.len() == 0 {
                return None;
            }
            str_to_chars(tiers[0].path.as_str())
        },
    };
    let rel = str_to_chars(relative_path);
    let joined = join_path(root.as_slice(), rel.as_slice());
    Some(string_from_chars(joined.as_slice()))
}

/// `rusqlite::Connection`, carried through as it is.
#[verifier::external_type_specification]
#[verifier::external_body]
pub struct ExConnection(rusqlite::Connection);

/// The private state of the mounted filesystem: where it is configured and
/// mounted, its database connection, and for each open file handle the path
/// it was opened with and the file's size at the time.
pub struct FusePriv {
    pub config_path: String,
    pub mount_point: String,
    pub db: rusqlite::Connection,
    pub fd_to_path: HashMap<u64, String>,
    pub size_at_open: HashMap<u64, u64>,
}

impl FusePriv {
    /// The path recorded for each open file handle.
    pub open spec fn spec_fd_paths(&self) -> Map<u64, String> {
        self.fd_to_path@
    }

    /// The size recorded for each open file handle.
    pub open spec fn spec_open_sizes(&self) -> Map<u64, u64> {
        self.size_at_open@
    }

    pub fn new(config_path: String, mount_point: String, db: rusqlite::Connection) -> (p: Self)
        ensures
            p.config_path == config_path,
            p.mount_point == mount_point,
            p.db == db,
            p.spec_fd_paths() == Map::<u64, String>::empty(),
            p.spec_open_sizes() == Map::<u64, u64>::empty(),
    {
        FusePriv {
            config_path,
            mount_point,
            db,
            fd_to_path: HashMap::new(),
            size_at_open: HashMap::new(),
        }
    }

    pub fn insert_fd_to_path(&mut self, fd: u64, path: String)
        ensures
            final(self).spec_fd_paths() == old(self).spec_fd_paths().insert(fd, path),
            final(self).spec_open_sizes() == old(self).spec_open_sizes(),
            final(self).config_path == old(self).config_path,
            final(self).mount_point == old(self).mount_point,
            final(self).db == old(self).db,
    {
        self.fd_to_path.insert(fd, path);
    }

    pub fn remove_fd_to_path(&mut self, fd: u64)
        ensures
            final(self).spec_fd_paths() == old(self).spec_fd_paths().remove(fd),
            final(self).spec_open_sizes() == old(self).spec_open_sizes(),
            final(self).config_path == old(self).config_path,
            final(self).mount_point == old(self).mount_point,
            final(self).db == old(self).db,
    {
        self.fd_to_path.remove(&fd);
    }

    pub fn fd_to_path(&self, fd: u64) -> (r: Option<String>)
        ensures
            match r {
                Some(p) => self.spec_fd_paths().contains_key(fd) && self.spec_fd_paths()[fd] == p,
                None => !self.spec_fd_paths().contains_key(fd),
            },
    {
        match self.fd_to_path.get(&fd) {
            Some(p) => Some(p.clone()),
            None => None,
        }
    }

    pub fn insert_size_at_open(&mut self, fd: u64, size: u64)
        ensures
            final(self).spec_open_sizes() == old(self).spec_open_sizes().insert(fd, size),
            final(self).spec_fd_paths() == old(self).spec_fd_paths(),
            final(self).config_path == old(self).config_path,
            final(self).mount_point == old(self).mount_point,
            final(self).db == old(self).db,
    {
        self.size_at_open.insert(fd, size);
    }

    pub fn remove_size_at_open(&mut self, fd: u64)
        ensures
            final(self).spec_open_sizes() == old(self).spec_open_sizes().remove(fd),
            final(self).spec_fd_paths() == old(self).spec_fd_paths(),
            final(self).config_path == old(self).config_path,
            final(self).mount_point == old(self).mount_point,
            final(self).db == old(self).db,
    {
        self.size_at_open.remove(&fd);
    }

    pub fn size_at_open(&self, fd: u64) -> (r: Option<u64>)
        ensures
            match r {
                Some(n) => self.spec_open_sizes().contains_key(fd) && self.spec_open_sizes()[fd] == n,
                None => !self.spec_open_sizes().contains_key(fd),
            },
    {
        match self.size_at_open.get(&fd) {
            Some(n) => Some(*n),
            None => None,
        }
    }
}

/// What is recorded for a file handle is read back until the handle is
/// forgotten, and recording or forgetting one handle leaves the others as
/// they were.
pub proof fn lemma_handle_read_back(p: FusePriv, fd: u64, other: u64, path: String, size: u64)
    requires
        other != fd,
    ensures
        ({
            let paths = p.spec_fd_paths();
            let sizes = p.spec_open_sizes();
            &&& paths.insert(fd, path).contains_key(fd) && paths.insert(fd, path)[fd] == path
            &&& sizes.insert(fd, size).contains_key(fd) && sizes.insert(fd, size)[fd] == size
            &&& !paths.remove(fd).contains_key(fd)
            &&& !sizes.remove(fd).contains_key(fd)
            &&& paths.insert(fd, path).contains_key(other) == paths.contains_key(other)
            &&& paths.insert(fd, path).contains_key(other) ==> paths.insert(fd, path)[other]
                == paths[other]
            &&& paths.remove(fd).contains_key(other) == paths.contains_key(other)
            &&& sizes.insert(fd, size).contains_key(other) ==> sizes.insert(fd, size)[other]
                == sizes[other]
        }),
{
}

} // verus!
