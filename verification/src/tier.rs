//! Storage tiers and the files that the tiering engine moves between them.

use vstd::prelude::*;
use crate::text::{join_path, join_path_spec, str_to_chars, string_from_chars};

verus! {

/// A file found on a tier. `tier_path` is the backend path of the tier that
/// holds the file according to its metadata.
#[derive(Debug)]
pub struct File {
    pub size: u64,
    pub tier_id: String,
    pub relative_path: String,
    pub tier_path: String,
}

impl Clone for File {
    fn clone(&self) -> (r: Self)
        ensures
            r == *self,
    {
        File {
            size: self.size,
            tier_id: self.tier_id.clone(),
            relative_path: self.relative_path.clone(),
            tier_path: self.tier_path.clone(),
        }
    }
}

impl File {
    pub fn new(relative_path: String, tier_id: String, size: u64, tier_path: String) -> (f: Self)
        ensures
            f.relative_path == relative_path,
            f.tier_id == tier_id,
            f.size == size,
            f.tier_path == tier_path,
    {
        File { size, tier_id, relative_path, tier_path }
    }

    /// The file's path under the tier root `tier_root`.
    pub fn full_path_with_root(&self, tier_root: &str) -> (p: String)
        ensures
            p@ == join_path_spec(tier_root@, self.relative_path@),
    {
        let root = str_to_chars(tier_root);
        let rel = str_to_chars(self.relative_path.as_str());
        let joined = join_path(root.as_slice(), rel.as_slice());
        string_from_chars(joined.as_slice())
    }

    /// The file's path under the tier that its metadata names.
    pub fn full_path(&self) -> (p: String)
        ensures
            p@ == join_path_spec(self.tier_path@, self.relative_path@),
    {
        self.full_path_with_root(self.tier_path.as_str())
    }
}

/// A storage tier: a backend directory with a quota, either in bytes or as a
/// percentage of the size of the filesystem that holds it.
#[derive(Debug)]
pub struct Tier {
    pub id: String,
    pub path: String,
    /// The quota in bytes (0 for a percentage quota).
    pub quota_bytes: u64,
    /// The percentage quota as written, a number that `f64::from_str`
    /// reads (`"0"` for a quota in bytes).
    pub quota_percent: String,
    /// Bytes currently used by files on the tier.
    pub usage_bytes: u64,
    /// Bytes placed on the tier by the running placement.
    pub sim_usage_bytes: u64,
    /// Files that the running placement moves onto this tier.
    pub incoming_files: Vec<File>,
    /// The bytes that the percentage quota comes to on the tier's
    /// filesystem, when the percentage is above zero and the filesystem's
    /// size is known. That figure is floating-point arithmetic on the size of
    /// the filesystem, which the owner of the tier computes and sets here.
    pub percent_quota_bytes: Option<u64>,
}

/// `usage` less `size`, never below zero.
pub open spec fn usage_after_release(usage: u64, size: u64) -> nat {
    if usage >= size {
        (usage - size) as nat
    } else {
        0
    }
}

impl Tier {
    /// The quota of the tier in bytes: what the percentage comes to where it
    /// applies, the byte quota otherwise.
    pub open spec fn spec_resolved_quota(&self) -> nat {
        match self.percent_quota_bytes {
            Some(q) => q as nat,
            None => self.quota_bytes as nat,
        }
    }

    pub fn new(id: String, path: String, quota_bytes: u64, quota_percent: String) -> (t: Self)
        ensures
            t.id == id,
            t.path == path,
            t.quota_bytes == quota_bytes,
            t.quota_percent == quota_percent,
            t.usage_bytes == 0,
            t.sim_usage_bytes == 0,
            t.incoming_files@.len() == 0,
            t.percent_quota_bytes is None,
    {
        Tier {
            id,
            path,
            quota_bytes,
            quota_percent,
            usage_bytes: 0,
            sim_usage_bytes: 0,
            incoming_files: Vec::new(),
            percent_quota_bytes: None,
        }
    }

    /// Counts a file of `size` bytes as stored on the tier.
    pub fn add_file_size(&mut self, size: u64)
        requires
            old(self).usage_bytes + size <= u64::MAX,
        ensures
            final(self).usage_bytes == old(self).usage_bytes + size,
            final(self).id == old(self).id,
            final(self).path == old(self).path,
            final(self).quota_bytes == old(self).quota_bytes,
            final(self).quota_percent == old(self).quota_percent,
            final(self).sim_usage_bytes == old(self).sim_usage_bytes,
            final(self).incoming_files == old(self).incoming_files,
            final(self).percent_quota_bytes == old(self).percent_quota_bytes,
    {
        self.usage_bytes = self.usage_bytes + size;
    }

    /// Stops counting `size` bytes, never going below zero.
    pub fn subtract_file_size(&mut self, size: u64)
        ensures
            final(self).usage_bytes == usage_after_release(old(self).usage_bytes, size),
            final(self).id == old(self).id,
            final(self).path == old(self).path,
            final(self).quota_bytes == old(self).quota_bytes,
            final(self).quota_percent == old(self).quota_percent,
            final(self).sim_usage_bytes == old(self).sim_usage_bytes,
            final(self).incoming_files == old(self).incoming_files,
            final(self).percent_quota_bytes == old(self).percent_quota_bytes,
    {
        self.usage_bytes = self.usage_bytes.saturating_sub(size);
    }

    /// Accounts for a file that changed size from `old_size` to `new_size`.
    pub fn size_delta(&mut self, old_size: u64, new_size: u64)
        requires
            usage_after_release(old(self).usage_bytes, old_size) + new_size <= u64::MAX,
        ensures
            final(self).usage_bytes == usage_after_release(old(self).usage_bytes, old_size)
                + new_size,
            final(self).id == old(self).id,
            final(self).path == old(self).path,
            final(self).quota_bytes == old(self).quota_bytes,
            final(self).quota_percent == old(self).quota_percent,
            final(self).sim_usage_bytes == old(self).sim_usage_bytes,
            final(self).incoming_files == old(self).incoming_files,
            final(self).percent_quota_bytes == old(self).percent_quota_bytes,
    {
        self.usage_bytes = self.usage_bytes.saturating_sub(old_size) + new_size;
    }

    /// The tier's quota in bytes.
    pub fn resolved_quota_bytes(&self) -> (q: u64)
        ensures
            q == self.spec_resolved_quota(),
    {
        match self.percent_quota_bytes {
            Some(q) => q,
            None => self.quota_bytes,
        }
    }

    /// Whether a file of `file_size` bytes would take the placement on this
    /// tier past its quota.
    pub fn full_test(&self, file_size: u64) -> (full: bool)
        ensures
            full == (self.sim_usage_bytes + file_size > self.spec_resolved_quota()),
    {
        let quota = self.resolved_quota_bytes();
        self.sim_usage_bytes > quota || file_size > quota - self.sim_usage_bytes
    }
}

/// Counting a file and then releasing it leaves the usage as it was.
pub proof fn lemma_add_then_release(usage: u64, size: u64)
    requires
        usage + size <= u64::MAX,
    ensures
        usage_after_release((usage + size) as u64, size) == usage,
{
}

/// Resizing a counted file from `old_size` to `new_size` leaves the usage
/// as if the file had been counted at `new_size` from the start; resizing a
/// counted file to its own size changes nothing.
pub proof fn lemma_resize_counted_file(usage: u64, old_size: u64, new_size: u64)
    requires
        usage + old_size <= u64::MAX,
    ensures
        usage_after_release((usage + old_size) as u64, old_size) + new_size == usage + new_size,
        usage_after_release((usage + old_size) as u64, old_size) + old_size == usage + old_size,
{
}

} // verus!
