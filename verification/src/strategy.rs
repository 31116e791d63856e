//! The popularity tiering strategy: given the candidate files in order of
//! preference, place each on the first tier that still has room.

use vstd::prelude::*;
use crate::tier::{File, Tier};

verus! {

/// The quota of each tier, in bytes.
pub open spec fn tier_quotas(tiers: Seq<Tier>) -> Seq<nat> {
    Seq::new(tiers.len(), |j: int| tiers[j].spec_resolved_quota())
}

/// The size of each file, in bytes.
pub open spec fn file_sizes(files: Seq<File>) -> Seq<nat> {
    Seq::new(files.len(), |k: int| files[k].size as nat)
}

/// The first tier at or after `j` on which `size` more bytes stay within
/// the quota, given what each tier holds already.
pub open spec fn first_fit(usage: Seq<nat>, quotas: Seq<nat>, size: nat, j: int) -> Option<int>
    decreases quotas.len() - j,
{
    if j < 0 || j >= quotas.len() {
        None
    } else if usage[j] + size <= quotas[j] {
        Some(j)
    } else {
        first_fit(usage, quotas, size, j + 1)
    }
}

/// What each tier holds after the first `i` files have been placed, in order,
/// each on the first tier with room.
pub open spec fn placed_usage(quotas: Seq<nat>, sizes: Seq<nat>, i: int) -> Seq<nat>
    decreases i,
{
    if i <= 0 {
        Seq::new(quotas.len(), |j: int| 0nat)
    } else {
        let u = placed_usage(quotas, sizes, i - 1);
        match first_fit(u, quotas, sizes[i - 1], 0) {
            Some(j) => u.update(j, u[j] + sizes[i - 1]),
            None => u,
        }
    }
}

/// The tier that file `i` is placed on, if any.
pub open spec fn placement(quotas: Seq<nat>, sizes: Seq<nat>, i: int) -> Option<int> {
    first_fit(placed_usage(quotas, sizes, i), quotas, sizes[i], 0)
}

/// File `i` once placed: it names its new tier, and its metadata points at
/// that tier's path. A file that fits nowhere is left as it was.
pub open spec fn placed_file(files: Seq<File>, tiers: Seq<Tier>, i: int) -> File {
    match placement(tier_quotas(tiers), file_sizes(files), i) {
        Some(j) => File {
            size: files[i].size,
            tier_id: tiers[j].id,
            relative_path: files[i].relative_path,
            tier_path: tiers[j].path,
        },
        None => files[i],
    }
}

/// The files that the placement of the first `i` files moves onto tier `j`:
/// those placed there that named another tier, each naming tier `j` and
/// still pointing at the path it is moved from.
pub open spec fn incoming_spec(files: Seq<File>, tiers: Seq<Tier>, j: int, i: int) -> Seq<File>
    decreases i,
{
    if i <= 0 {
        Seq::empty()
    } else {
        let prev = incoming_spec(files, tiers, j, i - 1);
        let f = files[i - 1];
        if placement(tier_quotas(tiers), file_sizes(files), i - 1) == Some(j) && f.tier_id@
            != tiers[j].id@ {
            prev.push(
                File {
                    size: f.size,
                    tier_id: tiers[j].id,
                    relative_path: f.relative_path,
                    tier_path: f.tier_path,
                },
            )
        } else {
            prev
        }
    }
}

pub proof fn lemma_placed_usage_len(quotas: Seq<nat>, sizes: Seq<nat>, i: int)
    ensures
        placed_usage(quotas, sizes, i).len() == quotas.len(),
    decreases i,
{
    if i > 0 {
        lemma_placed_usage_len(quotas, sizes, i - 1);
        lemma_first_fit(placed_usage(quotas, sizes, i - 1), quotas, sizes[i - 1], 0);
    }
}

pub proof fn lemma_first_fit(usage: Seq<nat>, quotas: Seq<nat>, size: nat, j: int)
    requires
        0 <= j,
    ensures
        first_fit(usage, quotas, size, j) matches Some(t) ==> j <= t < quotas.len() && usage[t]
            + size <= quotas[t] && forall|k: int|
            j <= k < t ==> usage[k] + size > #[trigger] quotas[k],
        first_fit(usage, quotas, size, j) is None ==> forall|k: int|
            j <= k < quotas.len() ==> usage[k] + size > #[trigger] quotas[k],
    decreases quotas.len() - j,
{
    if j < quotas.len() && !(usage[j] + size <= quotas[j]) {
        lemma_first_fit(usage, quotas, size, j + 1);
    }
}

/// The file at place `i`.
pub open spec fn old_file_at(files: Seq<File>, i: int) -> File {
    files[i]
}

/// The tiering strategy that ranks files by popularity.
pub struct PopularityTieringStrategy;

/// Every field of tier `t` but the placement's own (`sim_usage_bytes`,
/// `incoming_files`) is that of `t0`.
pub open spec fn same_tier_setup(t: Tier, t0: Tier) -> bool {
    &&& t.id == t0.id
    &&& t.path == t0.path
    &&& t.quota_bytes == t0.quota_bytes
    &&& t.quota_percent == t0.quota_percent
    &&& t.usage_bytes == t0.usage_bytes
    &&& t.percent_quota_bytes == t0.percent_quota_bytes
}

impl PopularityTieringStrategy {
    pub fn name(&self) -> (n: &'static str)
        ensures
            n@ == "popularity"@,
    {
        "popularity"
    }

    /// Places the files, in the order given, each on the first tier whose
    /// quota still has room for it. Each tier's placement usage starts from
    /// zero; a file placed on a tier other than the one it is on is queued
    /// on that tier's `incoming_files`; every placed file then names its new
    /// tier and path. A file that fits on no tier stays as it was.
    pub fn simulate_tier(&self, files: &mut Vec<File>, tiers: &mut Vec<Tier>)
        ensures
            final(tiers)@.len() == old(tiers)@.len(),
            final(files)@.len() == old(files)@.len(),
            forall|j: int|
                0 <= j < old(tiers)@.len() ==> ({
                    &&& same_tier_setup(#[trigger] final(tiers)@[j], old(tiers)@[j])
                    &&& final(tiers)@[j].sim_usage_bytes == placed_usage(
                        tier_quotas(old(tiers)@),
                        file_sizes(old(files)@),
                        old(files)@.len() as int,
                    )[j]
                    &&& final(tiers)@[j].incoming_files@ == incoming_spec(
                        old(files)@,
                        old(tiers)@,
                        j,
                        old(files)@.len() as int,
                    )
                }),
            forall|k: int|
                0 <= k < old(files)@.len() ==> #[trigger] final(files)@[k] == placed_file(
                    old(files)@,
                    old(tiers)@,
                    k,
                ),
            forall|k: int|
                0 <= k < old(files)@.len() ==> {
                    &&& (#[trigger] final(files)@[k]).relative_path == old(files)@[k].relative_path
                    &&& final(files)@[k].size == old(files)@[k].size
                    &&& (final(files)@[k] == old(files)@[k] || exists|j: int|
                        0 <= j < old(tiers)@.len() && final(files)@[k].tier_id == old(tiers)@[j].id
                            && final(files)@[k].tier_path == old(tiers)@[j].path)
                },
    {
        let ghost f0 = files@;
        let ghost t0 = tiers@;
        let ghost quotas = tier_quotas(t0);
        let ghost sizes = file_sizes(f0);
        let nt = tiers.len();
        let mut j: usize = 0;
        while j < nt
            invariant
                nt == tiers@.len() == t0.len(),
                j <= nt,
                forall|jj: int|
                    0 <= jj < nt ==> ({
                        &&& same_tier_setup(#[trigger] tiers@[jj], t0[jj])
                    }),
                forall|jj: int|
                    0 <= jj < j ==> ({
                        &&& (#[trigger] tiers@[jj]).sim_usage_bytes == 0
                        &&& tiers@[jj].incoming_files@.len() == 0
                    }),
            decreases nt - j,
        {
            tiers[j].sim_usage_bytes = 0;
            tiers[j].incoming_files = Vec::new();
            j = j + 1;
        }
        let nf = files.len();
        let mut i: usize = 0;
        assert(tier_quotas(tiers@) == quotas);
        proof {
            lemma_placed_usage_len(quotas, sizes, 0);
        }
        while i < nf
            invariant
                nt == tiers@.len() == t0.len(),
                nf == files@.len() == f0.len(),
                i <= nf,
                quotas == tier_quotas(t0),
                sizes == file_sizes(f0),
                forall|jj: int|
                    0 <= jj < nt ==> ({
                        &&& same_tier_setup(#[trigger] tiers@[jj], t0[jj])
                        &&& tiers@[jj].sim_usage_bytes == placed_usage(quotas, sizes, i as int)[jj]
                        &&& tiers@[jj].incoming_files@ == incoming_spec(f0, t0, jj, i as int)
                    }),
                forall|k: int| 0 <= k < i ==> #[trigger] files@[k] == placed_file(f0, t0, k),
                forall|k: int| i <= k < nf ==> #[trigger] files@[k] == f0[k],
            decreases nf - i,
        {
            let ghost u = placed_usage(quotas, sizes, i as int);
            proof {
                lemma_placed_usage_len(quotas, sizes, i as int);
                lemma_placed_usage_len(quotas, sizes, i + 1);
                lemma_first_fit(u, quotas, sizes[i as int], 0);
            }
            let size = files[i].size;
            assert(size == sizes[i as int]);
            let mut j: usize = 0;
            let mut fitted = false;
            while j < nt && !fitted
                invariant
                    nt == tiers@.len() == t0.len(),
                    nf == files@.len() == f0.len(),
                    i < nf,
                    j <= nt,
                    u == placed_usage(quotas, sizes, i as int),
                    u.len() == nt,
                    quotas == tier_quotas(t0),
                    sizes == file_sizes(f0),
                    size == sizes[i as int],
                    !fitted ==> first_fit(u, quotas, size as nat, 0) == first_fit(
                        u,
                        quotas,
                        size as nat,
                        j as int,
                    ),
                    fitted ==> ({
                        &&& placement(quotas, sizes, i as int) is Some
                        &&& forall|jj: int|
                            0 <= jj < nt ==> {
                                &&& same_tier_setup(#[trigger] tiers@[jj], t0[jj])
                                &&& tiers@[jj].sim_usage_bytes == placed_usage(
                                    quotas,
                                    sizes,
                                    i + 1,
                                )[jj]
                                &&& tiers@[jj].incoming_files@ == incoming_spec(
                                    f0,
                                    t0,
                                    jj,
                                    i + 1,
                                )
                            }
                        &&& forall|k: int| 0 <= k <= i ==> #[trigger] files@[k] == placed_file(f0, t0, k)
                        &&& forall|k: int| i < k < nf ==> #[trigger] files@[k] == f0[k]
                    }),
                    !fitted ==> ({
                        &&& forall|jj: int|
                            0 <= jj < nt ==> {
                                &&& same_tier_setup(#[trigger] tiers@[jj], t0[jj])
                                &&& tiers@[jj].sim_usage_bytes == u[jj]
                                &&& tiers@[jj].incoming_files@ == incoming_spec(
                                    f0,
                                    t0,
                                    jj,
                                    i as int,
                                )
                            }
                        &&& forall|k: int| 0 <= k < i ==> #[trigger] files@[k] == placed_file(f0, t0, k)
                        &&& forall|k: int| i <= k < nf ==> #[trigger] files@[k] == f0[k]
                    }),
                decreases (nt - j) * 2 + (if fitted {
                    0int
                } else {
                    1int
                }),
            {
                if !tiers[j].full_test(size) {
                    assert(first_fit(u, quotas, size as nat, j as int) == Some(j as int));
                    let ghost pi = placement(quotas, sizes, i as int);
                    assert(pi == Some(j as int));
                    tiers[j].sim_usage_bytes = tiers[j].sim_usage_bytes + size;
                    let target_id = tiers[j].id.clone();
                    let target_path = tiers[j].path.clone();
                    if !(files[i].tier_id == target_id) {
                        let mut enqueued = files[i].clone();
                        enqueued.tier_id = target_id.clone();
                        tiers[j].incoming_files.push(enqueued);
                    }
                    let placed = File {
                        size,
                        tier_id: target_id,
                        relative_path: files[i].relative_path.clone(),
                        tier_path: target_path,
                    };
                    files.set(i, placed);
                    fitted = true;
                    proof {
                        assert(placed_usage(quotas, sizes, i + 1) == u.update(
                            j as int,
                            u[j as int] + (size as nat),
                        ));
                        assert forall|jj: int| 0 <= jj < nt implies #[trigger] tiers@[jj].incoming_files@
                            == incoming_spec(f0, t0, jj, i + 1) by {
                            assert(f0[i as int] == old_file_at(f0, i as int));
                        }
                        assert(files@[i as int] == placed_file(f0, t0, i as int));
                    }
                } else {
                    j = j + 1;
                }
            }
            if !fitted {
                proof {
                    assert(placement(quotas, sizes, i as int) is None);
                    assert(placed_usage(quotas, sizes, i + 1) == u);
                    assert forall|jj: int| 0 <= jj < nt implies #[trigger] tiers@[jj].incoming_files@
                        == incoming_spec(f0, t0, jj, i + 1) by {
                        assert(incoming_spec(f0, t0, jj, i + 1) == incoming_spec(f0, t0, jj, i as int));
                    }
                    assert(files@[i as int] == placed_file(f0, t0, i as int));
                }
            }
            i = i + 1;
        }
        proof {
            assert forall|k: int| 0 <= k < nf implies {
                &&& (#[trigger] files@[k]).relative_path == f0[k].relative_path
                &&& files@[k].size == f0[k].size
                &&& (files@[k] == f0[k] || exists|j: int|
                    0 <= j < t0.len() && files@[k].tier_id == t0[j].id && files@[k].tier_path
                        == t0[j].path)
            } by {
                lemma_placement_moves_files_only(f0, t0, k);
            }
        }
    }
}

/// Placing a file changes only where it lives, never which file it is: it
/// keeps its path relative to the tier and its size, and it either stays as
/// it was or names one of the tiers and that tier's path.
pub proof fn lemma_placement_moves_files_only(files: Seq<File>, tiers: Seq<Tier>, k: int)
    requires
        0 <= k < files.len(),
    ensures
        placed_file(files, tiers, k).relative_path == files[k].relative_path,
        placed_file(files, tiers, k).size == files[k].size,
        placed_file(files, tiers, k) == files[k] || exists|j: int|
            0 <= j < tiers.len() && placed_file(files, tiers, k).tier_id == tiers[j].id
                && placed_file(files, tiers, k).tier_path == tiers[j].path,
{
    let quotas = tier_quotas(tiers);
    let sizes = file_sizes(files);
    lemma_placed_usage_len(quotas, sizes, k);
    lemma_first_fit(placed_usage(quotas, sizes, k), quotas, sizes[k], 0);
    if let Some(j) = placement(quotas, sizes, k) {
        assert(0 <= j < tiers.len());
        assert(placed_file(files, tiers, k).tier_id == tiers[j].id);
    }
}

/// The placement never fills a tier past its quota: after any number of
/// files, what each tier holds is within the tier's quota.
pub proof fn lemma_placement_respects_quotas(quotas: Seq<nat>, sizes: Seq<nat>, i: int)
    requires
        0 <= i <= sizes.len(),
    ensures
        placed_usage(quotas, sizes, i).len() == quotas.len(),
        forall|j: int|
            0 <= j < quotas.len() ==> #[trigger] placed_usage(quotas, sizes, i)[j] <= quotas[j],
    decreases i,
{
    lemma_placed_usage_len(quotas, sizes, i);
    if i > 0 {
        lemma_placement_respects_quotas(quotas, sizes, i - 1);
        lemma_first_fit(placed_usage(quotas, sizes, i - 1), quotas, sizes[i - 1], 0);
    }
}

/// A file is placed on the first tier, in the order given, that still has
/// room for it; a file that is placed nowhere fits on no tier.
pub proof fn lemma_placement_is_first_fit(quotas: Seq<nat>, sizes: Seq<nat>, i: int)
    requires
        0 <= i < sizes.len(),
    ensures
        ({
            let u = placed_usage(quotas, sizes, i);
            match placement(quotas, sizes, i) {
                Some(j) => 0 <= j < quotas.len() && u[j] + sizes[i] <= quotas[j] && forall|k: int|
                    0 <= k < j ==> u[k] + sizes[i] > #[trigger] quotas[k],
                None => forall|k: int| 0 <= k < quotas.len() ==> u[k] + sizes[i] > #[trigger] quotas[k],
            }
        }),
{
    lemma_first_fit(placed_usage(quotas, sizes, i), quotas, sizes[i], 0);
}

/// The files as the placement leaves them.
pub open spec fn placed_files(files: Seq<File>, tiers: Seq<Tier>) -> Seq<File> {
    Seq::new(files.len(), |i: int| placed_file(files, tiers, i))
}

/// Placing the files a second time, as the first placement left them, gives
/// every file the same tier and moves nothing.
pub proof fn lemma_second_placement_moves_nothing(files: Seq<File>, tiers: Seq<Tier>)
    ensures
        forall|i: int|
            0 <= i < files.len() ==> #[trigger] placement(
                tier_quotas(tiers),
                file_sizes(placed_files(files, tiers)),
                i,
            ) == placement(tier_quotas(tiers), file_sizes(files), i),
        forall|j: int|
            0 <= j < tiers.len() ==> #[trigger] incoming_spec(
                placed_files(files, tiers),
                tiers,
                j,
                files.len() as int,
            ).len() == 0,
{
    let placed = placed_files(files, tiers);
    assert(file_sizes(placed) =~= file_sizes(files));
    assert forall|j: int| 0 <= j < tiers.len() implies #[trigger] incoming_spec(
        placed,
        tiers,
        j,
        files.len() as int,
    ).len() == 0 by {
        lemma_nothing_incoming(files, tiers, j, files.len() as int);
    }
}

proof fn lemma_nothing_incoming(files: Seq<File>, tiers: Seq<Tier>, j: int, i: int)
    requires
        i <= files.len(),
        file_sizes(placed_files(files, tiers)) == file_sizes(files),
    ensures
        incoming_spec(placed_files(files, tiers), tiers, j, i).len() == 0,
    decreases i,
{
    if i > 0 {
        lemma_nothing_incoming(files, tiers, j, i - 1);
    }
}

/// The sum of a sequence of byte counts.
pub open spec fn total(s: Seq<nat>) -> nat
    decreases s.len(),
{
    if s.len() == 0 {
        0
    } else {
        total(s.drop_last()) + s.last()
    }
}

/// The bytes of the first `i` files that the placement puts on some tier.
pub open spec fn placed_bytes(quotas: Seq<nat>, sizes: Seq<nat>, i: int) -> nat
    decreases i,
{
    if i <= 0 {
        0
    } else {
        placed_bytes(quotas, sizes, i - 1) + if placement(quotas, sizes, i - 1) is Some {
            sizes[i - 1]
        } else {
            0
        }
    }
}

proof fn lemma_total_zero(n: nat)
    ensures
        total(Seq::new(n, |j: int| 0nat)) == 0,
    decreases n,
{
    if n > 0 {
        assert(Seq::new(n, |j: int| 0nat).drop_last() =~= Seq::new((n - 1) as nat, |j: int| 0nat));
        lemma_total_zero((n - 1) as nat);
    }
}

proof fn lemma_total_update(u: Seq<nat>, j: int, v: nat)
    requires
        0 <= j < u.len(),
    ensures
        total(u.update(j, v)) + u[j] == total(u) + v,
    decreases u.len(),
{
    let w = u.update(j, v);
    if j == u.len() - 1 {
        assert(w.drop_last() =~= u.drop_last());
    } else {
        assert(w.drop_last() =~= u.drop_last().update(j, v));
        lemma_total_update(u.drop_last(), j, v);
    }
}

/// The placement neither loses nor invents bytes: after any number of files,
/// what the tiers hold together is the total size of the files placed so far.
pub proof fn lemma_placement_conserves_bytes(quotas: Seq<nat>, sizes: Seq<nat>, i: int)
    requires
        0 <= i <= sizes.len(),
    ensures
        total(placed_usage(quotas, sizes, i)) == placed_bytes(quotas, sizes, i),
    decreases i,
{
    if i == 0 {
        lemma_total_zero(quotas.len());
    } else {
        lemma_placement_conserves_bytes(quotas, sizes, i - 1);
        let u = placed_usage(quotas, sizes, i - 1);
        lemma_placed_usage_len(quotas, sizes, i - 1);
        lemma_first_fit(u, quotas, sizes[i - 1], 0);
        if let Some(j) = first_fit(u, quotas, sizes[i - 1], 0) {
            lemma_total_update(u, j, u[j] + sizes[i - 1]);
        }
    }
}

} // verus!
