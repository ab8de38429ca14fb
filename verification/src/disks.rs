//! Which disk a directory lives on, for the free-space check before a
//! download. The disks themselves are listed outside.

use vstd::prelude::*;
use vstd::string::{StrSliceExecFns, StringSliceAdditionalSpecFns};
use crate::errors::ApplicationDownloadError;

verus! {

/// Whether the path `path` lies under `base`, comparing whole components as
/// `std::path::Path::starts_with` does.
pub uninterp spec fn path_has_prefix(path: Seq<char>, base: Seq<char>) -> bool;

/// Trusted: `std::path::Path::starts_with`; its answer depends on the two
/// paths alone.
#[verifier::external_body]
fn path_starts_with(path: &str, base: &str) -> (r: bool)
    ensures
        r == path_has_prefix(path@, base@),
{
    std::path::Path::new(path).starts_with(base)
}

/// The UTF-8 length of a mount point, by which longer (more specific)
/// mount points are preferred.
pub open spec fn mount_len(mount: Seq<char>) -> nat {
    vstd::utf8::encode_utf8(mount).len()
}

/// The disk `path` is on: among the disks whose mount point contains it, the
/// one with the longest mount point, the first listed of equally long ones.
pub open spec fn spec_disk_for(path: Seq<char>, disks: Seq<(String, u64)>, n: int) -> Option<int>
    decreases n,
{
    if n <= 0 {
        None
    } else {
        let prev = spec_disk_for(path, disks, n - 1);
        let d = disks[n - 1];
        if path_has_prefix(path, d.0@) && (prev is None || mount_len(d.0@) > mount_len(disks[prev->0].0@)) {
            Some(n - 1)
        } else {
            prev
        }
    }
}

proof fn lemma_disk_for_in_range(path: Seq<char>, disks: Seq<(String, u64)>, n: int)
    requires
        0 <= n <= disks.len(),
    ensures
        spec_disk_for(path, disks, n) matches Some(i) ==> 0 <= i < n,
    decreases n,
{
    if n > 0 {
        lemma_disk_for_in_range(path, disks, n - 1);
    }
}

proof fn lemma_disk_for_is_longest(path: Seq<char>, disks: Seq<(String, u64)>, n: int)
    requires
        0 <= n <= disks.len(),
    ensures
        spec_disk_for(path, disks, n) matches Some(i) ==> 0 <= i < n && path_has_prefix(path, disks[i].0@)
            && forall|j: int| 0 <= j < n && path_has_prefix(path, #[trigger] disks[j].0@)
                ==> mount_len(disks[j].0@) <= mount_len(disks[i].0@),
        (exists|j: int| 0 <= j < n && path_has_prefix(path, #[trigger] disks[j].0@)) ==> spec_disk_for(path, disks, n) is Some,
    decreases n,
{
    if n > 0 {
        lemma_disk_for_is_longest(path, disks, n - 1);
        if exists|j: int| 0 <= j < n && path_has_prefix(path, #[trigger] disks[j].0@) {
            let j = choose|j: int| 0 <= j < n && path_has_prefix(path, #[trigger] disks[j].0@);
            if j < n - 1 {
                assert(spec_disk_for(path, disks, n - 1) is Some);
            }
        }
    }
}

/// The disk a path is on is one whose mount point contains the path, and no
/// other disk containing it has a longer mount point, in whatever order the
/// disks are listed; only when no disk contains the path is there none.
pub proof fn law_disk_is_most_specific(path: Seq<char>, disks: Seq<(String, u64)>)
    ensures
        spec_disk_for(path, disks, disks.len() as int) matches Some(i) ==> 0 <= i < disks.len()
            && path_has_prefix(path, disks[i].0@)
            && forall|j: int| 0 <= j < disks.len() && path_has_prefix(path, #[trigger] disks[j].0@)
                ==> mount_len(disks[j].0@) <= mount_len(disks[i].0@),
        spec_disk_for(path, disks, disks.len() as int) is None <==> forall|j: int| 0 <= j < disks.len()
            ==> !path_has_prefix(path, #[trigger] disks[j].0@),
{
    lemma_disk_for_is_longest(path, disks, disks.len() as int);
}

/// The free space of the disk `mount_point` is on, given every disk's mount
/// point and free bytes. When no disk holds it, the error carries the I/O
/// error kind `Other`, shown as `other error`.
pub fn get_disk_available(mount_point: &str, disks: &Vec<(String, u64)>) -> (r: Result<u64, ApplicationDownloadError>)
    ensures
        match spec_disk_for(mount_point@, disks@, disks@.len() as int) {
            Some(i) => r == Ok::<u64, ApplicationDownloadError>(disks@[i].1),
            None => r matches Err(ApplicationDownloadError::IoError(m)) && m@ == "other error"@,
        },
{
    let mut best: Option<usize> = None;
    let mut best_len: usize = 0;
    let mut i: usize = 0;
    while i < disks.len()
        invariant
            i <= disks@.len(),
            best == (match spec_disk_for(mount_point@, disks@, i as int) {
                Some(k) => Some(k as usize),
                None => None::<usize>,
            }),
            best matches Some(k) ==> k < i && best_len == mount_len(disks@[k as int].0@),
        decreases disks@.len() - i,
    {
        proof {
            lemma_disk_for_in_range(mount_point@, disks@, i as int);
        }
        let len = disks[i].0.as_str().as_bytes_vec().len();
        if path_starts_with(mount_point, disks[i].0.as_str()) {
            let better = match best {
                None => true,
                Some(_) => len > best_len,
            };
            if better {
                best = Some(i);
                best_len = len;
            }
        }
        i = i + 1;
    }
    proof {
        lemma_disk_for_in_range(mount_point@, disks@, disks@.len() as int);
    }
    match best {
        Some(k) => Ok(disks[k].1),
        None => Err(ApplicationDownloadError::IoError(String::from_str("other error"))),
    }
}

} // verus!
