//! The per-game download agent: the state it keeps between the download
//! manager's calls, and every decision it takes about buckets, completed
//! chunks, retries and validation. Network and disk work happen outside.

use vstd::prelude::*;
use crate::buckets::{
    bucket_views, concat_all, manifest_drops, manifest_well_formed, plan_buckets, prefix_sum,
    spec_buckets, total_length,
};
use crate::drop_data::{spec_pairs_map, DropData};
use crate::errors::ApplicationDownloadError;
use crate::keymap::AssocMap;
use crate::library::set_partially_installed_db;
use crate::manifest::{drop_views, DownloadBucket, DownloadDrop, DropChunk, DropValidateContext, DropView};
use crate::models::{
    clone_string, lookup, Applications, ApplicationTransientStatus, DownloadType, DownloadableMetadata,
};
use crate::paths::{join_path, spec_join_path};
use crate::text::{views, same_text};

verus! {

/// How many times a bucket is attempted before its error is reported.
pub const RETRY_COUNT: usize = 3;

/// Where a queued download stands.
#[derive(PartialEq, Eq, Structural, Clone, Copy, Debug)]
pub enum DownloadStatus {
    Queued,
    Downloading,
    Validating,
    Error,
}

/// The bytes of all chunks of a manifest.
pub open spec fn manifest_size(entries: Seq<(String, DropChunk)>) -> int
    decreases entries.len(),
{
    if entries.len() == 0 {
        0
    } else {
        manifest_size(entries.drop_last()) + prefix_sum(entries.last().1.lengths@, entries.last().1.lengths@.len() as int)
    }
}

/// Whether a context is recorded as complete in `m`.
pub open spec fn is_done(m: Map<Seq<char>, bool>, k: Seq<char>) -> bool {
    m.contains_key(k) && m[k]
}

/// The contexts of `ds`, in order, each marked as `done` says.
pub open spec fn completion_map(ds: Seq<DropView>, done: Map<Seq<char>, bool>) -> Map<Seq<char>, bool>
    decreases ds.len(),
{
    if ds.len() == 0 {
        Map::empty()
    } else {
        completion_map(ds.drop_last(), done).insert(ds.last().checksum, is_done(done, ds.last().checksum))
    }
}

/// The map after inserting `state` for each of `keys`, in order.
pub open spec fn mark_all(m: Map<Seq<char>, bool>, keys: Seq<Seq<char>>, state: bool) -> Map<Seq<char>, bool>
    decreases keys.len(),
{
    if keys.len() == 0 {
        m
    } else {
        mark_all(m, keys.drop_last(), state).insert(keys.last(), state)
    }
}

/// What a validation context says, as plain values.
pub open spec fn validate_view(c: DropValidateContext) -> (usize, usize, Seq<char>, Seq<char>, usize) {
    (c.index, c.offset, c.path@, c.checksum@, c.length)
}

/// The validation context a drop calls for.
pub open spec fn drop_validate_view(d: DropView) -> (usize, usize, Seq<char>, Seq<char>, usize) {
    (d.index, d.start, d.path, d.checksum, d.length)
}

/// Inserts `state` for each key into `m`, in order.
pub fn mark_contexts(m: &mut AssocMap<String, bool>, keys: &Vec<String>, state: bool)
    ensures
        final(m).view() == mark_all(old(m).view(), views(keys@), state),
{
    let mut i: usize = 0;
    while i < keys.len()
        invariant
            i <= keys@.len(),
            m.view() == mark_all(old(m).view(), views(keys@.subrange(0, i as int)), state),
        decreases keys@.len() - i,
    {
        m.insert(clone_string(&keys[i]), state);
        proof {
            let sub = views(keys@.subrange(0, i as int + 1));
            assert(sub.drop_last() =~= views(keys@.subrange(0, i as int)));
            assert(sub.last() == keys@[i as int]@);
        }
        i = i + 1;
    }
    proof {
        assert(keys@.subrange(0, i as int) =~= keys@);
    }
}

/// Whether a bucket error is worth another attempt, given the attempt that failed.
pub open spec fn spec_should_retry(e: ApplicationDownloadError, attempt: int) -> bool {
    let retryable = match e {
        ApplicationDownloadError::Communication(_) => true,
        ApplicationDownloadError::Checksum => true,
        ApplicationDownloadError::Lock => true,
        _ => false,
    };
    retryable && attempt != RETRY_COUNT - 1
}

pub fn should_retry(e: &ApplicationDownloadError, attempt: usize) -> (r: bool)
    ensures
        r == spec_should_retry(*e, attempt as int),
{
    let retryable = match e {
        ApplicationDownloadError::Communication(_) => true,
        ApplicationDownloadError::Checksum => true,
        ApplicationDownloadError::Lock => true,
        _ => false,
    };
    retryable && attempt != RETRY_COUNT - 1
}

/// What follows one attempt at a bucket.
pub enum BucketStep {
    /// Every drop of the bucket was fetched; their chunks are complete.
    Completed,
    /// The download was stopped part way.
    Stopped,
    /// The attempt failed in a way worth another try.
    Retry,
    /// The attempt failed for good; the error is reported.
    Failed(ApplicationDownloadError),
}

pub open spec fn spec_bucket_step(result: Result<bool, ApplicationDownloadError>, attempt: int) -> BucketStep {
    match result {
        Ok(true) => BucketStep::Completed,
        Ok(false) => BucketStep::Stopped,
        Err(e) => if spec_should_retry(e, attempt) {
            BucketStep::Retry
        } else {
            BucketStep::Failed(e)
        },
    }
}

/// Decides what follows attempt number `attempt` (from 0) at a bucket.
pub fn bucket_step(result: Result<bool, ApplicationDownloadError>, attempt: usize) -> (r: BucketStep)
    ensures
        r == spec_bucket_step(result, attempt as int),
{
    match result {
        Ok(true) => BucketStep::Completed,
        Ok(false) => BucketStep::Stopped,
        Err(e) => if should_retry(&e, attempt) {
            BucketStep::Retry
        } else {
            BucketStep::Failed(e)
        },
    }
}

/// A bucket is attempted at most `RETRY_COUNT` times: the last attempt never
/// asks for another.
pub proof fn law_retries_are_bounded(result: Result<bool, ApplicationDownloadError>)
    ensures
        !(spec_bucket_step(result, RETRY_COUNT - 1) is Retry),
{
}

/// Sizes the progress display is set up with.
pub struct ProgressTotals {
    /// Total bytes of all drops.
    pub max: usize,
    /// Number of drops.
    pub size: usize,
}

/// Downloads one game version: the manifest, its buckets, and which chunks are done.
pub struct GameDownloadAgent {
    pub id: String,
    pub version: String,
    pub buckets: Vec<DownloadBucket>,
    pub context_map: AssocMap<String, bool>,
    pub manifest: Option<Vec<(String, DropChunk)>>,
    pub dropdata: DropData,
    pub status: DownloadStatus,
}

impl GameDownloadAgent {
    /// The manifest, when present, can be cut into drops.
    pub open spec fn manifest_ok(&self) -> bool {
        self.manifest is Some ==> manifest_well_formed(self.manifest->0@)
    }

    /// All drops of the current buckets, bucket after bucket.
    pub open spec fn all_drops(&self) -> Seq<DropView> {
        concat_all(bucket_views(self.buckets@))
    }

    pub open spec fn spec_metadata(&self) -> (Seq<char>, Option<Seq<char>>, DownloadType) {
        (self.id@, Some(self.version@), DownloadType::Game)
    }

    /// Sets up an agent for `id` at `version` under `base_dir`: the download
    /// record is the stored one, if any, else a fresh one at `base_dir/id`.
    /// Fails when the manifest needs more bytes than are available.
    pub fn new(
        id: String,
        version: String,
        base_dir: &String,
        stored: Option<DropData>,
        manifest: Vec<(String, DropChunk)>,
        available_space: u64,
    ) -> (r: Result<Self, ApplicationDownloadError>)
        requires
            manifest_size(manifest@) <= usize::MAX,
        ensures
            match r {
                Ok(agent) => {
                    &&& manifest_size(manifest@) <= available_space
                    &&& agent.id == id
                    &&& agent.version == version
                    &&& agent.manifest == Some(manifest)
                    &&& agent.buckets@.len() == 0
                    &&& agent.context_map.view() == Map::<Seq<char>, bool>::empty()
                    &&& agent.status == DownloadStatus::Queued
                    &&& stored is Some ==> agent.dropdata == stored->0
                    &&& stored is None ==> {
                        &&& agent.dropdata.game_id == id
                        &&& agent.dropdata.game_version == version
                        &&& agent.dropdata.base_path@ == spec_join_path(base_dir@, id@)
                        &&& agent.dropdata.contexts.view() == Map::<Seq<char>, bool>::empty()
                    }
                },
                Err(e) => {
                    &&& manifest_size(manifest@) > available_space
                    &&& e == ApplicationDownloadError::DiskFull(manifest_size(manifest@) as u64, available_space)
                },
            },
    {
        let data_base_dir_path = join_path(base_dir.as_str(), id.as_str());
        let dropdata = DropData::generate(clone_string(&id), clone_string(&version), data_base_dir_path, stored);
        let required_space = required_space(&manifest) as u64;
        if required_space > available_space {
            return Err(ApplicationDownloadError::DiskFull(required_space, available_space));
        }
        Ok(GameDownloadAgent {
            id,
            version,
            buckets: Vec::new(),
            context_map: AssocMap::new(),
            manifest: Some(manifest),
            dropdata,
            status: DownloadStatus::Queued,
        })
    }

    /// What this agent downloads.
    pub fn metadata(&self) -> (r: DownloadableMetadata)
        ensures
            r.id == self.id,
            r.version == Some(self.version),
            r.download_type == DownloadType::Game,
            r@ == self.spec_metadata(),
    {
        DownloadableMetadata {
            id: clone_string(&self.id),
            version: Some(clone_string(&self.version)),
            download_type: DownloadType::Game,
        }
    }

    pub fn check_manifest_exists(&self) -> (r: bool)
        ensures
            r == self.manifest is Some,
    {
        self.manifest.is_some()
    }

    /// Progress sizes: total bytes and number of drops over all buckets.
    pub fn setup_progress(&self) -> (r: ProgressTotals)
        requires
            total_length(self.all_drops()) <= usize::MAX,
            self.all_drops().len() <= usize::MAX,
        ensures
            r.max == total_length(self.all_drops()),
            r.size == self.all_drops().len(),
    {
        let mut max: usize = 0;
        let mut size: usize = 0;
        let mut b: usize = 0;
        while b < self.buckets.len()
            invariant
                b <= self.buckets@.len(),
                total_length(self.all_drops()) <= usize::MAX,
                self.all_drops().len() <= usize::MAX,
                max == total_length(concat_all(bucket_views(self.buckets@.subrange(0, b as int)))),
                size == concat_all(bucket_views(self.buckets@.subrange(0, b as int))).len(),
            decreases self.buckets@.len() - b,
        {
            let drops = &self.buckets[b].drops;
            let ghost before = concat_all(bucket_views(self.buckets@.subrange(0, b as int)));
            let mut j: usize = 0;
            proof {
                let bv = bucket_views(self.buckets@);
                lemma_concat_split(bv, b as int + 1);
                assert(bv.subrange(0, b as int + 1).drop_last() =~= bucket_views(self.buckets@.subrange(0, b as int)));
                assert(bv.subrange(0, b as int + 1).last() == drop_views(drops@));
                assert(concat_all(bv.subrange(0, b as int + 1)) == before + drop_views(drops@));
                let whole = self.all_drops();
                let pre = before + drop_views(drops@);
                assert(pre =~= whole.subrange(0, pre.len() as int));
                lemma_total_prefix(whole, pre);
            }
            while j < drops.len()
                invariant
                    b < self.buckets@.len(),
                    drops == &self.buckets@[b as int].drops,
                    before.len() + drops@.len() <= usize::MAX,
                    j <= drops@.len(),
                    total_length(before + drop_views(drops@)) <= usize::MAX,
                    max == total_length(before + drop_views(drops@).subrange(0, j as int)),
                    size == before.len() + j,
                decreases drops@.len() - j,
            {
                proof {
                    let pre = before + drop_views(drops@).subrange(0, j as int + 1);
                    assert(pre.drop_last() =~= before + drop_views(drops@).subrange(0, j as int));
                    assert(pre =~= (before + drop_views(drops@)).subrange(0, pre.len() as int));
                    lemma_total_prefix(before + drop_views(drops@), pre);
                }
                max = max + drops[j].length;
                size = size + 1;
                j = j + 1;
            }
            proof {
                assert(drop_views(drops@).subrange(0, j as int) =~= drop_views(drops@));
                let sub = bucket_views(self.buckets@.subrange(0, b as int + 1));
                assert(sub.drop_last() =~= bucket_views(self.buckets@.subrange(0, b as int)));
                assert(sub.last() == drop_views(drops@));
            }
            b = b + 1;
        }
        proof {
            assert(self.buckets@.subrange(0, b as int) =~= self.buckets@);
        }
        ProgressTotals { max, size }
    }
}

/// Concatenating all buckets is concatenating a prefix of them and then the rest.
pub proof fn lemma_concat_split(bs: Seq<Seq<DropView>>, n: int)
    requires
        0 <= n <= bs.len(),
    ensures
        concat_all(bs) == concat_all(bs.subrange(0, n)) + concat_all(bs.subrange(n, bs.len() as int)),
    decreases bs.len(),
{
    if n == bs.len() {
        assert(bs.subrange(0, n) =~= bs);
        assert(bs.subrange(n, bs.len() as int) =~= Seq::<Seq<DropView>>::empty());
        assert(concat_all(bs) + Seq::<DropView>::empty() =~= concat_all(bs));
    } else {
        lemma_concat_split(bs.drop_last(), n);
        assert(bs.drop_last().subrange(0, n) =~= bs.subrange(0, n));
        let rest = bs.subrange(n, bs.len() as int);
        assert(rest.drop_last() =~= bs.drop_last().subrange(n, bs.drop_last().len() as int));
        assert(rest.last() == bs.last());
        assert(concat_all(bs) =~= concat_all(bs.subrange(0, n)) + concat_all(rest));
    }
}

/// Total length is additive over concatenation.
proof fn lemma_total_concat(a: Seq<DropView>, b: Seq<DropView>)
    ensures
        total_length(a + b) == total_length(a) + total_length(b),
    decreases b.len(),
{
    if b.len() == 0 {
        assert(a + b =~= a);
    } else {
        lemma_total_concat(a, b.drop_last());
        assert((a + b).drop_last() =~= a + b.drop_last());
    }
}

proof fn lemma_total_nonneg(a: Seq<DropView>)
    ensures
        total_length(a) >= 0,
    decreases a.len(),
{
    if a.len() > 0 {
        lemma_total_nonneg(a.drop_last());
    }
}

/// A prefix is no longer than the whole.
proof fn lemma_total_prefix(whole: Seq<DropView>, pre: Seq<DropView>)
    requires
        pre.len() <= whole.len(),
        pre == whole.subrange(0, pre.len() as int),
    ensures
        total_length(pre) <= total_length(whole),
{
    let rest = whole.subrange(pre.len() as int, whole.len() as int);
    assert(whole =~= pre + rest);
    lemma_total_concat(pre, rest);
    lemma_total_nonneg(rest);
}

/// The bytes a manifest needs on disk.
pub fn required_space(manifest: &Vec<(String, DropChunk)>) -> (r: usize)
    requires
        manifest_size(manifest@) <= usize::MAX,
    ensures
        r == manifest_size(manifest@),
{
    let mut total: usize = 0;
    let mut e: usize = 0;
    while e < manifest.len()
        invariant
            e <= manifest@.len(),
            manifest_size(manifest@) <= usize::MAX,
            total == manifest_size(manifest@.subrange(0, e as int)),
        decreases manifest@.len() - e,
    {
        let lengths = &manifest[e].1.lengths;
        let mut file_total: usize = 0;
        let mut i: usize = 0;
        proof {
            lemma_manifest_size_prefix(manifest@, e as int + 1);
            let sub = manifest@.subrange(0, e as int + 1);
            assert(sub.drop_last() =~= manifest@.subrange(0, e as int));
            lemma_prefix_nonneg_all(lengths@, lengths@.len() as int);
        }
        while i < lengths.len()
            invariant
                i <= lengths@.len(),
                total + prefix_sum(lengths@, lengths@.len() as int) <= usize::MAX,
                file_total == prefix_sum(lengths@, i as int),
                prefix_sum(lengths@, i as int) <= prefix_sum(lengths@, lengths@.len() as int),
            decreases lengths@.len() - i,
        {
            proof {
                lemma_prefix_mono(lengths@, i as int + 1, lengths@.len() as int);
            }
            file_total = file_total + lengths[i];
            i = i + 1;
        }
        total = total + file_total;
        e = e + 1;
    }
    proof {
        assert(manifest@.subrange(0, manifest@.len() as int) =~= manifest@);
    }
    total
}

proof fn lemma_prefix_nonneg_all(lengths: Seq<usize>, n: int)
    ensures
        prefix_sum(lengths, n) >= 0,
    decreases n,
{
    if n > 0 && n <= lengths.len() {
        lemma_prefix_nonneg_all(lengths, n - 1);
    }
}

proof fn lemma_prefix_mono(lengths: Seq<usize>, i: int, n: int)
    requires
        0 <= i <= n <= lengths.len(),
    ensures
        prefix_sum(lengths, i) <= prefix_sum(lengths, n),
    decreases n,
{
    lemma_prefix_nonneg_all(lengths, i);
    if i < n {
        lemma_prefix_mono(lengths, i, n - 1);
    }
}

proof fn lemma_manifest_size_prefix(entries: Seq<(String, DropChunk)>, n: int)
    requires
        0 <= n <= entries.len(),
    ensures
        manifest_size(entries.subrange(0, n)) <= manifest_size(entries),
        manifest_size(entries.subrange(0, n)) >= 0,
    decreases entries.len(),
{
    if n < entries.len() {
        lemma_manifest_size_prefix(entries.drop_last(), n);
        assert(entries.drop_last().subrange(0, n) =~= entries.subrange(0, n));
        lemma_prefix_nonneg_all(entries.last().1.lengths@, entries.last().1.lengths@.len() as int);
    } else {
        assert(entries.subrange(0, n) =~= entries);
        lemma_manifest_size_nonneg(entries);
    }
}

proof fn lemma_manifest_size_nonneg(entries: Seq<(String, DropChunk)>)
    ensures
        manifest_size(entries) >= 0,
    decreases entries.len(),
{
    if entries.len() > 0 {
        lemma_manifest_size_nonneg(entries.drop_last());
        lemma_prefix_nonneg_all(entries.last().1.lengths@, entries.last().1.lengths@.len() as int);
    }
}


/// The checksum of every drop, in order.
pub open spec fn checksums_of(ds: Seq<DropView>) -> Seq<Seq<char>> {
    ds.map_values(|d: DropView| d.checksum)
}

/// The checksums of all drops of `buckets`, bucket after bucket.
pub fn all_checksums(buckets: &Vec<DownloadBucket>) -> (r: Vec<String>)
    ensures
        views(r@) == checksums_of(concat_all(bucket_views(buckets@))),
{
    let mut out: Vec<String> = Vec::new();
    let mut b: usize = 0;
    while b < buckets.len()
        invariant
            b <= buckets@.len(),
            views(out@) == checksums_of(concat_all(bucket_views(buckets@.subrange(0, b as int)))),
        decreases buckets@.len() - b,
    {
        let drops = &buckets[b].drops;
        let ghost before = views(out@);
        let mut j: usize = 0;
        while j < drops.len()
            invariant
                b < buckets@.len(),
                drops == &buckets@[b as int].drops,
                j <= drops@.len(),
                views(out@) == before + checksums_of(drop_views(drops@.subrange(0, j as int))),
            decreases drops@.len() - j,
        {
            let ghost prev = views(out@);
            out.push(clone_string(&drops[j].checksum));
            proof {
                assert(views(out@) =~= prev.push(drops@[j as int].checksum@));
                assert(checksums_of(drop_views(drops@.subrange(0, j as int + 1))) =~= checksums_of(
                    drop_views(drops@.subrange(0, j as int)),
                ).push(drops@[j as int].checksum@));
                assert(views(out@) =~= before + checksums_of(drop_views(drops@.subrange(0, j as int + 1))));
            }
            j = j + 1;
        }
        proof {
            assert(drops@.subrange(0, j as int) =~= drops@);
            let sub = bucket_views(buckets@.subrange(0, b as int + 1));
            assert(sub.drop_last() =~= bucket_views(buckets@.subrange(0, b as int)));
            assert(sub.last() == drop_views(drops@));
            assert(checksums_of(concat_all(sub)) =~= checksums_of(concat_all(sub.drop_last())) + checksums_of(sub.last()));
        }
        b = b + 1;
    }
    proof {
        assert(buckets@.subrange(0, b as int) =~= buckets@);
    }
    out
}

/// Pairs each checksum with whether `done` records it as complete.
pub fn completion_pairs(checks: &Vec<String>, done: &AssocMap<String, bool>) -> (r: Vec<(String, bool)>)
    ensures
        r@.len() == checks@.len(),
        forall|i: int| 0 <= i < r@.len() ==> (#[trigger] r@[i]).0@ == checks@[i]@ && r@[i].1 == is_done(done.view(), checks@[i]@),
{
    let mut out: Vec<(String, bool)> = Vec::new();
    let mut i: usize = 0;
    while i < checks.len()
        invariant
            i <= checks@.len(),
            out@.len() == i,
            forall|j: int| 0 <= j < i ==> (#[trigger] out@[j]).0@ == checks@[j]@ && out@[j].1 == is_done(done.view(), checks@[j]@),
        decreases checks@.len() - i,
    {
        let state = match done.get(&checks[i]) {
            Some(v) => *v,
            None => false,
        };
        out.push((clone_string(&checks[i]), state));
        i = i + 1;
    }
    out
}

/// Inserting the pairs in order gives the completion map of the drops they describe.
proof fn lemma_pairs_completion(pairs: Seq<(String, bool)>, ds: Seq<DropView>, done: Map<Seq<char>, bool>)
    requires
        pairs.len() == ds.len(),
        forall|i: int| 0 <= i < pairs.len() ==> (#[trigger] pairs[i]).0@ == ds[i].checksum && pairs[i].1 == is_done(done, ds[i].checksum),
    ensures
        spec_pairs_map(pairs) == completion_map(ds, done),
    decreases pairs.len(),
{
    if pairs.len() > 0 {
        let p2 = pairs.drop_last();
        let d2 = ds.drop_last();
        assert forall|i: int| 0 <= i < p2.len() implies (#[trigger] p2[i]).0@ == d2[i].checksum && p2[i].1 == is_done(done, d2[i].checksum) by {
            assert(p2[i] == pairs[i]);
        }
        lemma_pairs_completion(p2, d2, done);
        assert(pairs.last() == pairs[pairs.len() - 1]);
    }
}

impl GameDownloadAgent {
    /// Cuts the manifest into buckets and resets the stored contexts to the
    /// drops of those buckets, each kept complete if it was complete before.
    pub fn generate_buckets(&mut self) -> (r: Result<(), ApplicationDownloadError>)
        requires
            old(self).manifest is Some,
            old(self).manifest_ok(),
        ensures
            r is Ok,
            bucket_views(final(self).buckets@) == spec_buckets(
                manifest_drops(old(self).dropdata.base_path@, old(self).manifest->0@),
            ),
            forall|b: int| 0 <= b < final(self).buckets@.len() ==> (#[trigger] final(self).buckets@[b]).game_id == old(self).id
                && final(self).buckets@[b].version == old(self).version,
            final(self).dropdata.contexts.view() == completion_map(final(self).all_drops(), old(self).dropdata.contexts.view()),
            final(self).dropdata.base_path == old(self).dropdata.base_path,
            final(self).dropdata.game_id == old(self).dropdata.game_id,
            final(self).dropdata.game_version == old(self).dropdata.game_version,
            final(self).id == old(self).id,
            final(self).version == old(self).version,
            final(self).manifest == old(self).manifest,
            final(self).context_map == old(self).context_map,
            final(self).status == old(self).status,
    {
        let buckets = match &self.manifest {
            Some(m) => plan_buckets(&self.id, &self.version, &self.dropdata.base_path, m),
            None => Vec::new(),
        };
        let checks = all_checksums(&buckets);
        let pairs = completion_pairs(&checks, &self.dropdata.contexts);
        proof {
            let ds = concat_all(bucket_views(buckets@));
            assert(views(checks@).len() == checks@.len());
            assert(checksums_of(ds).len() == ds.len());
            assert forall|i: int| 0 <= i < pairs@.len() implies (#[trigger] pairs@[i]).0@ == ds[i].checksum
                && pairs@[i].1 == is_done(self.dropdata.contexts.view(), ds[i].checksum) by {
                assert(views(checks@)[i] == checks@[i]@);
                assert(checksums_of(ds)[i] == ds[i].checksum);
            }
            lemma_pairs_completion(pairs@, ds, self.dropdata.contexts.view());
        }
        self.dropdata.set_contexts(pairs.as_slice());
        self.buckets = buckets;
        Ok(())
    }

    /// Makes sure buckets exist, then loads the stored contexts as the
    /// working record of completed chunks.
    pub fn ensure_buckets(&mut self) -> (r: Result<(), ApplicationDownloadError>)
        requires
            old(self).buckets@.len() == 0 ==> old(self).manifest is Some,
            old(self).manifest_ok(),
        ensures
            r is Ok,
            old(self).buckets@.len() > 0 ==> final(self).buckets == old(self).buckets && final(self).dropdata == old(self).dropdata,
            old(self).buckets@.len() == 0 ==> {
                &&& bucket_views(final(self).buckets@) == spec_buckets(
                    manifest_drops(old(self).dropdata.base_path@, old(self).manifest->0@))
                &&& final(self).dropdata.contexts.view() == completion_map(final(self).all_drops(), old(self).dropdata.contexts.view())
                &&& final(self).dropdata.base_path == old(self).dropdata.base_path
            },
            final(self).context_map.view() == final(self).dropdata.contexts.view(),
            final(self).id == old(self).id,
            final(self).version == old(self).version,
            final(self).manifest == old(self).manifest,
            final(self).status == old(self).status,
    {
        if self.buckets.len() == 0 {
            let _ = self.generate_buckets();
        }
        self.context_map = self.dropdata.get_contexts();
        Ok(())
    }

    /// Prepares a download: refuses without a manifest, otherwise makes the
    /// buckets and records the game as downloading this version.
    pub fn setup_download(&mut self, db: &mut Applications) -> (r: Result<(), ApplicationDownloadError>)
        requires
            old(self).manifest_ok(),
        ensures
            old(self).manifest is None ==> r == Err::<(), ApplicationDownloadError>(ApplicationDownloadError::NotInitialized)
                && *final(self) == *old(self) && *final(db) == *old(db),
            old(self).manifest is Some ==> {
                &&& r is Ok
                &&& final(self).manifest == old(self).manifest
                &&& final(self).id == old(self).id
                &&& final(self).version == old(self).version
                &&& final(self).status == old(self).status
                &&& final(self).context_map.view() == final(self).dropdata.contexts.view()
                &&& old(self).buckets@.len() == 0 ==> bucket_views(final(self).buckets@) == spec_buckets(
                    manifest_drops(old(self).dropdata.base_path@, old(self).manifest->0@))
                &&& old(self).buckets@.len() > 0 ==> final(self).buckets == old(self).buckets
                &&& final(db).transient_statuses.view() == old(db).transient_statuses.view().insert(
                    old(self).spec_metadata(),
                    ApplicationTransientStatus::Downloading { version_name: old(self).version },
                )
                &&& final(db).game_statuses == old(db).game_statuses
                &&& final(db).installed_game_version == old(db).installed_game_version
                &&& final(db).game_versions == old(db).game_versions
                &&& final(db).install_dirs == old(db).install_dirs
            },
    {
        if !self.check_manifest_exists() {
            return Err(ApplicationDownloadError::NotInitialized);
        }
        let _ = self.ensure_buckets();
        let status = ApplicationTransientStatus::Downloading { version_name: clone_string(&self.version) };
        db.transient_statuses.insert(self.metadata(), status);
        Ok(())
    }

    /// The drops of a bucket still to fetch, and the bytes of those already done.
    pub fn pending_drops(&self, bucket: &DownloadBucket) -> (r: (Vec<DownloadDrop>, usize))
        requires
            total_length(drop_views(bucket.drops@)) <= usize::MAX,
        ensures
            drop_views(r.0@) == drop_views(bucket.drops@).filter(|d: DropView| !is_done(self.context_map.view(), d.checksum)),
            r.1 == total_length(drop_views(bucket.drops@).filter(|d: DropView| is_done(self.context_map.view(), d.checksum))),
    {
        let ghost todo_pred = |d: DropView| !is_done(self.context_map.view(), d.checksum);
        let ghost done_pred = |d: DropView| is_done(self.context_map.view(), d.checksum);
        let ghost all = drop_views(bucket.drops@);
        let mut todo: Vec<DownloadDrop> = Vec::new();
        let mut skipped: usize = 0;
        let mut i: usize = 0;
        while i < bucket.drops.len()
            invariant
                i <= bucket.drops@.len(),
                all == drop_views(bucket.drops@),
                total_length(all) <= usize::MAX,
                todo_pred == (|d: DropView| !is_done(self.context_map.view(), d.checksum)),
                done_pred == (|d: DropView| is_done(self.context_map.view(), d.checksum)),
                drop_views(todo@) == all.subrange(0, i as int).filter(todo_pred),
                skipped == total_length(all.subrange(0, i as int).filter(done_pred)),
                total_length(all.subrange(0, i as int).filter(done_pred)) <= total_length(all.subrange(0, i as int)),
            decreases bucket.drops@.len() - i,
        {
            let d = &bucket.drops[i];
            let done = match self.context_map.get(&d.checksum) {
                Some(v) => *v,
                None => false,
            };
            proof {
                let sub = all.subrange(0, i as int + 1);
                assert(sub.drop_last() =~= all.subrange(0, i as int));
                assert(sub.last() == d@);
                reveal_with_fuel(Seq::filter, 1);
                lemma_total_prefix(all, sub);
                assert(total_length(sub) == total_length(all.subrange(0, i as int)) + d.length);
                lemma_total_nonneg(all.subrange(0, i as int).filter(done_pred));
            }
            if done {
                skipped = skipped + d.length;
                proof {
                    let sub = all.subrange(0, i as int + 1);
                    let f = all.subrange(0, i as int).filter(done_pred);
                    assert(sub.filter(done_pred) == f.push(d@));
                    assert(f.push(d@).drop_last() =~= f);
                }
            } else {
                let ghost prev = drop_views(todo@);
                todo.push(d.duplicate());
                proof {
                    assert(drop_views(todo@) =~= prev.push(d@));
                    let sub = all.subrange(0, i as int + 1);
                    assert(sub.filter(todo_pred) == all.subrange(0, i as int).filter(todo_pred).push(d@));
                }
            }
            i = i + 1;
        }
        proof {
            assert(all.subrange(0, i as int) =~= all);
        }
        (todo, skipped)
    }
}

impl GameDownloadAgent {
    /// Folds the chunks fetched in this run into the record of completed
    /// chunks, stores the record, and tells whether every drop is now done.
    pub fn finish_run(&mut self, newly_completed: &Vec<String>) -> (r: bool)
        ensures
            final(self).context_map.view() == mark_all(old(self).context_map.view(), views(newly_completed@), true),
            final(self).dropdata.contexts.view() == completion_map(old(self).all_drops(), final(self).context_map.view()),
            r == forall|i: int| 0 <= i < old(self).all_drops().len()
                ==> is_done(final(self).context_map.view(), #[trigger] old(self).all_drops()[i].checksum),
            final(self).buckets == old(self).buckets,
            final(self).id == old(self).id,
            final(self).version == old(self).version,
            final(self).manifest == old(self).manifest,
            final(self).status == old(self).status,
            final(self).dropdata.base_path == old(self).dropdata.base_path,
    {
        mark_contexts(&mut self.context_map, newly_completed, true);
        let checks = all_checksums(&self.buckets);
        let pairs = completion_pairs(&checks, &self.context_map);
        let ghost ds = self.all_drops();
        proof {
            assert(views(checks@).len() == checks@.len());
            assert(checksums_of(ds).len() == ds.len());
            assert forall|i: int| 0 <= i < pairs@.len() implies (#[trigger] pairs@[i]).0@ == ds[i].checksum
                && pairs@[i].1 == is_done(self.context_map.view(), ds[i].checksum) by {
                assert(views(checks@)[i] == checks@[i]@);
                assert(checksums_of(ds)[i] == ds[i].checksum);
            }
            lemma_pairs_completion(pairs@, ds, self.context_map.view());
        }
        self.dropdata.set_contexts(pairs.as_slice());
        let mut all_done = true;
        let mut i: usize = 0;
        while i < pairs.len()
            invariant
                i <= pairs@.len(),
                pairs@.len() == ds.len(),
                forall|j: int| 0 <= j < pairs@.len() ==> (#[trigger] pairs@[j]).1 == is_done(self.context_map.view(), ds[j].checksum),
                all_done == forall|j: int| 0 <= j < i ==> is_done(self.context_map.view(), #[trigger] ds[j].checksum),
            decreases pairs@.len() - i,
        {
            if !pairs[i].1 {
                all_done = false;
            }
            proof {
                assert(pairs@[i as int].1 == is_done(self.context_map.view(), ds[i as int].checksum));
            }
            i = i + 1;
        }
        all_done
    }

    /// One validation context per drop of every bucket, in order.
    pub fn validation_contexts(&self) -> (r: Vec<DropValidateContext>)
        ensures
            r@.map_values(|c: DropValidateContext| validate_view(c)) == self.all_drops().map_values(
                |d: DropView| drop_validate_view(d),
            ),
    {
        let mut out: Vec<DropValidateContext> = Vec::new();
        let mut b: usize = 0;
        while b < self.buckets.len()
            invariant
                b <= self.buckets@.len(),
                out@.map_values(|c: DropValidateContext| validate_view(c)) == concat_all(
                    bucket_views(self.buckets@.subrange(0, b as int)),
                ).map_values(|d: DropView| drop_validate_view(d)),
            decreases self.buckets@.len() - b,
        {
            let bucket_contexts = DropValidateContext::from_bucket(&self.buckets[b]);
            let ghost before = out@.map_values(|c: DropValidateContext| validate_view(c));
            let ghost dv = drop_views(self.buckets@[b as int].drops@);
            let mut bc = bucket_contexts;
            let mut taken: Vec<DropValidateContext> = Vec::new();
            std::mem::swap(&mut taken, &mut bc);
            let ghost added = taken@;
            proof {
                assert(added.map_values(|c: DropValidateContext| validate_view(c)) =~= dv.map_values(
                    |d: DropView| drop_validate_view(d),
                ));
            }
            out.append(&mut taken);
            proof {
                assert(out@.map_values(|c: DropValidateContext| validate_view(c)) =~= before + added.map_values(
                    |c: DropValidateContext| validate_view(c),
                ));
                let sub = bucket_views(self.buckets@.subrange(0, b as int + 1));
                assert(sub.drop_last() =~= bucket_views(self.buckets@.subrange(0, b as int)));
                assert(sub.last() == dv);
                assert(concat_all(sub).map_values(|d: DropView| drop_validate_view(d)) =~= concat_all(
                    sub.drop_last(),
                ).map_values(|d: DropView| drop_validate_view(d)) + dv.map_values(|d: DropView| drop_validate_view(d)));
            }
            b = b + 1;
        }
        proof {
            assert(self.buckets@.subrange(0, b as int) =~= self.buckets@);
        }
        out
    }

    /// Records the outcome of a validation: every chunk that failed is marked
    /// incomplete. True when none failed.
    pub fn apply_validation(&mut self, invalid_chunks: &Vec<String>) -> (r: bool)
        ensures
            r == (invalid_chunks@.len() == 0),
            final(self).dropdata.contexts.view() == mark_all(old(self).dropdata.contexts.view(), views(invalid_chunks@), false),
            final(self).dropdata.base_path == old(self).dropdata.base_path,
            final(self).buckets == old(self).buckets,
            final(self).context_map == old(self).context_map,
            final(self).id == old(self).id,
            final(self).version == old(self).version,
            final(self).manifest == old(self).manifest,
            final(self).status == old(self).status,
    {
        if invalid_chunks.len() == 0 {
            proof {
                assert(views(invalid_chunks@) =~= Seq::<Seq<char>>::empty());
            }
            return true;
        }
        mark_contexts(&mut self.dropdata.contexts, invalid_chunks, false);
        false
    }

    /// Prepares a validation: records the game as validating this version and
    /// returns the progress sizes.
    pub fn setup_validate(&self, db: &mut Applications) -> (r: ProgressTotals)
        requires
            total_length(self.all_drops()) <= usize::MAX,
            self.all_drops().len() <= usize::MAX,
        ensures
            r.max == total_length(self.all_drops()),
            r.size == self.all_drops().len(),
            final(db).transient_statuses.view() == old(db).transient_statuses.view().insert(
                self.spec_metadata(),
                ApplicationTransientStatus::Validating { version_name: self.version },
            ),
            final(db).game_statuses == old(db).game_statuses,
            final(db).installed_game_version == old(db).installed_game_version,
            final(db).game_versions == old(db).game_versions,
            final(db).install_dirs == old(db).install_dirs,
    {
        let totals = self.setup_progress();
        db.transient_statuses.insert(
            self.metadata(),
            ApplicationTransientStatus::Validating { version_name: clone_string(&self.version) },
        );
        totals
    }

    /// A cancelled download stays resumable: the game is recorded as
    /// partially installed at this agent's directory.
    pub fn cancel(&self, db: &mut Applications)
        ensures
            final(db).transient_statuses.view() == old(db).transient_statuses.view().remove(self.spec_metadata()),
            final(db).game_statuses.view() == old(db).game_statuses.view().insert(
                self.id@,
                crate::models::GameDownloadStatus::PartiallyInstalled {
                    version_name: self.version,
                    install_dir: self.dropdata.base_path,
                },
            ),
            final(db).installed_game_version.view() == old(db).installed_game_version.view().insert(
                self.id@,
                DownloadableMetadata { id: self.id, version: Some(self.version), download_type: DownloadType::Game },
            ),
            final(db).installed_game_version.view()[self.id@]@ == self.spec_metadata(),
            final(db).game_versions == old(db).game_versions,
            final(db).install_dirs == old(db).install_dirs,
    {
        let meta = self.metadata();
        set_partially_installed_db(db, &meta, clone_string(&self.dropdata.base_path));
    }

    /// A failed download loses its transient status.
    pub fn on_error(&mut self, db: &mut Applications)
        ensures
            final(self).status == DownloadStatus::Error,
            final(db).transient_statuses.view() == old(db).transient_statuses.view().remove(old(self).spec_metadata()),
            final(db).game_statuses == old(db).game_statuses,
            final(db).installed_game_version == old(db).installed_game_version,
            final(db).game_versions == old(db).game_versions,
            final(db).install_dirs == old(db).install_dirs,
            final(self).id == old(self).id,
            final(self).version == old(self).version,
            final(self).buckets == old(self).buckets,
            final(self).dropdata == old(self).dropdata,
            final(self).manifest == old(self).manifest,
            final(self).context_map == old(self).context_map,
    {
        self.status = DownloadStatus::Error;
        let meta = self.metadata();
        let _ = db.transient_statuses.remove(&meta);
    }

    /// Sets where the download stands.
    pub fn set_status(&mut self, status: DownloadStatus)
        ensures
            final(self).status == status,
            final(self).id == old(self).id,
            final(self).version == old(self).version,
            final(self).buckets == old(self).buckets,
            final(self).dropdata == old(self).dropdata,
            final(self).context_map == old(self).context_map,
            final(self).manifest == old(self).manifest,
    {
        self.status = status;
    }

    /// A completed download is recorded as installed (or needing setup) at
    /// this agent's directory, with the version record fetched for it.
    pub fn on_complete(&self, db: &mut Applications, game_version: crate::models::GameVersion) -> (r: crate::models::GameDownloadStatus)
        ensures
            r == crate::library::spec_completed_status(self.version, self.dropdata.base_path, game_version),
            final(db).game_statuses.view() == old(db).game_statuses.view().insert(self.id@, r),
            final(db).installed_game_version.view() == old(db).installed_game_version.view().insert(
                self.id@,
                DownloadableMetadata { id: self.id, version: Some(self.version), download_type: DownloadType::Game },
            ),
            final(db).installed_game_version.view()[self.id@]@ == self.spec_metadata(),
            final(db).game_versions.view().contains_key(self.id@),
            final(db).game_versions.view()[self.id@].view() == (match lookup(old(db).game_versions.view(), self.id@) {
                Some(inner) => inner.view(),
                None => Map::empty(),
            }).insert(self.version@, game_version),
            forall|k: Seq<char>| k != self.id@ ==> lookup(#[trigger] final(db).game_versions.view(), k)
                == lookup(old(db).game_versions.view(), k),
            final(db).transient_statuses == old(db).transient_statuses,
            final(db).install_dirs == old(db).install_dirs,
    {
        let meta = self.metadata();
        match crate::library::on_game_complete(db, &meta, clone_string(&self.dropdata.base_path), game_version) {
            Ok(status) => status,
            Err(_) => {
                proof {
                    assert(false);
                }
                crate::models::GameDownloadStatus::Remote
            },
        }
    }
}
} // verus!

verus! {

/// After marking `keys` with `state`, each of them holds `state`; every other
/// key keeps what it had.
pub proof fn law_mark_all(m: Map<Seq<char>, bool>, keys: Seq<Seq<char>>, state: bool, k: Seq<char>)
    ensures
        keys.contains(k) ==> mark_all(m, keys, state).contains_key(k) && mark_all(m, keys, state)[k] == state,
        !keys.contains(k) ==> lookup(mark_all(m, keys, state), k) == lookup(m, k),
    decreases keys.len(),
{
    if keys.len() > 0 {
        law_mark_all(m, keys.drop_last(), state, k);
        if keys.contains(k) && k != keys.last() {
            let i = choose|i: int| 0 <= i < keys.len() && keys[i] == k;
            assert(keys.drop_last()[i] == k);
        }
        if !keys.contains(k) {
            assert(!keys.drop_last().contains(k)) by {
                if keys.drop_last().contains(k) {
                    let i = choose|i: int| 0 <= i < keys.len() - 1 && keys.drop_last()[i] == k;
                    assert(keys[i] == k);
                }
            }
            assert(keys[keys.len() - 1] == keys.last());
        }
    }
}

/// A run that fetched the chunk of every drop leaves every drop complete, so
/// the download is finished.
pub proof fn law_all_fetched_means_done(ds: Seq<DropView>, m: Map<Seq<char>, bool>, fetched: Seq<Seq<char>>)
    requires
        forall|i: int| 0 <= i < ds.len() ==> fetched.contains(#[trigger] ds[i].checksum),
    ensures
        forall|i: int| 0 <= i < ds.len() ==> is_done(mark_all(m, fetched, true), #[trigger] ds[i].checksum),
{
    assert forall|i: int| 0 <= i < ds.len() implies is_done(mark_all(m, fetched, true), #[trigger] ds[i].checksum) by {
        law_mark_all(m, fetched, true, ds[i].checksum);
    }
}

/// A chunk that failed validation is no longer complete.
pub proof fn law_invalid_chunk_not_done(m: Map<Seq<char>, bool>, invalid: Seq<Seq<char>>, k: Seq<char>)
    requires
        invalid.contains(k),
    ensures
        !is_done(mark_all(m, invalid, false), k),
{
    law_mark_all(m, invalid, false, k);
}

/// Re-planning keeps the progress of every drop: each drop's chunk is
/// complete afterwards exactly when it was complete before.
pub proof fn law_completion_kept(ds: Seq<DropView>, done: Map<Seq<char>, bool>, i: int)
    requires
        0 <= i < ds.len(),
    ensures
        completion_map(ds, done).contains_key(ds[i].checksum),
        completion_map(ds, done)[ds[i].checksum] == is_done(done, ds[i].checksum),
    decreases ds.len(),
{
    if i < ds.len() - 1 {
        law_completion_kept(ds.drop_last(), done, i);
        assert(ds.drop_last()[i] == ds[i]);
    }
}

/// A cancelled download shows as partially installed, at the agent's
/// directory and version, with no activity; resuming it takes up that version
/// and directory.
pub proof fn law_cancel_then_resume(agent: GameDownloadAgent, before: Applications, after: Applications)
    requires
        after.transient_statuses.view() == before.transient_statuses.view().remove(agent.spec_metadata()),
        after.game_statuses.view() == before.game_statuses.view().insert(
            agent.id@,
            crate::models::GameDownloadStatus::PartiallyInstalled {
                version_name: agent.version,
                install_dir: agent.dropdata.base_path,
            },
        ),
        after.installed_game_version.view().contains_key(agent.id@),
        after.installed_game_version.view()[agent.id@]@ == agent.spec_metadata(),
    ensures
        crate::state::spec_game_state(after, agent.id@) == (
            Some(crate::models::GameDownloadStatus::PartiallyInstalled {
                version_name: agent.version,
                install_dir: agent.dropdata.base_path,
            }),
            None::<ApplicationTransientStatus>,
        ),
        crate::library::status_of(after, agent.id@) == Some(
            crate::models::GameDownloadStatus::PartiallyInstalled {
                version_name: agent.version,
                install_dir: agent.dropdata.base_path,
            },
        ),
{
}

} // verus!

verus! {

/// An agent's manifest, once present, stays present: `new` sets it, and
/// each of `generate_buckets`, `ensure_buckets`, `setup_download`,
/// `finish_run`, `apply_validation`, `on_error` and `set_status` leaves it as
/// it was (`setup_validate` and `cancel` do not change the agent), so
/// `check_manifest_exists` stays true along any sequence of these calls.
pub proof fn law_manifest_stays_present(states: Seq<GameDownloadAgent>)
    requires
        states.len() > 0,
        states[0].manifest is Some,
        forall|i: int| 0 < i < states.len() ==> (#[trigger] states[i]).manifest == states[i - 1].manifest,
    ensures
        forall|i: int| 0 <= i < states.len() ==> (#[trigger] states[i]).manifest is Some,
    decreases states.len(),
{
    if states.len() > 1 {
        let rest = states.drop_last();
        assert forall|i: int| 0 < i < rest.len() implies (#[trigger] rest[i]).manifest == rest[i - 1].manifest by {
            assert(rest[i] == states[i]);
            assert(rest[i - 1] == states[i - 1]);
        }
        law_manifest_stays_present(rest);
        assert forall|i: int| 0 <= i < states.len() implies (#[trigger] states[i]).manifest is Some by {
            if i < rest.len() {
                assert(rest[i] == states[i]);
            } else {
                assert(rest[i - 1] == states[i - 1]);
            }
        }
    }
}

} // verus!
