//! Cutting a game's manifest into drops and grouping the drops into buckets
//! of roughly `TARGET_BUCKET_SIZE` bytes, one request per bucket.

use vstd::prelude::*;
use crate::manifest::{drop_views, DownloadBucket, DownloadDrop, DropChunk, DropView};
use crate::models::clone_string;
use crate::paths::{join_path, spec_join_path};

verus! {

/// A drop at least this long gets a bucket of its own; smaller drops are
/// grouped so that a bucket stays below it.
pub const TARGET_BUCKET_SIZE: usize = 200000000;

/// The sum of the first `n` lengths.
pub open spec fn prefix_sum(lengths: Seq<usize>, n: int) -> int
    decreases n,
{
    if n <= 0 || n > lengths.len() {
        0
    } else {
        prefix_sum(lengths, n - 1) + lengths[n - 1]
    }
}

/// The `i`-th drop of the file at `raw_path`.
pub open spec fn spec_drop(base: Seq<char>, raw_path: Seq<char>, chunk: DropChunk, i: int) -> DropView {
    DropView {
        index: i as usize,
        filename: raw_path,
        path: spec_join_path(base, raw_path),
        start: prefix_sum(chunk.lengths@, i) as usize,
        length: chunk.lengths@[i],
        checksum: chunk.checksums@[i]@,
        permissions: chunk.permissions,
    }
}

/// The first `k` drops of one file.
pub open spec fn file_drops(base: Seq<char>, raw_path: Seq<char>, chunk: DropChunk, k: int) -> Seq<DropView>
    decreases k,
{
    if k <= 0 {
        Seq::empty()
    } else {
        file_drops(base, raw_path, chunk, k - 1).push(spec_drop(base, raw_path, chunk, k - 1))
    }
}

/// All drops of a manifest, file by file in manifest order.
pub open spec fn manifest_drops(base: Seq<char>, entries: Seq<(String, DropChunk)>) -> Seq<DropView>
    decreases entries.len(),
{
    if entries.len() == 0 {
        Seq::empty()
    } else {
        manifest_drops(base, entries.drop_last()) + file_drops(
            base,
            entries.last().0@,
            entries.last().1,
            entries.last().1.lengths@.len() as int,
        )
    }
}

/// The manifest can be cut up without indexing past a checksum list or
/// overflowing a file offset.
pub open spec fn manifest_well_formed(entries: Seq<(String, DropChunk)>) -> bool {
    forall|e: int| 0 <= e < entries.len() ==> {
        &&& (#[trigger] entries[e]).1.checksums@.len() >= entries[e].1.lengths@.len()
        &&& prefix_sum(entries[e].1.lengths@, entries[e].1.lengths@.len() as int) <= usize::MAX
    }
}

/// Buckets already closed, the bucket being filled, and its byte size.
pub struct BucketState {
    pub done: Seq<Seq<DropView>>,
    pub current: Seq<DropView>,
    pub size: int,
}

/// Places one more drop.
pub open spec fn bucket_step(s: BucketState, d: DropView) -> BucketState {
    if d.length >= TARGET_BUCKET_SIZE {
        BucketState { done: s.done.push(seq![d]), current: s.current, size: s.size }
    } else if s.size + d.length >= TARGET_BUCKET_SIZE && s.current.len() > 0 {
        BucketState { done: s.done.push(s.current), current: seq![d], size: d.length as int }
    } else {
        BucketState { done: s.done, current: s.current.push(d), size: s.size + d.length }
    }
}

pub open spec fn bucket_fold(ds: Seq<DropView>) -> BucketState
    decreases ds.len(),
{
    if ds.len() == 0 {
        BucketState { done: Seq::empty(), current: Seq::empty(), size: 0 }
    } else {
        bucket_step(bucket_fold(ds.drop_last()), ds.last())
    }
}

/// The buckets the drops `ds` are grouped into, in the order they are closed.
pub open spec fn spec_buckets(ds: Seq<DropView>) -> Seq<Seq<DropView>> {
    let s = bucket_fold(ds);
    if s.current.len() > 0 {
        s.done.push(s.current)
    } else {
        s.done
    }
}

pub open spec fn bucket_views(bs: Seq<DownloadBucket>) -> Seq<Seq<DropView>> {
    bs.map_values(|b: DownloadBucket| drop_views(b.drops@))
}

/// The total length of some drops.
pub open spec fn total_length(ds: Seq<DropView>) -> int
    decreases ds.len(),
{
    if ds.len() == 0 {
        0
    } else {
        total_length(ds.drop_last()) + ds.last().length
    }
}

/// All the drops of some buckets, bucket after bucket.
pub open spec fn concat_all(bs: Seq<Seq<DropView>>) -> Seq<DropView>
    decreases bs.len(),
{
    if bs.len() == 0 {
        Seq::empty()
    } else {
        concat_all(bs.drop_last()) + bs.last()
    }
}

proof fn lemma_prefix_sum_mono(lengths: Seq<usize>, i: int, n: int)
    requires
        0 <= i <= n <= lengths.len(),
    ensures
        prefix_sum(lengths, i) <= prefix_sum(lengths, n),
        prefix_sum(lengths, i) >= 0,
    decreases n,
{
    lemma_prefix_sum_nonneg(lengths, i);
    if i < n {
        lemma_prefix_sum_mono(lengths, i, n - 1);
    }
}

proof fn lemma_prefix_sum_nonneg(lengths: Seq<usize>, n: int)
    ensures
        prefix_sum(lengths, n) >= 0,
    decreases n,
{
    if n > 0 && n <= lengths.len() {
        lemma_prefix_sum_nonneg(lengths, n - 1);
    }
}

/// What every state of the fold keeps: the open bucket is below the target
/// and its recorded size is its total length.
proof fn lemma_fold_invariant(ds: Seq<DropView>)
    ensures
        0 <= bucket_fold(ds).size < TARGET_BUCKET_SIZE,
        bucket_fold(ds).size == total_length(bucket_fold(ds).current),
        bucket_fold(ds).current.len() == 0 ==> bucket_fold(ds).size == 0,
    decreases ds.len(),
{
    if ds.len() > 0 {
        lemma_fold_invariant(ds.drop_last());
        let s = bucket_fold(ds.drop_last());
        let d = ds.last();
        if d.length >= TARGET_BUCKET_SIZE {
        } else if s.size + d.length >= TARGET_BUCKET_SIZE && s.current.len() > 0 {
            assert(seq![d].drop_last() =~= Seq::<DropView>::empty());
            assert(total_length(seq![d]) == total_length(Seq::<DropView>::empty()) + d.length);
        } else {
            assert(s.current.push(d).drop_last() =~= s.current);
            assert(total_length(s.current.push(d)) == total_length(s.current) + d.length);
        }
    }
}

/// Every bucket holds at least one drop.
pub proof fn lemma_buckets_nonempty(ds: Seq<DropView>)
    ensures
        forall|b: int| 0 <= b < spec_buckets(ds).len() ==> (#[trigger] spec_buckets(ds)[b]).len() > 0,
{
    lemma_done_nonempty(ds);
}

proof fn lemma_done_nonempty(ds: Seq<DropView>)
    ensures
        forall|b: int| 0 <= b < bucket_fold(ds).done.len() ==> (#[trigger] bucket_fold(ds).done[b]).len() > 0,
    decreases ds.len(),
{
    if ds.len() > 0 {
        lemma_done_nonempty(ds.drop_last());
        let s = bucket_fold(ds.drop_last());
        let d = ds.last();
        let t = bucket_fold(ds);
        if d.length >= TARGET_BUCKET_SIZE {
            assert(t.done == s.done.push(seq![d]));
            assert forall|b: int| 0 <= b < t.done.len() implies (#[trigger] t.done[b]).len() > 0 by {
                if b < s.done.len() {
                    assert(t.done[b] == s.done[b]);
                }
            }
        } else if s.size + d.length >= TARGET_BUCKET_SIZE && s.current.len() > 0 {
            assert(t.done == s.done.push(s.current));
            assert forall|b: int| 0 <= b < t.done.len() implies (#[trigger] t.done[b]).len() > 0 by {
                if b < s.done.len() {
                    assert(t.done[b] == s.done[b]);
                }
            }
        } else {
            assert(t.done == s.done);
        }
    }
}

/// A bucket is either one drop of at least the target size, or a group of
/// drops whose total stays below the target.
pub proof fn lemma_bucket_sizes(ds: Seq<DropView>)
    ensures
        forall|b: int| 0 <= b < spec_buckets(ds).len() ==> {
            ||| ((#[trigger] spec_buckets(ds)[b]).len() == 1 && spec_buckets(ds)[b][0].length >= TARGET_BUCKET_SIZE)
            ||| total_length(spec_buckets(ds)[b]) < TARGET_BUCKET_SIZE
        },
{
    lemma_done_sizes(ds);
    lemma_fold_invariant(ds);
}

proof fn lemma_done_sizes(ds: Seq<DropView>)
    ensures
        forall|b: int| 0 <= b < bucket_fold(ds).done.len() ==> {
            ||| ((#[trigger] bucket_fold(ds).done[b]).len() == 1 && bucket_fold(ds).done[b][0].length >= TARGET_BUCKET_SIZE)
            ||| total_length(bucket_fold(ds).done[b]) < TARGET_BUCKET_SIZE
        },
    decreases ds.len(),
{
    if ds.len() > 0 {
        lemma_done_sizes(ds.drop_last());
        lemma_fold_invariant(ds.drop_last());
        let s = bucket_fold(ds.drop_last());
        let d = ds.last();
        let t = bucket_fold(ds);
        if d.length >= TARGET_BUCKET_SIZE {
            assert(t.done == s.done.push(seq![d]));
            assert forall|b: int| 0 <= b < t.done.len() implies {
                ||| ((#[trigger] t.done[b]).len() == 1 && t.done[b][0].length >= TARGET_BUCKET_SIZE)
                ||| total_length(t.done[b]) < TARGET_BUCKET_SIZE
            } by {
                if b < s.done.len() {
                    assert(t.done[b] == s.done[b]);
                }
            }
        } else if s.size + d.length >= TARGET_BUCKET_SIZE && s.current.len() > 0 {
            assert(t.done == s.done.push(s.current));
            assert forall|b: int| 0 <= b < t.done.len() implies {
                ||| ((#[trigger] t.done[b]).len() == 1 && t.done[b][0].length >= TARGET_BUCKET_SIZE)
                ||| total_length(t.done[b]) < TARGET_BUCKET_SIZE
            } by {
                if b < s.done.len() {
                    assert(t.done[b] == s.done[b]);
                }
            }
        } else {
            assert(t.done == s.done);
        }
    }
}

/// Grouping neither loses nor duplicates a drop: the buckets hold exactly
/// the drops they were made from.
pub proof fn lemma_buckets_keep_every_drop(ds: Seq<DropView>)
    ensures
        concat_all(spec_buckets(ds)).to_multiset() == ds.to_multiset(),
{
    lemma_fold_multiset(ds);
    let s = bucket_fold(ds);
    if s.current.len() > 0 {
        assert(s.done.push(s.current).drop_last() =~= s.done);
    }
}

proof fn lemma_fold_multiset(ds: Seq<DropView>)
    ensures
        (concat_all(bucket_fold(ds).done) + bucket_fold(ds).current).to_multiset() == ds.to_multiset(),
    decreases ds.len(),
{
    broadcast use vstd::seq_lib::group_to_multiset_ensures, vstd::seq_lib::lemma_multiset_commutative;
    if ds.len() == 0 {
        assert(concat_all(Seq::<Seq<DropView>>::empty()) + Seq::<DropView>::empty() =~= ds);
    } else {
        let prev = ds.drop_last();
        lemma_fold_multiset(prev);
        let s = bucket_fold(prev);
        let d = ds.last();
        assert(ds =~= prev.push(d));
        let m_prev = (concat_all(s.done) + s.current).to_multiset();
        if d.length >= TARGET_BUCKET_SIZE {
            let nd = s.done.push(seq![d]);
            assert(nd.drop_last() =~= s.done);
            assert((concat_all(nd) + s.current).to_multiset() =~= m_prev.insert(d)) by {
                assert(concat_all(nd) == concat_all(s.done) + seq![d]);
                assert(concat_all(nd) + s.current =~= concat_all(s.done) + (seq![d] + s.current));
                assert((seq![d] + s.current).to_multiset() =~= (s.current + seq![d]).to_multiset());
                assert(s.current + seq![d] =~= s.current.push(d));
                assert((concat_all(s.done) + s.current).push(d) =~= concat_all(s.done) + s.current.push(d));
            }
        } else if s.size + d.length >= TARGET_BUCKET_SIZE && s.current.len() > 0 {
            let nd = s.done.push(s.current);
            assert(nd.drop_last() =~= s.done);
            assert(concat_all(nd) + seq![d] =~= (concat_all(s.done) + s.current).push(d));
        } else {
            assert(concat_all(s.done) + s.current.push(d) =~= (concat_all(s.done) + s.current).push(d));
        }
    }
}

/// Drops for every chunk of every manifest entry, grouped into buckets.
pub fn plan_buckets(
    game_id: &String,
    version: &String,
    base_path: &String,
    manifest: &Vec<(String, DropChunk)>,
) -> (r: Vec<DownloadBucket>)
    requires
        manifest_well_formed(manifest@),
    ensures
        bucket_views(r@) == spec_buckets(manifest_drops(base_path@, manifest@)),
        forall|b: int| 0 <= b < r@.len() ==> (#[trigger] r@[b]).game_id == *game_id && r@[b].version == *version,
{
    let mut buckets: Vec<DownloadBucket> = Vec::new();
    let mut current: Vec<DownloadDrop> = Vec::new();
    let mut current_size: usize = 0;
    let ghost mut done_drops: Seq<DropView> = Seq::empty();
    let mut e: usize = 0;
    while e < manifest.len()
        invariant
            manifest_well_formed(manifest@),
            e <= manifest@.len(),
            done_drops == manifest_drops(base_path@, manifest@.subrange(0, e as int)),
            bucket_views(buckets@) == bucket_fold(done_drops).done,
            drop_views(current@) == bucket_fold(done_drops).current,
            current_size == bucket_fold(done_drops).size,
            forall|b: int| 0 <= b < buckets@.len() ==> (#[trigger] buckets@[b]).game_id == *game_id && buckets@[b].version == *version,
        decreases manifest@.len() - e,
    {
        let raw_path = &manifest[e].0;
        let chunk = &manifest[e].1;
        let path = join_path(base_path.as_str(), raw_path.as_str());
        let mut file_running_offset: usize = 0;
        let mut i: usize = 0;
        let ghost file_start = done_drops;
        proof {
            assert(manifest@[e as int].1.checksums@.len() >= manifest@[e as int].1.lengths@.len());
            assert(file_drops(base_path@, raw_path@, *chunk, 0) =~= Seq::<DropView>::empty());
            assert(done_drops =~= file_start + file_drops(base_path@, raw_path@, *chunk, 0));
        }
        while i < chunk.lengths.len()
            invariant
                manifest_well_formed(manifest@),
                e < manifest@.len(),
                raw_path == &manifest@[e as int].0,
                chunk == &manifest@[e as int].1,
                chunk.checksums@.len() >= chunk.lengths@.len(),
                prefix_sum(chunk.lengths@, chunk.lengths@.len() as int) <= usize::MAX,
                path@ == spec_join_path(base_path@, raw_path@),
                i <= chunk.lengths@.len(),
                file_running_offset == prefix_sum(chunk.lengths@, i as int),
                file_start == manifest_drops(base_path@, manifest@.subrange(0, e as int)),
                done_drops == file_start + file_drops(base_path@, raw_path@, *chunk, i as int),
                bucket_views(buckets@) == bucket_fold(done_drops).done,
                drop_views(current@) == bucket_fold(done_drops).current,
                current_size == bucket_fold(done_drops).size,
                forall|b: int| 0 <= b < buckets@.len() ==> (#[trigger] buckets@[b]).game_id == *game_id && buckets@[b].version == *version,
            decreases chunk.lengths@.len() - i,
        {
            let length = chunk.lengths[i];
            proof {
                lemma_prefix_sum_mono(chunk.lengths@, i as int + 1, chunk.lengths@.len() as int);
                lemma_fold_invariant(done_drops);
            }
            let drop = DownloadDrop {
                filename: clone_string(raw_path),
                start: file_running_offset,
                length,
                checksum: clone_string(&chunk.checksums[i]),
                permissions: chunk.permissions,
                path: clone_string(&path),
                index: i,
            };
            let ghost d = drop@;
            proof {
                assert(d == spec_drop(base_path@, raw_path@, *chunk, i as int));
            }
            file_running_offset = file_running_offset + length;
            let ghost prev_done = done_drops;
            proof {
                done_drops = done_drops.push(d);
                assert(done_drops.drop_last() =~= prev_done);
                assert(file_drops(base_path@, raw_path@, *chunk, i as int + 1)
                    == file_drops(base_path@, raw_path@, *chunk, i as int).push(d));
                assert(done_drops =~= file_start + file_drops(base_path@, raw_path@, *chunk, i as int + 1));
            }
            if length >= TARGET_BUCKET_SIZE {
                let mut single: Vec<DownloadDrop> = Vec::new();
                single.push(drop);
                let ghost old_buckets = buckets@;
                buckets.push(DownloadBucket { game_id: clone_string(game_id), version: clone_string(version), drops: single });
                proof {
                    assert(drop_views(single@) =~= seq![d]);
                    assert(bucket_views(buckets@) =~= bucket_views(old_buckets).push(seq![d]));
                }
            } else {
                if current_size + length >= TARGET_BUCKET_SIZE && current.len() > 0 {
                    let mut fresh: Vec<DownloadDrop> = Vec::new();
                    std::mem::swap(&mut fresh, &mut current);
                    let ghost old_buckets = buckets@;
                    buckets.push(DownloadBucket { game_id: clone_string(game_id), version: clone_string(version), drops: fresh });
                    current_size = 0;
                    proof {
                        assert(bucket_views(buckets@) =~= bucket_views(old_buckets).push(drop_views(fresh@)));
                    }
                }
                let ghost old_current = current@;
                current.push(drop);
                current_size = current_size + length;
                proof {
                    assert(drop_views(current@) =~= drop_views(old_current).push(d));
                    if drop_views(old_current).len() == 0 {
                        assert(drop_views(old_current).push(d) =~= seq![d]);
                    }
                }
            }
            i = i + 1;
        }
        proof {
            let sub = manifest@.subrange(0, e as int + 1);
            assert(sub.drop_last() =~= manifest@.subrange(0, e as int));
            assert(sub.last() == manifest@[e as int]);
        }
        e = e + 1;
    }
    let ghost before_last = buckets@;
    if current.len() > 0 {
        buckets.push(DownloadBucket { game_id: clone_string(game_id), version: clone_string(version), drops: current });
        proof {
            assert(bucket_views(buckets@) =~= bucket_views(before_last).push(bucket_fold(done_drops).current));
        }
    }
    proof {
        assert(manifest@.subrange(0, manifest@.len() as int) =~= manifest@);
    }
    buckets
}

} // verus!
