//! What a game download is made of: files cut into chunks ("drops"), and the
//! request bodies that ask the server for them.

use vstd::prelude::*;
use crate::models::clone_string;

verus! {

/// One chunk of one file, placed at `start` bytes into the file at `path`.
pub struct DownloadDrop {
    pub index: usize,
    pub filename: String,
    pub path: String,
    pub start: usize,
    pub length: usize,
    pub checksum: String,
    pub permissions: u32,
}

/// The plain-value meaning of a [`DownloadDrop`].
pub struct DropView {
    pub index: usize,
    pub filename: Seq<char>,
    pub path: Seq<char>,
    pub start: usize,
    pub length: usize,
    pub checksum: Seq<char>,
    pub permissions: u32,
}

impl View for DownloadDrop {
    type V = DropView;

    open spec fn view(&self) -> DropView {
        DropView {
            index: self.index,
            filename: self.filename@,
            path: self.path@,
            start: self.start,
            length: self.length,
            checksum: self.checksum@,
            permissions: self.permissions,
        }
    }
}

pub open spec fn drop_views(v: Seq<DownloadDrop>) -> Seq<DropView> {
    v.map_values(|d: DownloadDrop| d@)
}

impl DownloadDrop {
    pub fn duplicate(&self) -> (r: Self)
        ensures
            r@ == self@,
    {
        DownloadDrop {
            index: self.index,
            filename: clone_string(&self.filename),
            path: clone_string(&self.path),
            start: self.start,
            length: self.length,
            checksum: clone_string(&self.checksum),
            permissions: self.permissions,
        }
    }
}

pub fn duplicate_drops(v: &Vec<DownloadDrop>) -> (r: Vec<DownloadDrop>)
    ensures
        drop_views(r@) == drop_views(v@),
{
    let mut out: Vec<DownloadDrop> = Vec::new();
    let mut i: usize = 0;
    while i < v.len()
        invariant
            i <= v@.len(),
            out@.len() == i,
            forall|j: int| 0 <= j < i ==> #[trigger] out@[j]@ == v@[j]@,
        decreases v@.len() - i,
    {
        out.push(v[i].duplicate());
        i = i + 1;
    }
    proof {
        assert(drop_views(out@) =~= drop_views(v@));
    }
    out
}

/// A group of drops fetched with one request.
pub struct DownloadBucket {
    pub game_id: String,
    pub version: String,
    pub drops: Vec<DownloadDrop>,
}

/// The server-issued context that chunk requests refer to.
pub struct DownloadContext {
    pub context: String,
}

/// One requested file chunk in a [`ChunkBody`].
pub struct ChunkBodyFile {
    pub filename: String,
    pub chunk_index: usize,
}

/// The body of a chunk request.
pub struct ChunkBody {
    pub context: String,
    pub files: Vec<ChunkBodyFile>,
}

/// The body of a manifest or context request.
pub struct ManifestBody {
    pub game: String,
    pub version: String,
}

impl ChunkBody {
    /// Requests every drop of `drops`, in order, under `context`.
    pub fn create(context: &DownloadContext, drops: &[DownloadDrop]) -> (r: ChunkBody)
        ensures
            r.context@ == context.context@,
            r.files@.len() == drops@.len(),
            forall|i: int| 0 <= i < drops@.len() ==> {
                &&& #[trigger] r.files@[i].filename@ == drops@[i].filename@
                &&& r.files@[i].chunk_index == drops@[i].index
            },
    {
        let mut files: Vec<ChunkBodyFile> = Vec::new();
        let mut i: usize = 0;
        while i < drops.len()
            invariant
                i <= drops@.len(),
                files@.len() == i,
                forall|j: int| 0 <= j < i ==> {
                    &&& #[trigger] files@[j].filename@ == drops@[j].filename@
                    &&& files@[j].chunk_index == drops@[j].index
                },
            decreases drops@.len() - i,
        {
            files.push(ChunkBodyFile { filename: clone_string(&drops[i].filename), chunk_index: drops[i].index });
            i = i + 1;
        }
        ChunkBody { context: clone_string(&context.context), files }
    }
}

/// How one file of a game is cut up: per chunk a length and a checksum.
pub struct DropChunk {
    pub permissions: u32,
    pub ids: Vec<String>,
    pub checksums: Vec<String>,
    pub lengths: Vec<usize>,
    pub version_name: String,
}

/// What to check of one drop when validating an installed game.
pub struct DropValidateContext {
    pub index: usize,
    pub offset: usize,
    pub path: String,
    pub checksum: String,
    pub length: usize,
}

impl DropValidateContext {
    /// One validation context per drop of the bucket, in order.
    pub fn from_bucket(bucket: &DownloadBucket) -> (r: Vec<DropValidateContext>)
        ensures
            r@.len() == bucket.drops@.len(),
            forall|i: int| 0 <= i < r@.len() ==> {
                let d = #[trigger] bucket.drops@[i];
                &&& r@[i].index == d.index
                &&& r@[i].offset == d.start
                &&& r@[i].path@ == d.path@
                &&& r@[i].checksum@ == d.checksum@
                &&& r@[i].length == d.length
            },
    {
        let mut out: Vec<DropValidateContext> = Vec::new();
        let mut i: usize = 0;
        while i < bucket.drops.len()
            invariant
                i <= bucket.drops@.len(),
                out@.len() == i,
                forall|j: int| 0 <= j < i ==> {
                    let d = #[trigger] bucket.drops@[j];
                    &&& out@[j].index == d.index
                    &&& out@[j].offset == d.start
                    &&& out@[j].path@ == d.path@
                    &&& out@[j].checksum@ == d.checksum@
                    &&& out@[j].length == d.length
                },
            decreases bucket.drops@.len() - i,
        {
            let d = &bucket.drops[i];
            out.push(DropValidateContext {
                index: d.index,
                offset: d.start,
                path: clone_string(&d.path),
                checksum: clone_string(&d.checksum),
                length: d.length,
            });
            i = i + 1;
        }
        out
    }
}

} // verus!
