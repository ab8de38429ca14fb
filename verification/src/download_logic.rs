//! Checks applied to a chunk response: the per-file lengths the server
//! announces, and the checksums of what was written.

use vstd::prelude::*;
use crate::codec::{hex_encode, hex_text, md5_compute, md5_digest, parse_bounded, parse_unsigned, split_char, split_on};
use crate::errors::{ApplicationDownloadError, DropServerError, RemoteAccessError};
use crate::manifest::DownloadDrop;
use crate::text::{same_text, views};

verus! {

/// A length field of the `Content-Lengths` header: its number, or 0 when it
/// does not parse.
pub open spec fn announced_length(piece: Seq<char>) -> int {
    match parse_unsigned(piece, usize::MAX as int) {
        Some(v) => v,
        None => 0,
    }
}

/// The announced lengths agree with the drops, field by field.
pub open spec fn lengths_agree(header: Seq<char>, drops: Seq<DownloadDrop>) -> bool {
    let pieces = split_on(header, ',');
    forall|i: int| 0 <= i < pieces.len() ==> i < drops.len() && #[trigger] announced_length(pieces[i]) == drops[i].length
}

/// The header does not announce more fields than there are drops, unless an
/// earlier field already disagrees.
pub open spec fn header_fits(header: Seq<char>, drops: Seq<DownloadDrop>) -> bool {
    let pieces = split_on(header, ',');
    pieces.len() <= drops.len() || exists|i: int| 0 <= i < drops.len() && #[trigger] announced_length(pieces[i]) != drops[i].length
}

/// Compares the `Content-Lengths` header of a chunk response with the drops
/// asked for; a mismatch is a download error.
pub fn check_content_lengths(header: &str, drops: &Vec<DownloadDrop>) -> (r: Result<(), ApplicationDownloadError>)
    requires
        header_fits(header@, drops@),
    ensures
        r is Ok <==> lengths_agree(header@, drops@),
        r is Err ==> r == Err::<(), ApplicationDownloadError>(ApplicationDownloadError::DownloadError),
{
    let pieces = split_char(header, ',');
    let ghost ps = split_on(header@, ',');
    let mut i: usize = 0;
    while i < pieces.len()
        invariant
            views(pieces@) == ps,
            ps == split_on(header@, ','),
            header_fits(header@, drops@),
            i <= pieces@.len(),
            forall|j: int| 0 <= j < i ==> j < drops@.len() && #[trigger] announced_length(ps[j]) == drops@[j].length,
        decreases pieces@.len() - i,
    {
        proof {
            assert(views(pieces@)[i as int] == pieces@[i as int]@);
        }
        let length: usize = match parse_bounded(pieces[i].as_str(), usize::MAX as u64) {
            Some(v) => v as usize,
            None => 0,
        };
        if i >= drops.len() {
            proof {
                assert(ps.len() > drops@.len());
                let k = choose|k: int| 0 <= k < drops@.len() && #[trigger] announced_length(ps[k]) != drops@[k].length;
                assert(announced_length(ps[k]) == drops@[k].length);
            }
            return Err(ApplicationDownloadError::DownloadError);
        }
        proof {
            assert(pieces@[i as int]@ == ps[i as int]);
            assert(length == announced_length(ps[i as int]));
        }
        if drops[i].length != length {
            proof {
                assert(!(announced_length(ps[i as int]) == drops@[i as int].length));
            }
            return Err(ApplicationDownloadError::DownloadError);
        }
        i = i + 1;
    }
    Ok(())
}

/// Whether a digest, written as lowercase hex, is the expected checksum.
pub fn chunk_matches(digest: &Vec<u8>, checksum: &String) -> (r: bool)
    ensures
        r == (hex_text(digest@) == checksum@),
{
    let text = hex_encode(digest.as_slice());
    same_text(text.as_str(), checksum.as_str())
}

/// Checks the digest of every written drop against its checksum.
pub fn verify_checksums(digests: &Vec<Vec<u8>>, drops: &Vec<DownloadDrop>) -> (r: Result<(), ApplicationDownloadError>)
    requires
        digests@.len() >= drops@.len(),
    ensures
        r is Ok <==> forall|i: int| 0 <= i < drops@.len() ==> hex_text(#[trigger] digests@[i]@) == drops@[i].checksum@,
        r is Err ==> r == Err::<(), ApplicationDownloadError>(ApplicationDownloadError::Checksum),
{
    let mut i: usize = 0;
    while i < drops.len()
        invariant
            digests@.len() >= drops@.len(),
            i <= drops@.len(),
            forall|j: int| 0 <= j < i ==> hex_text(#[trigger] digests@[j]@) == drops@[j].checksum@,
        decreases drops@.len() - i,
    {
        if !chunk_matches(&digests[i], &drops[i].checksum) {
            return Err(ApplicationDownloadError::Checksum);
        }
        i = i + 1;
    }
    Ok(())
}

/// The error of a chunk request the server refused: its error body when
/// that body reads as one, else the raw text.
pub fn chunk_response_error(raw: String, parsed: Option<DropServerError>) -> (r: ApplicationDownloadError)
    ensures
        match parsed {
            Some(e) => r == ApplicationDownloadError::Communication(RemoteAccessError::InvalidResponse(e)),
            None => r == ApplicationDownloadError::Communication(RemoteAccessError::UnparseableResponse(raw)),
        },
{
    match parsed {
        Some(e) => ApplicationDownloadError::Communication(RemoteAccessError::InvalidResponse(e)),
        None => ApplicationDownloadError::Communication(RemoteAccessError::UnparseableResponse(raw)),
    }
}

/// The error of a chunk response without a `Content-Lengths` header.
pub fn missing_lengths_error() -> (r: ApplicationDownloadError)
    ensures
        r matches ApplicationDownloadError::Communication(RemoteAccessError::UnparseableResponse(m))
            && m@ == "missing Content-Lengths header"@,
{
    ApplicationDownloadError::Communication(
        RemoteAccessError::UnparseableResponse(String::from_str("missing Content-Lengths header")),
    )
}

/// Whether bytes read back from disk are the chunk with this checksum: their
/// MD5, written as lowercase hex, is the checksum.
pub fn chunk_data_valid(data: &[u8], checksum: &str) -> (r: bool)
    ensures
        r == (hex_text(md5_digest(data@)) == checksum@),
{
    let digest = md5_compute(data);
    let text = hex_encode(digest.as_slice());
    same_text(text.as_str(), checksum)
}

/// What the download threads are told to do.
#[derive(PartialEq, Eq, Structural, Clone, Copy, Debug)]
pub enum DownloadThreadControlFlag {
    Stop,
    Go,
}

/// What a stopped bucket download or chunk validation reports: its progress
/// goes back to zero and the work counts as not completed.
pub struct StoppedStep {
    pub progress: usize,
    pub result: Result<bool, ApplicationDownloadError>,
}

/// The check a bucket download and a chunk validation start with: when the
/// threads are told to stop, the work ends at once with its progress reset
/// and `Ok(false)`; otherwise it goes on (`None`).
pub fn stop_check(flag: DownloadThreadControlFlag) -> (r: Option<StoppedStep>)
    ensures
        flag == DownloadThreadControlFlag::Stop ==> (r matches Some(s) && s.progress == 0
            && s.result == Ok::<bool, ApplicationDownloadError>(false)),
        flag == DownloadThreadControlFlag::Go ==> r is None,
{
    if flag == DownloadThreadControlFlag::Stop {
        Some(StoppedStep { progress: 0, result: Ok(false) })
    } else {
        None
    }
}

} // verus!
