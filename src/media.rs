//! Media attachments: their display names, the manifest that maps archive
//! entries to names, and the entries of the archive.

use vstd::prelude::*;
use vstd::string::StringSliceAdditionalSpecFns;
use crate::collection::bytes_of;
use crate::json::{
    decimal_of, index_decimal, json_quoted, object_of, pairs_view, quote, quoted_decimal_of,
    quoted_index, render_object,
};

verus! {

/// The archive entry that holds the collection database.
pub const DATABASE_ENTRY: &'static str = "collection.anki2";

/// The archive entry that holds the media manifest.
pub const MANIFEST_ENTRY: &'static str = "media";

/// The last component of a path, when it is a file name.
pub uninterp spec fn file_name_of(path: Seq<char>) -> Option<Seq<char>>;

/// Relies on std::path::Path::file_name: the final component of a path, or
/// none when the path ends in `..` or is a root or prefix. The component of
/// a `str` path is valid UTF-8, so the conversion loses nothing.
#[verifier::external_body]
fn file_name(path: &str) -> (r: Option<String>)
    ensures
        r matches Some(n) ==> file_name_of(path@) == Some(n@),
        r is None ==> file_name_of(path@) is None,
{
    match std::path::Path::new(path).file_name() {
        Some(n) => Some(n.to_string_lossy().into_owned()),
        None => None,
    }
}

/// Where the bytes of a media file come from.
#[derive(Debug, Clone)]
pub enum MediaSource {
    /// A file on disk, read when the archive is written.
    Path(String),
    /// Bytes held in memory.
    Bytes(Vec<u8>),
}

/// A media attachment and the name it is shown under.
#[derive(Debug, Clone)]
pub struct MediaFile {
    pub name: String,
    pub source: MediaSource,
}

/// What an archive entry holds.
#[derive(Debug, Clone, Copy, PartialEq, Eq, Structural)]
pub enum EntryContent {
    /// The finished collection database.
    Database,
    /// The media manifest.
    Manifest,
    /// The bytes of the media file at this index.
    Media(usize),
}

/// An archive entry: its name, and what it holds.
#[derive(Debug, Clone)]
pub struct ArchiveEntry {
    pub name: Vec<u8>,
    pub content: EntryContent,
}

/// The manifest members: each media file's index, as a string, and its name.
pub open spec fn manifest_members(ms: Seq<MediaFile>) -> Seq<(Seq<u8>, Seq<u8>)> {
    Seq::new(ms.len(), |i: int| (quoted_decimal_of(i), json_quoted(ms[i].name@)))
}

/// The media manifest: a JSON object from each index to the file's name.
pub open spec fn manifest_of(ms: Seq<MediaFile>) -> Seq<u8> {
    object_of(manifest_members(ms))
}

/// `es` are the archive entries for `n` media files, in writing order: the
/// database, the manifest, then each media file under its decimal index.
pub open spec fn are_archive_entries(es: Seq<ArchiveEntry>, n: int) -> bool {
    &&& es.len() == n + 2
    &&& es[0].name@ == DATABASE_ENTRY.spec_bytes()
    &&& es[0].content == EntryContent::Database
    &&& es[1].name@ == MANIFEST_ENTRY.spec_bytes()
    &&& es[1].content == EntryContent::Manifest
    &&& forall|i: int| 0 <= i < n ==> is_media_entry(#[trigger] es[i + 2], i)
}

/// `e` is the archive entry of the media file at index `i`.
pub open spec fn is_media_entry(e: ArchiveEntry, i: int) -> bool {
    e.name@ == decimal_of(i) && e.content == EntryContent::Media(i as usize)
}

impl MediaFile {
    /// The media file at `path`, shown under the path's file name; `None`
    /// when the path names no file.
    pub fn from_path(path: &str) -> (r: Option<MediaFile>)
        ensures
            r matches Some(m) ==> file_name_of(path@) == Some(m.name@) && (
            m.source matches MediaSource::Path(p) && p@ == path@),
            r is None <==> file_name_of(path@) is None,
    {
        match file_name(path) {
            Some(name) => Some(MediaFile { name, source: MediaSource::Path(path.to_owned()) }),
            None => None,
        }
    }

    /// Bytes held in memory, shown under `name`.
    pub fn from_bytes(name: &str, bytes: Vec<u8>) -> (r: MediaFile)
        ensures
            r.name@ == name@,
            r.source matches MediaSource::Bytes(b) && b@ == bytes@,
    {
        MediaFile { name: name.to_owned(), source: MediaSource::Bytes(bytes) }
    }
}

/// The manifest has one member per media file, and its keys are the names
/// of the numbered archive entries, in quotes, in the same order.
pub proof fn lemma_manifest_matches_entries(ms: Seq<MediaFile>, es: Seq<ArchiveEntry>)
    requires
        are_archive_entries(es, ms.len() as int),
    ensures
        manifest_members(ms).len() == ms.len(),
        es.len() == ms.len() + 2,
        forall|i: int|
            0 <= i < ms.len() ==> #[trigger] manifest_members(ms)[i].0 == seq![34u8] + es[i
                + 2].name@ + seq![34u8] && es[i + 2].content == EntryContent::Media(i as usize),
{
    assert forall|i: int| 0 <= i < ms.len() implies #[trigger] manifest_members(ms)[i].0 == seq![
        34u8,
    ] + es[i + 2].name@ + seq![34u8] && es[i + 2].content == EntryContent::Media(i as usize) by {
        assert(is_media_entry(es[i + 2], i));
    }
}

/// The media manifest of `ms`.
pub fn media_manifest(ms: &Vec<MediaFile>) -> (r: Vec<u8>)
    ensures
        r@ == manifest_of(ms@),
{
    let mut es: Vec<(Vec<u8>, Vec<u8>)> = Vec::new();
    let mut i: usize = 0;
    while i < ms.len()
        invariant
            i <= ms@.len(),
            pairs_view(es@) == manifest_members(ms@.take(i as int)),
        decreases ms@.len() - i,
    {
        let k = quoted_index(i);
        let v = quote(ms[i].name.as_str());
        let ghost before = es@;
        es.push((k, v));
        proof {
            assert(pairs_view(es@) =~= pairs_view(before).push((k@, v@)));
            assert(manifest_members(ms@.take(i + 1)) =~= manifest_members(ms@.take(i as int)).push(
                (quoted_decimal_of(i as int), json_quoted(ms@[i as int].name@)),
            ));
        }
        i = i + 1;
    }
    assert(ms@.take(ms@.len() as int) =~= ms@);
    render_object(&es)
}

/// The archive entries for `n` media files, in writing order.
pub fn archive_entries(n: usize) -> (r: Vec<ArchiveEntry>)
    ensures
        are_archive_entries(r@, n as int),
{
    let mut r: Vec<ArchiveEntry> = Vec::new();
    r.push(ArchiveEntry { name: bytes_of(DATABASE_ENTRY), content: EntryContent::Database });
    r.push(ArchiveEntry { name: bytes_of(MANIFEST_ENTRY), content: EntryContent::Manifest });
    let mut i: usize = 0;
    while i < n
        invariant
            i <= n,
            r@.len() == i + 2,
            r@[0].name@ == DATABASE_ENTRY.spec_bytes(),
            r@[0].content == EntryContent::Database,
            r@[1].name@ == MANIFEST_ENTRY.spec_bytes(),
            r@[1].content == EntryContent::Manifest,
            forall|j: int| 0 <= j < i ==> is_media_entry(#[trigger] r@[j + 2], j),
        decreases n - i,
    {
        let ghost prev = r@;
        r.push(ArchiveEntry { name: index_decimal(i), content: EntryContent::Media(i) });
        assert(is_media_entry(r@[i + 2], i as int));
        assert forall|j: int| 0 <= j < i + 1 implies is_media_entry(#[trigger] r@[j + 2], j) by {
            if j < i {
                assert(r@[j + 2] == prev[j + 2]);
            }
        }
        i = i + 1;
    }
    r
}

} // verus!
