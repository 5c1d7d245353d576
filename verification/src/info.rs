//! What the repository records: transforms, manifests and info files.
use std::collections::BTreeMap;
use vstd::prelude::*;

use crate::config;
use crate::compress::helper;
use crate::compress::helper::{type_extension, CompressType};
use crate::text::text_eq;
use crate::textmap::TextMap;

verus! {

/// What a backup did to the bytes of a file before it stored them: compressed
/// them, then encrypted them where there is a key.
#[derive(Debug)]
pub struct RepoTransform {
    /// How the bytes were compressed.
    pub compress_type: CompressType,
    /// At which level.
    pub compress_level: i32,
    /// The key they were encrypted under.
    pub key: Option<String>,
}

/// The contents of a [`RepoTransform`].
pub struct TransformView {
    pub compress_type: CompressType,
    pub compress_level: i32,
    pub key: Option<Seq<char>>,
}

impl View for RepoTransform {
    type V = TransformView;

    open spec fn view(&self) -> TransformView {
        TransformView { compress_type: self.compress_type, compress_level: self.compress_level, key: config::opt_text(self.key) }
    }
}

/// A copy of an optional string.
pub fn copy_text(v: &Option<String>) -> (r: Option<String>)
    ensures
        config::opt_text(r) == config::opt_text(*v),
{
    match v {
        Some(s) => Some(s.clone()),
        None => None,
    }
}

impl RepoTransform {
    /// Bytes stored as they are.
    pub fn identity() -> (r: Self)
        ensures
            r@ == (TransformView { compress_type: CompressType::Uncompressed, compress_level: 0, key: None }),
    {
        RepoTransform { compress_type: CompressType::Uncompressed, compress_level: 0, key: None }
    }

    /// The compression given, under `key`.
    pub fn with_key(compress_type: CompressType, compress_level: i32, key: Option<String>) -> (r: Self)
        ensures
            r@ == (TransformView { compress_type, compress_level, key: config::opt_text(key) }),
    {
        RepoTransform { compress_type, compress_level, key }
    }

    /// A copy.
    pub fn copy(&self) -> (r: Self)
        ensures
            r@ == self@,
    {
        RepoTransform {
            compress_type: self.compress_type,
            compress_level: self.compress_level,
            key: copy_text(&self.key),
        }
    }

    /// The extension that the stored file's name carries.
    pub fn repo_suffix(&self) -> (r: &'static str)
        ensures
            r@ == helper::extension(self@.compress_type),
    {
        type_extension(self.compress_type)
    }
}

/// One block of a file that is stored block by block.
pub struct BlockRef {
    /// Label of the backup whose bundle holds the block.
    pub reference: String,
    /// That bundle's number.
    pub bundle_id: u64,
    /// Where in the bundle the block starts.
    pub offset: u64,
    /// How many stored bytes it takes.
    pub size: u64,
}

/// The contents of a [`BlockRef`].
pub struct BlockRefView {
    pub reference: Seq<char>,
    pub bundle_id: u64,
    pub offset: u64,
    pub size: u64,
}

impl View for BlockRef {
    type V = BlockRefView;

    open spec fn view(&self) -> BlockRefView {
        BlockRefView {
            reference: self.reference@,
            bundle_id: self.bundle_id,
            offset: self.offset,
            size: self.size,
        }
    }
}

/// The contents of a list of blocks.
pub open spec fn block_ref_views(v: Seq<BlockRef>) -> Seq<BlockRefView> {
    Seq::new(v.len(), |i: int| v[i]@)
}

/// The blocks of a file, in order.
pub struct BlockMap {
    pub blocks: Vec<BlockRef>,
}

/// A file that a backup recorded.
pub struct ManifestFile {
    /// Its path below the backup.
    pub path: String,
    /// Its plain size in bytes.
    pub size: u64,
    /// The SHA-1 of its plain bytes in lowercase hex; none for an empty file.
    pub checksum: Option<String>,
    /// Label of the backup that holds its bytes, where that is another one.
    pub reference: Option<String>,
    /// Its mode bits, where they were recorded.
    pub mode: Option<u32>,
    /// The bundle that its bytes are in, where they are in one.
    pub bundle_id: Option<u64>,
    /// Where in the bundle they start.
    pub bundle_offset: Option<u64>,
    /// Its blocks, where it is stored block by block.
    pub block_map: Option<BlockMap>,
}

/// The contents of a [`ManifestFile`].
pub struct FileView {
    pub path: Seq<char>,
    pub size: u64,
    pub checksum: Option<Seq<char>>,
    pub reference: Option<Seq<char>>,
    pub mode: Option<u32>,
    pub bundle_id: Option<u64>,
    pub bundle_offset: Option<u64>,
    pub blocks: Option<Seq<BlockRefView>>,
}

impl View for ManifestFile {
    type V = FileView;

    open spec fn view(&self) -> FileView {
        FileView {
            path: self.path@,
            size: self.size,
            checksum: config::opt_text(self.checksum),
            reference: config::opt_text(self.reference),
            mode: self.mode,
            bundle_id: self.bundle_id,
            bundle_offset: self.bundle_offset,
            blocks: match self.block_map {
                Some(map) => Some(block_ref_views(map.blocks@)),
                None => None,
            },
        }
    }
}

/// The contents of a list of files.
pub open spec fn file_views(v: Seq<ManifestFile>) -> Seq<FileView> {
    Seq::new(v.len(), |i: int| v[i]@)
}

/// A directory that a backup recorded.
pub struct ManifestPath {
    pub path: String,
}

/// A symbolic link that a backup recorded.
pub struct ManifestLink {
    /// Where the link stood.
    pub path: String,
    /// What it pointed at.
    pub destination: String,
}

/// The contents of a [`ManifestLink`].
pub struct LinkView {
    pub path: Seq<char>,
    pub destination: Seq<char>,
}

impl View for ManifestLink {
    type V = LinkView;

    open spec fn view(&self) -> LinkView {
        LinkView { path: self.path@, destination: self.destination@ }
    }
}

/// What a backup recorded of a cluster.
pub struct Manifest {
    /// The cluster's version, such as `14` or `9.6`.
    pub db_version: String,
    pub paths: Vec<ManifestPath>,
    pub files: Vec<ManifestFile>,
    pub links: Vec<ManifestLink>,
}

/// The contents of a [`Manifest`].
pub struct ManifestView {
    pub db_version: Seq<char>,
    pub paths: Seq<Seq<char>>,
    pub files: Seq<FileView>,
    pub links: Seq<LinkView>,
}

impl View for Manifest {
    type V = ManifestView;

    open spec fn view(&self) -> ManifestView {
        ManifestView {
            db_version: self.db_version@,
            paths: Seq::new(self.paths.len() as nat, |i: int| self.paths[i].path@),
            files: file_views(self.files@),
            links: Seq::new(self.links.len() as nat, |i: int| self.links[i]@),
        }
    }
}

/// The first place in `files` of a file with the path `path`.
pub open spec fn file_index(files: Seq<ManifestFile>, path: Seq<char>) -> Option<int>
    decreases files.len(),
{
    if files.len() == 0 {
        None
    } else {
        match file_index(files.drop_last(), path) {
            Some(i) => Some(i),
            None => if files.last().path@ == path {
                Some(files.len() - 1)
            } else {
                None
            },
        }
    }
}

impl Manifest {
    /// The place of the file with the path `path`.
    pub fn file(&self, path: &str) -> (r: Option<usize>)
        ensures
            match r {
                Some(i) => i < self.files.len() && file_index(self.files@, path@) == Some(i as int),
                None => file_index(self.files@, path@) is None,
            },
    {
        let mut i: usize = 0;
        while i < self.files.len()
            invariant
                i <= self.files.len(),
                file_index(self.files@.take(i as int), path@) is None,
            decreases self.files.len() - i,
        {
            proof {
                assert(self.files@.take(i as int + 1).drop_last() =~= self.files@.take(i as int));
            }
            if text_eq(self.files[i].path.as_str(), path) {
                proof {
                    lemma_file_index_kept(self.files@, path@, i as int + 1);
                }
                return Some(i);
            }
            i += 1;
        }
        assert(self.files@.take(i as int) =~= self.files@);
        None
    }
}

proof fn lemma_file_index_kept(files: Seq<ManifestFile>, path: Seq<char>, k: int)
    requires
        0 <= k <= files.len(),
        file_index(files.take(k), path) is Some,
    ensures
        file_index(files, path) == file_index(files.take(k), path),
    decreases files.len(),
{
    if k < files.len() {
        assert(files.drop_last().take(k) =~= files.take(k));
        lemma_file_index_kept(files.drop_last(), path, k);
    } else {
        assert(files.take(k) =~= files);
    }
}

/// A cluster in the history of a stanza.
#[derive(Debug, Clone, PartialEq, Eq)]
pub struct DbHistoryEntry {
    /// The cluster's system identifier.
    pub db_id: u64,
    /// Its version.
    pub db_version: String,
}

/// What `archive.info` records.
pub struct InfoArchive {
    pub backrest_format: u32,
    pub backrest_version: String,
    /// Number of the active cluster in the history.
    pub db_id: u32,
    /// Its system identifier.
    pub db_system_id: u64,
    /// Its version.
    pub db_version: String,
    /// The clusters the stanza has had, by their number.
    pub history: BTreeMap<u32, DbHistoryEntry>,
}

/// What `backup.info` records of one backup.
pub struct BackupEntry {
    /// The entry's metadata, as the JSON text that the file holds.
    pub metadata: String,
    /// The transform that the metadata records; its key, if any, comes from the
    /// options.
    pub transform: RepoTransform,
}

/// What `backup.info` records.
pub struct InfoBackup {
    pub backrest_format: u32,
    pub backrest_version: String,
    /// Number of the active cluster in the history.
    pub db_id: u32,
    /// Its system identifier.
    pub db_system_id: u64,
    /// Its version.
    pub db_version: String,
    pub db_catalog_version: u32,
    pub db_control_version: u32,
    /// The current backups, by label.
    pub current: TextMap<BackupEntry>,
    /// The clusters the stanza has had, by their number.
    pub history: BTreeMap<u32, DbHistoryEntry>,
}

/// What kind of thing is stored at a path.
#[derive(Debug, Clone, Copy, PartialEq, Eq, Structural)]
pub enum StorageKind {
    File,
    Path,
    Link,
    Special,
}

/// What the storage tells of a path.
pub struct StorageInfo {
    pub kind: StorageKind,
    pub size: u64,
    /// The absolute path.
    pub path: String,
}

/// The contents of a [`StorageInfo`].
pub struct StorageView {
    pub kind: StorageKind,
    pub size: u64,
    pub path: Seq<char>,
}

impl View for StorageInfo {
    type V = StorageView;

    open spec fn view(&self) -> StorageView {
        StorageView { kind: self.kind, size: self.size, path: self.path@ }
    }
}

/// Lists of files with the same contents agree file by file.
pub proof fn lemma_same_files(a: Seq<ManifestFile>, b: Seq<ManifestFile>)
    requires
        file_views(a) == file_views(b),
    ensures
        a.len() == b.len(),
        forall|i: int| 0 <= i < a.len() ==> (#[trigger] a[i])@ == b[i]@,
{
    assert(file_views(a).len() == a.len());
    assert(file_views(b).len() == b.len());
    assert forall|i: int| 0 <= i < a.len() implies (#[trigger] a[i])@ == b[i]@ by {
        assert(file_views(a)[i] == a[i]@);
        assert(file_views(b)[i] == b[i]@);
    }
}

/// Lists of blocks with the same contents agree block by block.
pub proof fn lemma_same_block_refs(a: Seq<BlockRef>, b: Seq<BlockRef>)
    requires
        block_ref_views(a) == block_ref_views(b),
    ensures
        a.len() == b.len(),
        forall|i: int| 0 <= i < a.len() ==> (#[trigger] a[i])@ == b[i]@,
{
    assert(block_ref_views(a).len() == a.len());
    assert(block_ref_views(b).len() == b.len());
    assert forall|i: int| 0 <= i < a.len() implies (#[trigger] a[i])@ == b[i]@ by {
        assert(block_ref_views(a)[i] == a[i]@);
        assert(block_ref_views(b)[i] == b[i]@);
    }
}

/// Files with the same contents are found at the same place.
pub proof fn lemma_same_index(a: Seq<ManifestFile>, b: Seq<ManifestFile>, path: Seq<char>)
    requires
        file_views(a) == file_views(b),
    ensures
        file_index(a, path) == file_index(b, path),
        file_index(a, path) matches Some(i) ==> 0 <= i < a.len(),
    decreases a.len(),
{
    lemma_same_files(a, b);
    if a.len() > 0 {
        assert(file_views(a.drop_last()) =~= file_views(a).drop_last());
        assert(file_views(b.drop_last()) =~= file_views(b).drop_last());
        lemma_same_index(a.drop_last(), b.drop_last(), path);
        assert(a[a.len() - 1]@ == b[a.len() - 1]@);
        assert(a.last()@.path == b.last()@.path);
    }
}

/// A file is found by its path: the first of that path in the manifest.
pub proof fn law_first_file_of_that_path(manifest: &Manifest, path: &str, r: Option<usize>)
    requires
        call_ensures(Manifest::file, (manifest, path), r),
    ensures
        match r {
            Some(i) => i < manifest.files.len() && manifest.files[i as int].path@ == path@ && forall|j: int|
                0 <= j < i ==> (#[trigger] manifest.files[j]).path@ != path@,
            None => forall|j: int| 0 <= j < manifest.files.len() ==> (#[trigger] manifest.files[j]).path@ != path@,
        },
{
    lemma_file_index(manifest.files@, path@);
}

proof fn lemma_file_index(files: Seq<ManifestFile>, path: Seq<char>)
    ensures
        match file_index(files, path) {
            Some(i) => 0 <= i < files.len() && files[i].path@ == path && forall|j: int|
                0 <= j < i ==> (#[trigger] files[j]).path@ != path,
            None => forall|j: int| 0 <= j < files.len() ==> (#[trigger] files[j]).path@ != path,
        },
    decreases files.len(),
{
    if files.len() > 0 {
        let front = files.drop_last();
        lemma_file_index(front, path);
        assert(forall|j: int| 0 <= j < front.len() ==> #[trigger] files[j] == front[j]);
    }
}

/// A transform keeps what it was made with, and its copies keep what it holds; stored as
/// they are means neither compressed nor encrypted.
pub proof fn law_transforms_keep_their_parts(
    kind: CompressType,
    level: i32,
    key: Option<String>,
    made: RepoTransform,
    copied: RepoTransform,
    plain: RepoTransform,
)
    requires
        call_ensures(RepoTransform::with_key, (kind, level, key), made),
        call_ensures(RepoTransform::copy, (&made,), copied),
        call_ensures(RepoTransform::identity, (), plain),
    ensures
        made.compress_type == kind && made.compress_level == level,
        config::opt_text(made.key) == config::opt_text(key),
        copied.compress_type == kind && copied.compress_level == level,
        config::opt_text(copied.key) == config::opt_text(key),
        plain.compress_type == CompressType::Uncompressed && plain.compress_level == 0 && plain.key is None,
{
    assert(made@ == (TransformView { compress_type: kind, compress_level: level, key: config::opt_text(key) }));
    assert(copied@ == made@);
    assert(plain@.key is None);
}

/// A copied text is the text; objects carry the extension of how they were compressed.
pub proof fn law_copied_text(v: &Option<String>, r: Option<String>, t: RepoTransform, suffix: &'static str, ext: &'static str)
    requires
        call_ensures(copy_text, (v,), r),
        call_ensures(RepoTransform::repo_suffix, (&t,), suffix),
        call_ensures(helper::type_extension, (t.compress_type,), ext),
    ensures
        r is Some <==> v is Some,
        r is Some ==> r.unwrap()@ == v.unwrap()@,
        suffix@ == ext@,
{
}

}
