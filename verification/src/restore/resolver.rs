//! Where the bytes of a recorded file lie in the repository.
use vstd::prelude::*;

use crate::compress::helper;
use crate::restore::bundle;
use crate::paths;
use crate::info;
use crate::config;
use crate::config::{CommandError, StorageError};
use crate::info::{
    copy_text, BlockMap, BlockRef, InfoBackup, Manifest, ManifestFile, ManifestView, RepoTransform, StorageInfo, StorageView,
    TransformView,
};
use crate::paths::{backup_file_path, bundle_object_path, manifest_path};
use crate::restore::bundle::bundle_layout;
use crate::text::text_eq;
use crate::textmap::TextMap;

verus! {

/// One block of a file that is put together from blocks.
pub struct BlockSource {
    /// Where the bundle can be read on this host.
    pub abs_bundle: String,
    /// Where the bundle lies in the repository.
    pub repo_bundle: String,
    /// Where the block's stored bytes start in it.
    pub offset: u64,
    /// How many there are.
    pub len: u64,
    /// What was done to them.
    pub transform: RepoTransform,
}

/// How a file's plain bytes are obtained.
pub enum RestoreSource {
    /// From an object of its own.
    Standalone { abs_src: String, repo_src: String, transform: RepoTransform },
    /// From a part of a bundle.
    Bundled { abs_bundle: String, repo_bundle: String, offset: u64, len: u64, transform: RepoTransform },
    /// From blocks, one after the other.
    Blocks(Vec<BlockSource>),
}

/// The contents of a [`BlockSource`].
pub struct BlockView {
    pub abs: Seq<char>,
    pub repo: Seq<char>,
    pub offset: u64,
    pub len: u64,
    pub transform: TransformView,
}

/// The contents of a [`RestoreSource`].
pub enum SourceView {
    Standalone { abs: Seq<char>, repo: Seq<char>, transform: TransformView },
    Bundled { abs: Seq<char>, repo: Seq<char>, offset: u64, len: u64, transform: TransformView },
    Blocks(Seq<BlockView>),
}

impl View for BlockSource {
    type V = BlockView;

    open spec fn view(&self) -> BlockView {
        BlockView {
            abs: self.abs_bundle@,
            repo: self.repo_bundle@,
            offset: self.offset,
            len: self.len,
            transform: self.transform@,
        }
    }
}

/// The contents of a list of blocks.
pub open spec fn block_views(v: Seq<BlockSource>) -> Seq<BlockView> {
    Seq::new(v.len(), |i: int| v[i]@)
}

impl View for RestoreSource {
    type V = SourceView;

    open spec fn view(&self) -> SourceView {
        match *self {
            RestoreSource::Standalone { abs_src, repo_src, transform } => SourceView::Standalone {
                abs: abs_src@,
                repo: repo_src@,
                transform: transform@,
            },
            RestoreSource::Bundled { abs_bundle, repo_bundle, offset, len, transform } => SourceView::Bundled {
                abs: abs_bundle@,
                repo: repo_bundle@,
                offset,
                len,
                transform: transform@,
            },
            RestoreSource::Blocks(blocks) => SourceView::Blocks(block_views(blocks@)),
        }
    }
}

/// What is to be found out before a file's source is known, or the source.
pub enum Resolution {
    /// The manifest of the backup `label`, which lies at `path`.
    NeedManifest { label: String, path: String },
    /// What the repository tells of `path`.
    NeedInfo { path: String },
    /// The source.
    Found(RestoreSource),
}

/// The contents of a [`Resolution`].
pub enum ResolutionView {
    NeedManifest { label: Seq<char>, path: Seq<char> },
    NeedInfo { path: Seq<char> },
    Found(SourceView),
}

impl View for Resolution {
    type V = ResolutionView;

    open spec fn view(&self) -> ResolutionView {
        match *self {
            Resolution::NeedManifest { label, path } => ResolutionView::NeedManifest { label: label@, path: path@ },
            Resolution::NeedInfo { path } => ResolutionView::NeedInfo { path: path@ },
            Resolution::Found(source) => ResolutionView::Found(source@),
        }
    }
}

/// A transform under another key.
pub open spec fn keyed(t: TransformView, key: Option<Seq<char>>) -> TransformView {
    TransformView { compress_type: t.compress_type, compress_level: t.compress_level, key }
}

/// The transform that a backup's metadata records, under the repository's key.
pub fn restore_transform(recorded: &RepoTransform, sub_key: &Option<String>) -> (r: RepoTransform)
    ensures
        r@ == keyed(recorded@, config::opt_text(*sub_key)),
{
    RepoTransform::with_key(recorded.compress_type, recorded.compress_level, copy_text(sub_key))
}

/// Finds the sources of the files of one backup. It remembers what it was told of
/// other backups' manifests and of objects of the repository.
pub struct SourceResolver {
    pub stanza: String,
    /// The backup that is restored.
    pub label: String,
    /// What it did to its files.
    pub transform: RepoTransform,
    pub manifest: Manifest,
    pub info: InfoBackup,
    /// The repository's key, where it is encrypted.
    pub sub_key: Option<String>,
    /// Whether the repository can be read on this host.
    pub local: bool,
    /// The manifests of other backups, by label.
    pub manifests: TextMap<Manifest>,
    /// What the repository told, by path.
    pub infos: TextMap<StorageInfo>,
}

/// The label of the backup that holds a file's bytes.
pub open spec fn holder_of(file: ManifestFile, label: Seq<char>) -> Seq<char> {
    match config::opt_text(file.reference) {
        Some(reference) => reference,
        None => label,
    }
}

/// The entry of `file` in the manifest of the backup that holds it; its own where
/// that manifest lists no such file.
pub open spec fn entry_in(holder: Manifest, file: ManifestFile) -> ManifestFile {
    match info::file_index(holder.files@, file.path@) {
        Some(i) => holder.files[i],
        None => file,
    }
}

impl SourceResolver {
    /// What the backup `holder` did to its files: what was recorded of it, under the
    /// repository's key; where nothing was, what the restored backup did.
    pub open spec fn transform_of(self, holder: Seq<char>) -> TransformView {
        if holder == self.label@ {
            self.transform@
        } else {
            match self.info.current.lookup(holder) {
                Some(entry) => keyed(entry.transform@, config::opt_text(self.sub_key)),
                None => self.transform@,
            }
        }
    }

    /// Where an object can be read on this host; the path in the repository where it
    /// cannot be.
    pub open spec fn abs_of(self, path: Seq<char>) -> Seq<char> {
        if self.local {
            match self.infos.lookup(path) {
                Some(i) => i.path@,
                None => path,
            }
        } else {
            path
        }
    }

    /// The first of the bundles of `blocks` from place `i` on that nothing is known of,
    /// where something must be.
    pub open spec fn unknown_bundle(self, blocks: Seq<BlockRef>, i: int) -> Option<Seq<char>>
        decreases blocks.len() - i,
    {
        if !self.local || i < 0 || i >= blocks.len() {
            None
        } else {
            let path = paths::bundle_at(self.stanza@, blocks[i].reference@, blocks[i].bundle_id);
            if self.infos.lookup(path) is None {
                Some(path)
            } else {
                self.unknown_bundle(blocks, i + 1)
            }
        }
    }

    /// The source of one block.
    pub open spec fn block_source(self, block: BlockRef) -> BlockView {
        let path = paths::bundle_at(self.stanza@, block.reference@, block.bundle_id);
        BlockView {
            abs: self.abs_of(path),
            repo: path,
            offset: block.offset,
            len: block.size,
            transform: self.transform_of(block.reference@),
        }
    }

    /// The source of a file that is stored block by block.
    pub open spec fn blocks_resolution(self, blocks: Seq<BlockRef>) -> ResolutionView {
        match self.unknown_bundle(blocks, 0) {
            Some(path) => ResolutionView::NeedInfo { path },
            None => ResolutionView::Found(
                SourceView::Blocks(Seq::new(blocks.len(), |i: int| self.block_source(blocks[i]))),
            ),
        }
    }

    /// The files of the manifest of the backup `holder`.
    pub open spec fn files_of(self, holder: Seq<char>) -> Seq<ManifestFile> {
        if holder == self.label@ {
            self.manifest.files@
        } else {
            match self.manifests.lookup(holder) {
                Some(m) => m.files@,
                None => Seq::<ManifestFile>::empty(),
            }
        }
    }

    /// The source of a file whose bytes `holder` stores under the entry `entry`.
    pub open spec fn whole_resolution(self, file: ManifestFile, holder: Seq<char>, entry: ManifestFile) -> ResolutionView {
        let transform = self.transform_of(holder);
        match (entry.bundle_id, entry.bundle_offset) {
            (Some(id), Some(offset)) => {
                let path = paths::bundle_at(self.stanza@, holder, id);
                match self.infos.lookup(path) {
                    None => ResolutionView::NeedInfo { path },
                    Some(i) => ResolutionView::Found(
                        SourceView::Bundled {
                            abs: self.abs_of(path),
                            repo: path,
                            offset,
                            len: bundle::span(bundle::members(self.files_of(holder), holder, id), offset, i.size),
                            transform,
                        },
                    ),
                }
            },
            _ => {
                let path = paths::backup_file_at(self.stanza@, holder, file.path@ + helper::extension(transform.compress_type));
                if self.local && self.infos.lookup(path) is None {
                    ResolutionView::NeedInfo { path }
                } else {
                    ResolutionView::Found(SourceView::Standalone { abs: self.abs_of(path), repo: path, transform })
                }
            },
        }
    }

    /// Where the bytes of `file` lie, or what is to be found out first: a file that is
    /// stored block by block says so itself or in the backup that holds it; any other
    /// lies there in a bundle or by itself.
    pub open spec fn resolution(self, file: ManifestFile) -> ResolutionView {
        let holder = holder_of(file, self.label@);
        if file.block_map is Some {
            self.blocks_resolution(file.block_map.unwrap().blocks@)
        } else if file.reference is Some && self.manifests.lookup(holder) is None {
            ResolutionView::NeedManifest { label: holder, path: paths::manifest_at(self.stanza@, holder) }
        } else {
            let entry = if file.reference is Some {
                entry_in(self.manifests.lookup(holder).unwrap(), file)
            } else {
                file
            };
            if entry.block_map is Some {
                self.blocks_resolution(entry.block_map.unwrap().blocks@)
            } else {
                self.whole_resolution(file, holder, entry)
            }
        }
    }

    /// A resolver that was told nothing yet.
    pub fn new(
        stanza: String,
        label: String,
        transform: RepoTransform,
        manifest: Manifest,
        info: InfoBackup,
        sub_key: Option<String>,
        local: bool,
    ) -> (r: Self)
        ensures
            r.stanza == stanza,
            r.label == label,
            r.transform == transform,
            r.manifest == manifest,
            r.info == info,
            r.sub_key == sub_key,
            r.local == local,
            r.manifests.keys().len() == 0,
            r.infos.keys().len() == 0,
    {
        SourceResolver {
            stanza,
            label,
            transform,
            manifest,
            info,
            sub_key,
            local,
            manifests: TextMap::new(),
            infos: TextMap::new(),
        }
    }

    /// What the backup `holder` did to its files.
    pub fn holder_transform(&self, holder: &str) -> (r: RepoTransform)
        ensures
            r@ == self.transform_of(holder@),
    {
        if text_eq(holder, self.label.as_str()) {
            return self.transform.copy();
        }
        match self.info.current.get(holder) {
            Some(entry) => restore_transform(&entry.transform, &self.sub_key),
            None => self.transform.copy(),
        }
    }

    /// Remembers the manifest of the backup `label`.
    pub fn add_manifest(&mut self, label: String, manifest: Manifest)
        ensures
            final(self).manifests.lookup(label@) == Some(manifest),
            forall|other: Seq<char>|
                other != label@ ==> #[trigger] final(self).manifests.lookup(other) == old(self).manifests.lookup(other),
            final(self).same_backup(*old(self)),
            final(self).infos == old(self).infos,
    {
        let mut known: TextMap<Manifest> = TextMap::new();
        std::mem::swap(&mut known, &mut self.manifests);
        self.manifests = known.insert(label, manifest);
    }

    /// Remembers what the repository told of `path`.
    pub fn add_info(&mut self, path: String, info: StorageInfo)
        ensures
            final(self).infos.lookup(path@) == Some(info),
            forall|other: Seq<char>|
                other != path@ ==> #[trigger] final(self).infos.lookup(other) == old(self).infos.lookup(other),
            final(self).same_backup(*old(self)),
            final(self).manifests == old(self).manifests,
    {
        let mut known: TextMap<StorageInfo> = TextMap::new();
        std::mem::swap(&mut known, &mut self.infos);
        self.infos = known.insert(path, info);
    }

    /// Whether two resolvers serve the same backup of the same repository.
    pub open spec fn same_backup(self, other: Self) -> bool {
        &&& self.stanza == other.stanza
        &&& self.label == other.label
        &&& self.transform == other.transform
        &&& self.manifest == other.manifest
        &&& self.info == other.info
        &&& self.sub_key == other.sub_key
        &&& self.local == other.local
    }

    fn abs_path(&self, path: &str) -> (r: String)
        ensures
            r@ == self.abs_of(path@),
    {
        if self.local {
            if let Some(i) = self.infos.get(path) {
                return i.path.clone();
            }
        }
        path.to_owned()
    }

    /// The source of a file that is stored block by block.
    pub fn resolve_block_map(&self, block_map: &BlockMap) -> (r: Resolution)
        ensures
            r@ == self.blocks_resolution(block_map.blocks@),
    {
        let n: usize = block_map.blocks.len();
        let mut out: Vec<BlockSource> = Vec::new();
        let mut i: usize = 0;
        let ghost blocks = block_map.blocks@;
        while i < n
            invariant
                i <= n,
                n == block_map.blocks.len(),
                blocks == block_map.blocks@,
                self.unknown_bundle(blocks, 0) == self.unknown_bundle(blocks, i as int),
                out.len() == i,
                forall|k: int| 0 <= k < i ==> #[trigger] block_views(out@)[k] == self.block_source(blocks[k]),
            decreases n - i,
        {
            let block = &block_map.blocks[i];
            let path = bundle_object_path(self.stanza.as_str(), block.reference.as_str(), block.bundle_id);
            if self.local && self.infos.get(path.as_str()).is_none() {
                return Resolution::NeedInfo { path };
            }
            let ghost before = block_views(out@);
            out.push(
                BlockSource {
                    abs_bundle: self.abs_path(path.as_str()),
                    repo_bundle: path,
                    offset: block.offset,
                    len: block.size,
                    transform: self.holder_transform(block.reference.as_str()),
                },
            );
            proof {
                assert forall|k: int| 0 <= k < i + 1 implies #[trigger] block_views(out@)[k] == self.block_source(
                    blocks[k],
                ) by {
                    if k < i {
                        assert(block_views(out@)[k] == before[k]);
                    }
                }
            }
            i += 1;
        }
        assert(block_views(out@) =~= Seq::new(blocks.len(), |k: int| self.block_source(blocks[k])));
        Resolution::Found(RestoreSource::Blocks(out))
    }

    fn resolve_whole(&self, file: &ManifestFile, holder: &str, entry: &ManifestFile, holder_manifest: &Manifest) -> (r: Resolution)
        requires
            holder_manifest.files@ == self.files_of(holder@),
        ensures
            r@ == self.whole_resolution(*file, holder@, *entry),
    {
        let transform = self.holder_transform(holder);
        if let (Some(id), Some(offset)) = (entry.bundle_id, entry.bundle_offset) {
            let path = bundle_object_path(self.stanza.as_str(), holder, id);
            match self.infos.get(path.as_str()) {
                None => Resolution::NeedInfo { path },
                Some(i) => {
                    let layout = bundle_layout(holder_manifest, holder, id, i.size);
                    let len: u64 = layout.member_len(offset);
                    let abs_bundle = self.abs_path(path.as_str());
                    Resolution::Found(RestoreSource::Bundled { abs_bundle, repo_bundle: path, offset, len, transform })
                },
            }
        } else {
            let mut name = file.path.clone();
            name.append(transform.repo_suffix());
            let path = backup_file_path(self.stanza.as_str(), holder, name.as_str());
            if self.local && self.infos.get(path.as_str()).is_none() {
                Resolution::NeedInfo { path }
            } else {
                let abs_src = self.abs_path(path.as_str());
                Resolution::Found(RestoreSource::Standalone { abs_src, repo_src: path, transform })
            }
        }
    }

    /// Where the bytes of `file` lie, or what is to be found out first.
    pub fn resolve(&self, file: &ManifestFile) -> (r: Resolution)
        ensures
            r@ == self.resolution(*file),
    {
        if let Some(block_map) = &file.block_map {
            return self.resolve_block_map(block_map);
        }
        match &file.reference {
            None => self.resolve_whole(file, self.label.as_str(), file, &self.manifest),
            Some(reference) => {
                let holder_manifest = match self.manifests.get(reference.as_str()) {
                    Some(m) => m,
                    None => return Resolution::NeedManifest {
                        label: reference.clone(),
                        path: manifest_path(self.stanza.as_str(), reference.as_str()),
                    },
                };
                let entry = match holder_manifest.file(file.path.as_str()) {
                    Some(i) => &holder_manifest.files[i],
                    None => file,
                };
                if let Some(block_map) = &entry.block_map {
                    return self.resolve_block_map(block_map);
                }
                if text_eq(reference.as_str(), self.label.as_str()) {
                    self.resolve_whole(file, reference.as_str(), entry, &self.manifest)
                } else {
                    self.resolve_whole(file, reference.as_str(), entry, holder_manifest)
                }
            },
        }
    }
}

/// How loading an info file or a manifest failed.
#[derive(Debug, Clone, PartialEq, Eq)]
pub enum LoadError {
    /// It is not there.
    NotFound,
    /// For another reason, with its message.
    Unusable(String),
}

/// The command's error for a file at `path` that could not be loaded.
pub fn load_error(err: LoadError, path: String) -> (r: CommandError)
    ensures
        match err {
            LoadError::NotFound => r.is_not_found(path@),
            LoadError::Unusable(m) => r.is_other(m@),
        },
{
    match err {
        LoadError::NotFound => CommandError::Storage(StorageError::NotFound { path }),
        LoadError::Unusable(m) => CommandError::Other(m),
    }
}

/// What was asked for and told is not asked for again.
pub proof fn law_answers_are_used(before: SourceResolver, after: SourceResolver, file: ManifestFile)
    requires
        after.same_backup(before),
        match before.resolution(file) {
            ResolutionView::NeedManifest { label, path } => after.manifests.lookup(label) is Some,
            ResolutionView::NeedInfo { path } => after.infos.lookup(path) is Some,
            ResolutionView::Found(s) => false,
        },
    ensures
        after.resolution(file) != before.resolution(file),
{
    assert forall|blocks: Seq<BlockRef>, i: int|
        (#[trigger] after.unknown_bundle(blocks, i) matches Some(p) ==> after.infos.lookup(p) is None) by {
        lemma_unknown(after, blocks, i);
    }
}

/// Only what is not known yet is asked for.
pub proof fn law_asks_for_what_is_unknown(r: SourceResolver, file: ManifestFile)
    ensures
        match r.resolution(file) {
            ResolutionView::NeedManifest { label, path } => r.manifests.lookup(label) is None,
            ResolutionView::NeedInfo { path } => r.infos.lookup(path) is None,
            ResolutionView::Found(s) => true,
        },
{
    assert forall|blocks: Seq<BlockRef>, i: int|
        (#[trigger] r.unknown_bundle(blocks, i) matches Some(p) ==> r.infos.lookup(p) is None) by {
        lemma_unknown(r, blocks, i);
    }
}

proof fn lemma_unknown(r: SourceResolver, blocks: Seq<BlockRef>, i: int)
    ensures
        r.unknown_bundle(blocks, i) matches Some(p) ==> r.infos.lookup(p) is None,
    decreases blocks.len() - i,
{
    if r.local && 0 <= i < blocks.len() {
        lemma_unknown(r, blocks, i + 1);
    }
}

/// A file without a reference that stands by itself is found in the restored backup
/// itself, under the restored backup's transform, once the repository was asked for
/// its place where it can be read on this host.
pub proof fn law_own_file_own_backup(r: SourceResolver, file: ManifestFile)
    requires
        file.reference is None,
        file.block_map is None,
        file.bundle_id is None || file.bundle_offset is None,
    ensures
        ({
            let path = paths::backup_file_at(r.stanza@, r.label@, file.path@ + helper::extension(r.transform@.compress_type));
            match r.resolution(file) {
                ResolutionView::NeedManifest { .. } => false,
                ResolutionView::NeedInfo { path: p } => r.local && p == path,
                ResolutionView::Found(s) => s == (SourceView::Standalone {
                    abs: r.abs_of(path),
                    repo: path,
                    transform: r.transform@,
                }),
            }
        }),
{
}

/// What `backup.info` records of what the backup `label` did to its files.
pub open spec fn recorded_transform(info: InfoBackup, label: Seq<char>) -> Option<TransformView> {
    match info.current.lookup(label) {
        Some(entry) => Some(entry.transform@),
        None => None,
    }
}

/// The contents of an optional manifest.
pub open spec fn manifest_told(v: Option<Manifest>) -> Option<ManifestView> {
    match v {
        Some(m) => Some(m@),
        None => None,
    }
}

/// The contents of what the repository may have told.
pub open spec fn info_told(v: Option<StorageInfo>) -> Option<StorageView> {
    match v {
        Some(i) => Some(i@),
        None => None,
    }
}

/// Whether two resolvers know the same of the same backup.
pub open spec fn knows_the_same(a: SourceResolver, b: SourceResolver) -> bool {
    &&& a.stanza@ == b.stanza@
    &&& a.label@ == b.label@
    &&& a.transform@ == b.transform@
    &&& a.manifest@ == b.manifest@
    &&& config::opt_text(a.sub_key) == config::opt_text(b.sub_key)
    &&& a.local == b.local
    &&& forall|k: Seq<char>| #[trigger] recorded_transform(a.info, k) == recorded_transform(b.info, k)
    &&& forall|k: Seq<char>| manifest_told(#[trigger] a.manifests.lookup(k)) == manifest_told(b.manifests.lookup(k))
    &&& forall|k: Seq<char>| info_told(#[trigger] a.infos.lookup(k)) == info_told(b.infos.lookup(k))
}

/// Where the bytes of a file lie depends on what is known and recorded alone, not on
/// where that is held: resolvers that know the same find the same source.
pub proof fn law_same_knowledge_same_source(a: SourceResolver, b: SourceResolver, file: ManifestFile, other: ManifestFile)
    requires
        knows_the_same(a, b),
        file@ == other@,
    ensures
        a.resolution(file) == b.resolution(other),
{
    let holder = holder_of(file, a.label@);
    assert(file.reference is Some <==> file@.reference is Some);
    assert(other.reference is Some <==> other@.reference is Some);
    assert(holder == holder_of(other, b.label@));
    assert(file.block_map is Some <==> file@.blocks is Some);
    assert(other.block_map is Some <==> other@.blocks is Some);
    if file.block_map is Some {
        lemma_same_blocks(a, b, file.block_map.unwrap().blocks@, other.block_map.unwrap().blocks@);
    } else {
        let mine = a.manifests.lookup(holder);
        let yours = b.manifests.lookup(holder);
        assert(manifest_told(mine) == manifest_told(yours));
        if file.reference is None || mine is Some {
            let entry = if file.reference is Some {
                entry_in(mine.unwrap(), file)
            } else {
                file
            };
            let twin = if file.reference is Some {
                entry_in(yours.unwrap(), other)
            } else {
                other
            };
            if file.reference is Some {
                let x = mine.unwrap().files@;
                let y = yours.unwrap().files@;
                assert(info::file_views(x) == info::file_views(y));
                info::lemma_same_index(x, y, file.path@);
                if let Some(i) = info::file_index(x, file.path@) {
                    info::lemma_same_files(x, y);
                    assert(x[i]@ == y[i]@);
                }
            }
            assert(entry@ == twin@);
            assert(entry.block_map is Some <==> entry@.blocks is Some);
            assert(twin.block_map is Some <==> twin@.blocks is Some);
            if entry.block_map is Some {
                lemma_same_blocks(a, b, entry.block_map.unwrap().blocks@, twin.block_map.unwrap().blocks@);
            } else {
                lemma_same_whole(a, b, file, other, holder, entry, twin);
            }
        }
    }
}

proof fn lemma_same_transform(a: SourceResolver, b: SourceResolver, holder: Seq<char>)
    requires
        knows_the_same(a, b),
    ensures
        a.transform_of(holder) == b.transform_of(holder),
{
    assert(recorded_transform(a.info, holder) == recorded_transform(b.info, holder));
}

proof fn lemma_same_place(a: SourceResolver, b: SourceResolver, path: Seq<char>)
    requires
        knows_the_same(a, b),
    ensures
        a.abs_of(path) == b.abs_of(path),
        a.infos.lookup(path) is None <==> b.infos.lookup(path) is None,
        a.infos.lookup(path) matches Some(i) ==> b.infos.lookup(path).unwrap().size == i.size,
{
    assert(info_told(a.infos.lookup(path)) == info_told(b.infos.lookup(path)));
}

proof fn lemma_same_whole(
    a: SourceResolver,
    b: SourceResolver,
    file: ManifestFile,
    other: ManifestFile,
    holder: Seq<char>,
    entry: ManifestFile,
    twin: ManifestFile,
)
    requires
        knows_the_same(a, b),
        file@ == other@,
        entry@ == twin@,
    ensures
        a.whole_resolution(file, holder, entry) == b.whole_resolution(other, holder, twin),
{
    lemma_same_transform(a, b, holder);
    assert(entry.bundle_id == entry@.bundle_id && entry.bundle_offset == entry@.bundle_offset);
    assert(twin.bundle_id == twin@.bundle_id && twin.bundle_offset == twin@.bundle_offset);
    if entry.bundle_id is Some && entry.bundle_offset is Some {
        let id = entry.bundle_id.unwrap();
        lemma_same_place(a, b, paths::bundle_at(a.stanza@, holder, id));
        let x = a.files_of(holder);
        let y = b.files_of(holder);
        assert(manifest_told(a.manifests.lookup(holder)) == manifest_told(b.manifests.lookup(holder)));
        assert(a.manifest@.files == b.manifest@.files);
        assert(info::file_views(x) =~= info::file_views(y));
        bundle::lemma_same_members(x, y, holder, id);
    } else {
        let path = paths::backup_file_at(a.stanza@, holder, file.path@ + helper::extension(a.transform_of(holder).compress_type));
        assert(file@.path == other@.path);
        lemma_same_place(a, b, path);
    }
}

proof fn lemma_same_unknown(a: SourceResolver, b: SourceResolver, x: Seq<BlockRef>, y: Seq<BlockRef>, i: int)
    requires
        knows_the_same(a, b),
        info::block_ref_views(x) == info::block_ref_views(y),
        0 <= i,
    ensures
        a.unknown_bundle(x, i) == b.unknown_bundle(y, i),
    decreases x.len() - i,
{
    info::lemma_same_block_refs(x, y);
    if i < x.len() {
        assert(x[i]@ == y[i]@);
        assert(x[i]@.reference == y[i]@.reference && x[i]@.bundle_id == y[i]@.bundle_id);
        lemma_same_place(a, b, paths::bundle_at(a.stanza@, x[i].reference@, x[i].bundle_id));
        lemma_same_unknown(a, b, x, y, i + 1);
    }
}

proof fn lemma_same_blocks(a: SourceResolver, b: SourceResolver, x: Seq<BlockRef>, y: Seq<BlockRef>)
    requires
        knows_the_same(a, b),
        info::block_ref_views(x) == info::block_ref_views(y),
    ensures
        a.blocks_resolution(x) == b.blocks_resolution(y),
{
    lemma_same_unknown(a, b, x, y, 0);
    info::lemma_same_block_refs(x, y);
    let mine = Seq::new(x.len(), |i: int| a.block_source(x[i]));
    let yours = Seq::new(y.len(), |i: int| b.block_source(y[i]));
    assert forall|i: int| 0 <= i < mine.len() implies mine[i] == yours[i] by {
        assert(x[i]@ == y[i]@);
        assert(x[i]@.reference == y[i]@.reference && x[i]@.bundle_id == y[i]@.bundle_id);
        assert(x[i]@.offset == y[i]@.offset && x[i]@.size == y[i]@.size);
        lemma_same_place(a, b, paths::bundle_at(a.stanza@, x[i].reference@, x[i].bundle_id));
        lemma_same_transform(a, b, x[i].reference@);
    }
    assert(mine =~= yours);
}

/// Every source of a file is read under the repository's key, whichever backup holds the
/// bytes, once the restored backup's own files are: of a file's own object, of its part of
/// a bundle and of each of its blocks.
pub proof fn law_every_source_is_keyed(r: &SourceResolver, file: &ManifestFile, found: Resolution)
    requires
        config::opt_text(r.transform.key) == config::opt_text(r.sub_key),
        call_ensures(SourceResolver::resolve, (r, file), found),
    ensures
        match found {
            Resolution::Found(RestoreSource::Standalone { transform, .. }) => config::opt_text(transform.key) == config::opt_text(
                r.sub_key,
            ),
            Resolution::Found(RestoreSource::Bundled { transform, .. }) => config::opt_text(transform.key) == config::opt_text(
                r.sub_key,
            ),
            Resolution::Found(RestoreSource::Blocks(blocks)) => forall|i: int|
                0 <= i < blocks.len() ==> config::opt_text((#[trigger] blocks[i]).transform.key) == config::opt_text(r.sub_key),
            _ => true,
        },
{
    if let Resolution::Found(RestoreSource::Blocks(blocks)) = found {
        let view = block_views(blocks@);
        assert(found@ == ResolutionView::Found(SourceView::Blocks(view)));
        assert forall|i: int| 0 <= i < blocks.len() implies config::opt_text((#[trigger] blocks[i]).transform.key)
            == config::opt_text(r.sub_key) by {
            assert(view[i] == blocks[i]@);
            lemma_blocks_keyed(*r, *file, view, i);
        }
    } else {
        assert(found@ == r.resolution(*file));
    }
}

proof fn lemma_blocks_keyed(r: SourceResolver, file: ManifestFile, view: Seq<BlockView>, i: int)
    requires
        config::opt_text(r.transform.key) == config::opt_text(r.sub_key),
        r.resolution(file) == ResolutionView::Found(SourceView::Blocks(view)),
        0 <= i < view.len(),
    ensures
        view[i].transform.key == config::opt_text(r.sub_key),
{
    let holder = holder_of(file, r.label@);
    let blocks = if file.block_map is Some {
        file.block_map.unwrap().blocks@
    } else if file.reference is Some {
        entry_in(r.manifests.lookup(holder).unwrap(), file).block_map.unwrap().blocks@
    } else {
        file.block_map.unwrap().blocks@
    };
    assert(view == Seq::new(blocks.len(), |k: int| r.block_source(blocks[k])));
    assert(view[i] == r.block_source(blocks[i]));
}

/// The same over what a resolver finds.
pub proof fn law_key_of_every_source(r: SourceResolver, file: ManifestFile)
    requires
        r.transform@.key == config::opt_text(r.sub_key),
    ensures
        match r.resolution(file) {
            ResolutionView::Found(SourceView::Standalone { transform, .. }) => transform.key == config::opt_text(r.sub_key),
            ResolutionView::Found(SourceView::Bundled { transform, .. }) => transform.key == config::opt_text(r.sub_key),
            ResolutionView::Found(SourceView::Blocks(blocks)) => forall|i: int|
                0 <= i < blocks.len() ==> (#[trigger] blocks[i]).transform.key == config::opt_text(r.sub_key),
            _ => true,
        },
{
    if let ResolutionView::Found(SourceView::Blocks(view)) = r.resolution(file) {
        assert forall|i: int| 0 <= i < view.len() implies (#[trigger] view[i]).transform.key == config::opt_text(r.sub_key) by {
            lemma_blocks_keyed(r, file, view, i);
        }
    }
}

/// What another backup did to its files is what was recorded of it: its compression under
/// the repository's key. Of the restored backup, and of one that nothing was recorded of,
/// it is the restored backup's own.
pub proof fn law_recorded_compression(r: &SourceResolver, holder: &str, entry: Option<&crate::info::BackupEntry>, t: RepoTransform)
    requires
        call_ensures(SourceResolver::holder_transform, (r, holder), t),
        call_ensures(TextMap::<crate::info::BackupEntry>::get, (&r.info.current, holder), entry),
    ensures
        holder@ == r.label@ || entry is None ==> t.compress_type == r.transform.compress_type && t.compress_level
            == r.transform.compress_level && config::opt_text(t.key) == config::opt_text(r.transform.key),
        holder@ != r.label@ && entry is Some ==> t.compress_type == entry.unwrap().transform.compress_type && t.compress_level
            == entry.unwrap().transform.compress_level && config::opt_text(t.key) == config::opt_text(r.sub_key),
{
    assert(t@ == r.transform_of(holder@));
}

/// A file that is stored block by block is put together from its blocks, one source for
/// each, in their order: from the bundle of the backup that the block names, the stored
/// bytes that the block names, as that backup stored them.
pub proof fn law_blocks_one_by_one(
    r: &SourceResolver,
    map: &BlockMap,
    found: Resolution,
    i: int,
    stanza: &str,
    reference: &str,
    path: String,
    t: RepoTransform,
)
    requires
        stanza@ == r.stanza@,
        call_ensures(SourceResolver::resolve_block_map, (r, map), found),
        0 <= i < map.blocks.len(),
        reference@ == map.blocks[i].reference@,
        call_ensures(bundle_object_path, (stanza, reference, map.blocks[i].bundle_id), path),
        call_ensures(SourceResolver::holder_transform, (r, reference), t),
    ensures
        match found {
            Resolution::Found(RestoreSource::Blocks(blocks)) => {
                &&& blocks.len() == map.blocks.len()
                &&& blocks[i].repo_bundle@ == path@
                &&& blocks[i].offset == map.blocks[i].offset
                &&& blocks[i].len == map.blocks[i].size
                &&& blocks[i].transform.compress_type == t.compress_type
                &&& config::opt_text(blocks[i].transform.key) == config::opt_text(t.key)
                &&& !r.local ==> blocks[i].abs_bundle@ == path@
                &&& r.local ==> r.infos.lookup(path@) is Some && blocks[i].abs_bundle@ == r.infos.lookup(path@).unwrap().path@
            },
            Resolution::NeedInfo { path: p } => r.local && r.infos.lookup(p@) is None,
            _ => false,
        },
{
    let blocks = map.blocks@;
    lemma_unknown(*r, blocks, 0);
    assert(found@ == r.blocks_resolution(blocks));
    if let Resolution::Found(RestoreSource::Blocks(out)) = found {
        let view = block_views(out@);
        assert(view == Seq::new(blocks.len(), |k: int| r.block_source(blocks[k])));
        assert(view.len() == out.len());
        assert(view[i] == out[i]@);
        assert(view[i] == r.block_source(blocks[i]));
        if r.local {
            lemma_known_bundles(*r, blocks, 0, i);
        }
        assert(t@ == r.transform_of(reference@));
    }
}

proof fn lemma_known_bundles(r: SourceResolver, blocks: Seq<BlockRef>, from: int, i: int)
    requires
        r.local,
        0 <= from <= i < blocks.len(),
        r.unknown_bundle(blocks, from) is None,
    ensures
        r.infos.lookup(paths::bundle_at(r.stanza@, blocks[i].reference@, blocks[i].bundle_id)) is Some,
    decreases i - from,
{
    if from < i {
        lemma_known_bundles(r, blocks, from + 1, i);
    }
}

/// A file that another backup holds is looked up in that backup's manifest, which is asked
/// for first where it is not known; a file without a reference never asks for one.
pub proof fn law_holder_is_asked_first(r: &SourceResolver, file: &ManifestFile, found: Resolution)
    requires
        call_ensures(SourceResolver::resolve, (r, file), found),
        file.block_map is None,
    ensures
        file.reference is None ==> !(found is NeedManifest),
        file.reference is Some ==> (found is NeedManifest <==> r.manifests.lookup(file.reference.unwrap()@) is None),
        found matches Resolution::NeedManifest { label, path } ==> label@ == file.reference.unwrap()@ && path@ == "backup/"@
            + r.stanza@ + "/"@ + label@ + "/backup.manifest"@,
{
    assert(found@ == r.resolution(*file));
}

/// A file by itself lies in the backup that holds it, under its own path with the
/// extension of that backup's compression; one in a bundle starts where the holder's
/// manifest says and ends where the next member of that bundle starts.
pub proof fn law_whole_file_source(
    r: &SourceResolver,
    file: &ManifestFile,
    holder: &str,
    entry: ManifestFile,
    holder_files: Seq<ManifestFile>,
    t: RepoTransform,
    found: Resolution,
)
    requires
        call_ensures(SourceResolver::resolve, (r, file), found),
        file.block_map is None,
        entry.block_map is None,
        match file.reference {
            None => holder@ == r.label@ && entry == *file && holder_files == r.manifest.files@,
            Some(reference) => {
                &&& holder@ == reference@
                &&& reference@ != r.label@
                &&& r.manifests.lookup(holder@) is Some
                &&& holder_files == r.manifests.lookup(holder@).unwrap().files@
                &&& entry == entry_in(r.manifests.lookup(holder@).unwrap(), *file)
            },
        },
        call_ensures(SourceResolver::holder_transform, (r, holder), t),
    ensures
        match (entry.bundle_id, entry.bundle_offset) {
            (Some(id), Some(offset)) => {
                let path = paths::backup_root_at(r.stanza@, holder@) + "/bundle/"@ + crate::text::decimal(id as nat);
                match found {
                    Resolution::NeedInfo { path: p } => p@ == path && r.infos.lookup(path) is None,
                    Resolution::Found(RestoreSource::Bundled { abs_bundle, repo_bundle, offset: o, len, transform }) => {
                        &&& repo_bundle@ == path
                        &&& o == offset
                        &&& transform@ == t@
                        &&& r.infos.lookup(path) is Some
                        &&& abs_bundle@ == (if r.local {
                            r.infos.lookup(path).unwrap().path@
                        } else {
                            path
                        })
                        &&& len == bundle::span(
                            bundle::members(holder_files, holder@, id),
                            offset,
                            r.infos.lookup(path).unwrap().size,
                        )
                    },
                    _ => false,
                }
            },
            _ => {
                let path = paths::backup_root_at(r.stanza@, holder@) + "/"@ + (file.path@ + helper::extension(t.compress_type));
                match found {
                    Resolution::NeedInfo { path: p } => p@ == path && r.local && r.infos.lookup(path) is None,
                    Resolution::Found(RestoreSource::Standalone { abs_src, repo_src, transform }) => {
                        &&& repo_src@ == path
                        &&& transform@ == t@
                        &&& r.local ==> r.infos.lookup(path) is Some
                        &&& abs_src@ == (if r.local {
                            r.infos.lookup(path).unwrap().path@
                        } else {
                            path
                        })
                    },
                    _ => false,
                }
            },
        },
{
    assert(found@ == r.resolution(*file));
    assert(t@ == r.transform_of(holder@));
    assert(r.resolution(*file) == r.whole_resolution(*file, holder@, entry));
}

/// A manifest and an info that a resolver was given are known under their names; it serves
/// the same backup as before and forgets nothing else.
pub proof fn law_answers_are_remembered(
    a: &mut SourceResolver,
    label: String,
    manifest: Manifest,
    b: &mut SourceResolver,
    path: String,
    info: StorageInfo,
    other: Seq<char>,
)
    requires
        call_ensures(SourceResolver::add_manifest, (a, label, manifest), ()),
        call_ensures(SourceResolver::add_info, (b, path, info), ()),
    ensures
        final(a).manifests.lookup(label@) == Some(manifest),
        other != label@ ==> final(a).manifests.lookup(other) == old(a).manifests.lookup(other),
        final(a).infos == old(a).infos,
        final(a).label == old(a).label && final(a).transform == old(a).transform && final(a).manifest == old(a).manifest && final(a).info == old(a).info && final(a).sub_key == old(a).sub_key && final(a).local == old(a).local && final(a).stanza
            == old(a).stanza,
        final(b).infos.lookup(path@) == Some(info),
        other != path@ ==> final(b).infos.lookup(other) == old(b).infos.lookup(other),
        final(b).manifests == old(b).manifests,
        final(b).label == old(b).label && final(b).transform == old(b).transform && final(b).manifest == old(b).manifest && final(b).info == old(b).info && final(b).sub_key == old(b).sub_key && final(b).local == old(b).local && final(b).stanza
            == old(b).stanza,
{
    assert(final(a).manifests.lookup(other) == final(a).manifests.lookup(other));
    assert(final(b).infos.lookup(other) == final(b).infos.lookup(other));
}

/// A recorded transform keeps its compression and is read under the repository's key. What
/// could not be loaded is missing where it should lie, or gives its own message.
pub proof fn law_transform_under_a_key(
    recorded: &RepoTransform,
    sub_key: &Option<String>,
    r: RepoTransform,
    path: String,
    message: String,
    a: CommandError,
    b: CommandError,
)
    requires
        call_ensures(restore_transform, (recorded, sub_key), r),
        call_ensures(load_error, (LoadError::NotFound, path), a),
        call_ensures(load_error, (LoadError::Unusable(message), path), b),
    ensures
        r.compress_type == recorded.compress_type,
        r.compress_level == recorded.compress_level,
        r.key is Some <==> sub_key is Some,
        r.key is Some ==> r.key.unwrap()@ == sub_key.unwrap()@,
        a is Storage && a->Storage_0 is NotFound && a->Storage_0->NotFound_path@ == path@,
        b is Other && b->Other_0@ == message@,
{
    assert(r@.compress_type == recorded@.compress_type && r@.compress_level == recorded@.compress_level);
    assert(r@.key == config::opt_text(*sub_key));
}

/// A new resolver serves what it was given, and was told nothing yet.
pub proof fn law_new_resolver(
    stanza: String,
    label: String,
    transform: RepoTransform,
    manifest: Manifest,
    info: InfoBackup,
    sub_key: Option<String>,
    local: bool,
    r: SourceResolver,
    name: Seq<char>,
)
    requires
        call_ensures(SourceResolver::new, (stanza, label, transform, manifest, info, sub_key, local), r),
    ensures
        r.stanza == stanza && r.label == label && r.transform == transform && r.manifest == manifest,
        r.info == info && r.sub_key == sub_key && r.local == local,
        r.manifests.lookup(name) is None,
        r.infos.lookup(name) is None,
{
}

/// On this host the first bundle that nothing is known of is asked for.
pub proof fn law_first_unknown_bundle_is_asked_for(r: &SourceResolver, map: &BlockMap, found: Resolution, i: int)
    requires
        call_ensures(SourceResolver::resolve_block_map, (r, map), found),
        r.local,
        0 <= i < map.blocks.len(),
        r.infos.lookup(paths::bundle_at(r.stanza@, map.blocks[i].reference@, map.blocks[i].bundle_id)) is None,
        forall|k: int|
            0 <= k < i ==> r.infos.lookup(
                paths::bundle_at(r.stanza@, (#[trigger] map.blocks[k]).reference@, map.blocks[k].bundle_id),
            ) is Some,
    ensures
        found is NeedInfo,
        found->NeedInfo_path@ == paths::bundle_at(r.stanza@, map.blocks[i].reference@, map.blocks[i].bundle_id),
{
    lemma_first_unknown_bundle(*r, map.blocks@, 0, i);
    assert(found@ == r.blocks_resolution(map.blocks@));
}

proof fn lemma_first_unknown_bundle(r: SourceResolver, blocks: Seq<BlockRef>, from: int, i: int)
    requires
        r.local,
        0 <= from <= i < blocks.len(),
        r.infos.lookup(paths::bundle_at(r.stanza@, blocks[i].reference@, blocks[i].bundle_id)) is None,
        forall|k: int|
            from <= k < i ==> r.infos.lookup(
                paths::bundle_at(r.stanza@, (#[trigger] blocks[k]).reference@, blocks[k].bundle_id),
            ) is Some,
    ensures
        r.unknown_bundle(blocks, from) == Some(paths::bundle_at(r.stanza@, blocks[i].reference@, blocks[i].bundle_id)),
    decreases i - from,
{
    if from < i {
        assert(r.infos.lookup(paths::bundle_at(r.stanza@, blocks[from].reference@, blocks[from].bundle_id)) is Some);
        lemma_first_unknown_bundle(r, blocks, from + 1, i);
    }
}

}
