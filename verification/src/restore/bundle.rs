//! Where the members of a bundle lie.
use vstd::prelude::*;

use crate::info;
use crate::info::{BlockRef, Manifest, ManifestFile};
use crate::text::text_eq;

verus! {

/// Whether a block of `blocks` lies in the bundle `id` of the backup `holder`, at
/// `offset`.
pub open spec fn block_in_bundle(blocks: Seq<BlockRef>, holder: Seq<char>, id: u64, offset: u64) -> bool {
    exists|j: int| 0 <= j < blocks.len() && (#[trigger] blocks[j]).reference@ == holder && blocks[j].bundle_id == id
        && blocks[j].offset == offset
}

/// Whether bytes of `file` start at `offset` of the bundle `id` of the backup
/// `holder`, by that backup's manifest.
pub open spec fn file_in_bundle(file: ManifestFile, holder: Seq<char>, id: u64, offset: u64) -> bool {
    ||| file.bundle_id == Some(id) && file.bundle_offset == Some(offset)
    ||| file.block_map matches Some(bm) && block_in_bundle(bm.blocks@, holder, id, offset)
}

/// The offsets at which something starts in the bundle `id` of the backup `holder`.
pub open spec fn members(files: Seq<ManifestFile>, holder: Seq<char>, id: u64) -> Set<u64> {
    Set::new(|o: u64| exists|i: int| 0 <= i < files.len() && #[trigger] file_in_bundle(files[i], holder, id, o))
}

/// Whether `o` is the least of `members` beyond `offset`.
pub open spec fn is_next(members: Set<u64>, offset: u64, o: u64) -> bool {
    &&& members.contains(o)
    &&& o > offset
    &&& forall|p: u64| members.contains(p) && p > offset ==> o <= p
}

/// The least of `members` beyond `offset`.
pub open spec fn next_member(members: Set<u64>, offset: u64) -> Option<u64> {
    if exists|o: u64| is_next(members, offset, o) {
        Some(choose|o: u64| is_next(members, offset, o))
    } else {
        None
    }
}

/// How many stored bytes the member at `offset` takes in a bundle of `size` bytes:
/// up to the next member, the last one up to the end.
pub open spec fn span(members: Set<u64>, offset: u64, size: u64) -> u64 {
    let end = match next_member(members, offset) {
        Some(o) => o,
        None => size,
    };
    if end >= offset {
        (end - offset) as u64
    } else {
        0
    }
}

/// Where the members of a bundle start, and how large the bundle is.
pub struct BundleLayout {
    bundle_size: u64,
    offsets: Vec<u64>,
}

/// Whether the numbers stand in strictly ascending order.
pub open spec fn rising(s: Seq<u64>) -> bool {
    forall|i: int, j: int| 0 <= i < j < s.len() ==> s[i] < s[j]
}

impl BundleLayout {
    /// The offsets are strictly ascending.
    #[verifier::type_invariant]
    spec fn wf(self) -> bool {
        rising(self.offsets@)
    }

    /// The size of the bundle.
    pub closed spec fn size(self) -> u64 {
        self.bundle_size
    }

    /// The offsets at which a member starts.
    pub closed spec fn members(self) -> Set<u64> {
        self.offsets@.to_set()
    }

    /// The layout of a bundle of `bundle_size` bytes whose members start at `offsets`.
    pub fn new(bundle_size: u64, offsets: Vec<u64>) -> (r: Self)
        ensures
            r.size() == bundle_size,
            r.members() == offsets@.to_set(),
    {
        let mut sorted: Vec<u64> = Vec::new();
        let n: usize = offsets.len();
        let mut i: usize = 0;
        while i < n
            invariant
                i <= n,
                n == offsets.len(),
                rising(sorted@),
                forall|o: u64| sorted@.contains(o) <==> offsets@.take(i as int).contains(o),
            decreases n - i,
        {
            insert_rising(&mut sorted, offsets[i]);
            proof {
                let front = offsets@.take(i as int);
                let more = offsets@.take(i as int + 1);
                assert(more =~= front.push(offsets@[i as int]));
                assert forall|o: u64| sorted@.contains(o) <==> more.contains(o) by {
                    if front.contains(o) {
                        let k = choose|k: int| 0 <= k < front.len() && front[k] == o;
                        assert(more[k] == o);
                    }
                    if o == offsets@[i as int] {
                        assert(more[i as int] == o);
                    }
                    if more.contains(o) {
                        let k = choose|k: int| 0 <= k < more.len() && more[k] == o;
                        if k < i {
                            assert(front[k] == o);
                        }
                    }
                }
            }
            i += 1;
        }
        assert(offsets@.take(n as int) =~= offsets@);
        let r = BundleLayout { bundle_size, offsets: sorted };
        assert(r.members() =~= offsets@.to_set());
        r
    }

    /// How many stored bytes the member at `offset` takes.
    pub fn member_len(&self, offset: u64) -> (r: u64)
        ensures
            r == span(self.members(), offset, self.size()),
    {
        proof {
            use_type_invariant(self);
        }
        let n: usize = self.offsets.len();
        let mut i: usize = 0;
        while i < n && self.offsets[i] <= offset
            invariant
                i <= n,
                n == self.offsets.len(),
                rising(self.offsets@),
                forall|k: int| 0 <= k < i ==> self.offsets@[k] <= offset,
            decreases n - i,
        {
            i += 1;
        }
        let ghost m = self.members();
        let end: u64 = if i < n {
            proof {
                let o = self.offsets@[i as int];
                assert(m.contains(o));
                assert(is_next(m, offset, o));
                let p = next_member(m, offset).unwrap();
                assert(is_next(m, offset, p));
                assert(p == o);
            }
            self.offsets[i]
        } else {
            proof {
                if exists|o: u64| is_next(m, offset, o) {
                    let o = choose|o: u64| is_next(m, offset, o);
                    let k = choose|k: int| 0 <= k < self.offsets@.len() && self.offsets@[k] == o;
                    assert(self.offsets@[k] <= offset);
                }
            }
            self.bundle_size
        };
        end.saturating_sub(offset)
    }
}

/// Puts `x` in its place among ascending numbers, unless it stands there already.
fn insert_rising(v: &mut Vec<u64>, x: u64)
    requires
        rising(old(v)@),
    ensures
        rising(final(v)@),
        forall|o: u64| final(v)@.contains(o) <==> (old(v)@.contains(o) || o == x),
{
    let ghost before = v@;
    let n: usize = v.len();
    let mut i: usize = 0;
    while i < n && v[i] < x
        invariant
            i <= n,
            n == v.len(),
            v@ == before,
            forall|k: int| 0 <= k < i ==> v@[k] < x,
        decreases n - i,
    {
        i += 1;
    }
    if i < n && v[i] == x {
        assert(v@.contains(x));
        return;
    }
    v.insert(i, x);
    proof {
        assert(v@ =~= before.insert(i as int, x));
        assert(v@[i as int] == x);
        assert forall|o: u64| v@.contains(o) <==> (before.contains(o) || o == x) by {
            if v@.contains(o) {
                let k = choose|k: int| 0 <= k < v@.len() && v@[k] == o;
                if k < i {
                    assert(before[k] == o);
                } else if k > i {
                    assert(before[k - 1] == o);
                }
            }
            if before.contains(o) {
                let k = choose|k: int| 0 <= k < before.len() && before[k] == o;
                if k < i {
                    assert(v@[k] == o);
                } else {
                    assert(v@[k + 1] == o);
                }
            }
        }
    }
}

/// The layout of the bundle `id` of the backup `holder`, by that backup's manifest
/// and the bundle's size.
pub fn bundle_layout(manifest: &Manifest, holder: &str, id: u64, bundle_size: u64) -> (r: BundleLayout)
    ensures
        r.size() == bundle_size,
        r.members() == members(manifest.files@, holder@, id),
{
    let mut offsets: Vec<u64> = Vec::new();
    let n: usize = manifest.files.len();
    let mut i: usize = 0;
    let ghost files = manifest.files@;
    while i < n
        invariant
            i <= n,
            n == manifest.files.len(),
            files == manifest.files@,
            forall|o: u64|
                offsets@.contains(o) <==> exists|k: int| 0 <= k < i && #[trigger] file_in_bundle(files[k], holder@, id, o),
        decreases n - i,
    {
        let ghost start = offsets@;
        let file = &manifest.files[i];
        let own: Option<u64> = match (file.bundle_id, file.bundle_offset) {
            (Some(b), Some(off)) => if b == id {
                Some(off)
            } else {
                None
            },
            _ => None,
        };
        if let Some(off) = own {
            offsets.push(off);
        }
        let ghost base = offsets@;
        proof {
            assert forall|o: u64| base.contains(o) <==> (start.contains(o) || own == Some(o)) by {
                lemma_pushed(start, own, o);
            }
        }
        if let Some(bm) = &file.block_map {
            let m: usize = bm.blocks.len();
            let mut j: usize = 0;
            while j < m
                invariant
                    j <= m,
                    m == bm.blocks.len(),
                    forall|o: u64|
                        #[trigger] offsets@.contains(o) <==> (base.contains(o) || block_in_bundle(
                            bm.blocks@.take(j as int),
                            holder@,
                            id,
                            o,
                        )),
                decreases m - j,
            {
                let ghost prior = offsets@;
                let block = &bm.blocks[j];
                let hit: bool = block.bundle_id == id && text_eq(block.reference.as_str(), holder);
                let add: Option<u64> = if hit {
                    Some(block.offset)
                } else {
                    None
                };
                if hit {
                    offsets.push(block.offset);
                }
                let ghost front = bm.blocks@.take(j as int);
                let ghost more = bm.blocks@.take(j as int + 1);
                proof {
                    assert(more =~= front.push(*block));
                    assert forall|o: u64|
                        #[trigger] offsets@.contains(o) <==> (base.contains(o) || block_in_bundle(more, holder@, id, o)) by {
                        lemma_pushed(prior, add, o);
                        assert(offsets@ == (match add {
                            Some(x) => prior.push(x),
                            None => prior,
                        }));
                        assert(prior.contains(o) <==> (base.contains(o) || block_in_bundle(front, holder@, id, o)));
                        if block_in_bundle(front, holder@, id, o) {
                            let k = choose|k: int|
                                0 <= k < front.len() && (#[trigger] front[k]).reference@ == holder@ && front[k].bundle_id
                                    == id && front[k].offset == o;
                            assert(more[k] == front[k]);
                        }
                        if add == Some(o) {
                            assert(more[j as int].offset == o);
                        }
                        if block_in_bundle(more, holder@, id, o) {
                            let k = choose|k: int|
                                0 <= k < more.len() && (#[trigger] more[k]).reference@ == holder@ && more[k].bundle_id
                                    == id && more[k].offset == o;
                            if k < j {
                                assert(front[k] == more[k]);
                            } else {
                                assert(more[k] == *block);
                                assert(add == Some(o));
                            }
                        }
                    }
                }
                j += 1;
                assert(bm.blocks@.take(j as int) == more);
            }
            assert(bm.blocks@.take(m as int) =~= bm.blocks@);
        }
        proof {
            assert forall|o: u64|
                offsets@.contains(o) <==> exists|k: int|
                    0 <= k < i + 1 && #[trigger] file_in_bundle(files[k], holder@, id, o) by {
                assert(base.contains(o) <==> (start.contains(o) || own == Some(o)));
                if file_in_bundle(files[i as int], holder@, id, o) {
                    assert(offsets@.contains(o));
                }
                if offsets@.contains(o) && !start.contains(o) {
                    assert(file_in_bundle(files[i as int], holder@, id, o));
                }
            }
        }
        i += 1;
    }
    let r = BundleLayout::new(bundle_size, offsets);
    assert(r.members() =~= members(files, holder@, id));
    r
}

proof fn lemma_pushed(s: Seq<u64>, add: Option<u64>, o: u64)
    ensures
        (match add {
            Some(x) => s.push(x),
            None => s,
        }).contains(o) <==> (s.contains(o) || add == Some(o)),
{
    if let Some(x) = add {
        let t = s.push(x);
        if s.contains(o) {
            let k = choose|k: int| 0 <= k < s.len() && s[k] == o;
            assert(t[k] == o);
        }
        if o == x {
            assert(t[s.len() as int] == o);
        }
        if t.contains(o) {
            let k = choose|k: int| 0 <= k < t.len() && t[k] == o;
            if k < s.len() {
                assert(s[k] == o);
            }
        }
    }
}

proof fn lemma_next_exists(members: Set<u64>, offset: u64, o: u64)
    requires
        members.contains(o),
        o > offset,
    ensures
        exists|p: u64| is_next(members, offset, p),
    decreases o,
{
    if !is_next(members, offset, o) {
        let p = choose|p: u64| members.contains(p) && p > offset && !(o <= p);
        lemma_next_exists(members, offset, p);
    }
}

/// The members of a bundle follow one another without gap or overlap: what a
/// member takes ends where the next one starts, and the last ends with the bundle.
pub proof fn law_members_tile_bundle(members: Set<u64>, offset: u64, size: u64)
    requires
        offset <= size,
        forall|o: u64| members.contains(o) ==> o <= size,
    ensures
        match next_member(members, offset) {
            Some(o) => members.contains(o) && o > offset && offset + span(members, offset, size) == o,
            None => offset + span(members, offset, size) == size,
        },
        forall|o: u64| members.contains(o) && o > offset ==> o >= offset + span(members, offset, size),
{
    if exists|o: u64| is_next(members, offset, o) {
        let o = next_member(members, offset).unwrap();
        assert(is_next(members, offset, o));
    } else {
        assert forall|o: u64| members.contains(o) && o > offset implies o >= offset + span(members, offset, size) by {
            lemma_next_exists(members, offset, o);
        }
    }
}

/// Files with the same contents start at the same offsets of a bundle.
pub proof fn lemma_same_members(a: Seq<ManifestFile>, b: Seq<ManifestFile>, holder: Seq<char>, id: u64)
    requires
        info::file_views(a) == info::file_views(b),
    ensures
        members(a, holder, id) == members(b, holder, id),
{
    assert forall|o: u64| #[trigger] members(a, holder, id).contains(o) implies members(b, holder, id).contains(o) by {
        lemma_member_of_both(a, b, holder, id, o);
    }
    assert forall|o: u64| #[trigger] members(b, holder, id).contains(o) implies members(a, holder, id).contains(o) by {
        lemma_member_of_both(b, a, holder, id, o);
    }
    assert(members(a, holder, id) =~= members(b, holder, id));
}

proof fn lemma_member_of_both(a: Seq<ManifestFile>, b: Seq<ManifestFile>, holder: Seq<char>, id: u64, o: u64)
    requires
        info::file_views(a) == info::file_views(b),
        members(a, holder, id).contains(o),
    ensures
        members(b, holder, id).contains(o),
{
    let i = choose|i: int| 0 <= i < a.len() && #[trigger] file_in_bundle(a[i], holder, id, o);
    info::lemma_same_files(a, b);
    assert(a[i]@ == b[i]@);
    assert(a[i]@.bundle_id == b[i]@.bundle_id && a[i]@.bundle_offset == b[i]@.bundle_offset);
    if !(a[i].bundle_id == Some(id) && a[i].bundle_offset == Some(o)) {
        assert(a[i]@.blocks is Some && b[i]@.blocks is Some);
        let x = a[i].block_map.unwrap().blocks@;
        let y = b[i].block_map.unwrap().blocks@;
        assert(info::block_ref_views(x) == info::block_ref_views(y));
        info::lemma_same_block_refs(x, y);
        let j = choose|j: int|
            0 <= j < x.len() && (#[trigger] x[j]).reference@ == holder && x[j].bundle_id == id && x[j].offset == o;
        assert(x[j]@ == y[j]@);
        assert(x[j]@.reference == y[j]@.reference && x[j]@.bundle_id == y[j]@.bundle_id && x[j]@.offset == y[j]@.offset);
        assert(y[j].reference@ == holder);
    }
    assert(file_in_bundle(b[i], holder, id, o));
}

/// A member of a bundle ends where the next one starts, the last where the bundle ends.
/// What starts in the bundle is known from the manifest: each file that lies in it, and
/// each block of a file that does.
pub proof fn law_member_ends_at_the_next(
    manifest: &Manifest,
    holder: &str,
    id: u64,
    size: u64,
    layout: BundleLayout,
    offset: u64,
    len: u64,
)
    requires
        call_ensures(bundle_layout, (manifest, holder, id, size), layout),
        call_ensures(BundleLayout::member_len, (&layout, offset), len),
    ensures
        forall|i: int|
            #![trigger manifest.files[i]]
            0 <= i < manifest.files.len() && manifest.files[i].bundle_id == Some(id) && manifest.files[i].bundle_offset is Some
                && manifest.files[i].bundle_offset.unwrap() > offset ==> offset + len <= manifest.files[i].bundle_offset.unwrap(),
        forall|i: int, j: int|
            #![trigger manifest.files[i].block_map.unwrap().blocks[j]]
            0 <= i < manifest.files.len() && manifest.files[i].block_map is Some && 0 <= j
                < manifest.files[i].block_map.unwrap().blocks.len() && manifest.files[i].block_map.unwrap().blocks[j].reference@
                == holder@ && manifest.files[i].block_map.unwrap().blocks[j].bundle_id == id
                && manifest.files[i].block_map.unwrap().blocks[j].offset > offset ==> offset + len
                <= manifest.files[i].block_map.unwrap().blocks[j].offset,
        offset + len == size || (offset >= size && len == 0) || exists|i: int|
            0 <= i < manifest.files.len() && #[trigger] file_in_bundle(manifest.files[i], holder@, id, (offset + len) as u64),
{
    let m = members(manifest.files@, holder@, id);
    assert(len == span(m, offset, size));
    if exists|o: u64| is_next(m, offset, o) {
        let o = next_member(m, offset).unwrap();
        assert(is_next(m, offset, o));
        assert(offset + len == o);
        assert(m.contains(o));
        let i = choose|i: int|
            0 <= i < manifest.files.len() && #[trigger] file_in_bundle(manifest.files[i], holder@, id, o);
        assert(file_in_bundle(manifest.files[i], holder@, id, (offset + len) as u64));
    }
    assert forall|i: int|
        #![trigger manifest.files[i]]
        0 <= i < manifest.files.len() && manifest.files[i].bundle_id == Some(id) && manifest.files[i].bundle_offset is Some
            && manifest.files[i].bundle_offset.unwrap() > offset implies offset + len <= manifest.files[i].bundle_offset.unwrap() by {
        let o = manifest.files[i].bundle_offset.unwrap();
        assert(file_in_bundle(manifest.files[i], holder@, id, o));
        assert(m.contains(o));
        lemma_next_exists(m, offset, o);
    }
    assert forall|i: int, j: int|
        #![trigger manifest.files[i].block_map.unwrap().blocks[j]]
        0 <= i < manifest.files.len() && manifest.files[i].block_map is Some && 0 <= j
            < manifest.files[i].block_map.unwrap().blocks.len() && manifest.files[i].block_map.unwrap().blocks[j].reference@
            == holder@ && manifest.files[i].block_map.unwrap().blocks[j].bundle_id == id
            && manifest.files[i].block_map.unwrap().blocks[j].offset > offset implies offset + len
        <= manifest.files[i].block_map.unwrap().blocks[j].offset by {
        let o = manifest.files[i].block_map.unwrap().blocks[j].offset;
        assert(block_in_bundle(manifest.files[i].block_map.unwrap().blocks@, holder@, id, o));
        assert(file_in_bundle(manifest.files[i], holder@, id, o));
        assert(m.contains(o));
        lemma_next_exists(m, offset, o);
    }
}

/// A layout made from offsets gives each member the bytes up to the next of them.
pub proof fn law_layout_of_offsets(size: u64, offsets: Vec<u64>, layout: BundleLayout, offset: u64, len: u64)
    requires
        call_ensures(BundleLayout::new, (size, offsets), layout),
        call_ensures(BundleLayout::member_len, (&layout, offset), len),
    ensures
        forall|i: int| 0 <= i < offsets.len() && #[trigger] offsets[i] > offset ==> offset + len <= offsets[i],
        (forall|i: int| 0 <= i < offsets.len() ==> #[trigger] offsets[i] <= offset) ==> len == (if size >= offset {
            size - offset
        } else {
            0
        }),
        (exists|i: int| 0 <= i < offsets.len() && #[trigger] offsets[i] > offset) ==> len > 0 && exists|i: int|
            0 <= i < offsets.len() && #[trigger] offsets[i] == offset + len,
{
    let m = offsets@.to_set();
    assert(len == span(m, offset, size));
    if exists|o: u64| is_next(m, offset, o) {
        let o = next_member(m, offset).unwrap();
        assert(is_next(m, offset, o));
        let k = choose|k: int| 0 <= k < offsets.len() && offsets@[k] == o;
        assert(offsets[k] == offset + len);
    }
    assert forall|i: int| 0 <= i < offsets.len() && #[trigger] offsets[i] > offset implies offset + len <= offsets[i]
        && exists|o: u64| is_next(m, offset, o) by {
        assert(m.contains(offsets@[i]));
        lemma_next_exists(m, offset, offsets[i]);
    }
}

}
