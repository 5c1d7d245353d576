//! Which files of the target a delta restore removes.
use vstd::prelude::*;

use crate::config;
use crate::textmap;
use crate::text;
use crate::paths;
use crate::info::{Manifest, ManifestFile, ManifestPath};
use crate::paths::{first_component, join_path};
use crate::text::{replace_char, text_eq};
use crate::textmap::TextMap;

verus! {

/// Whether a recorded path or file begins with the component `root`.
pub open spec fn is_root(manifest: Manifest, root: Seq<char>) -> bool {
    ||| exists|i: int| 0 <= i < manifest.paths.len() && paths::root_of((#[trigger] manifest.paths[i]).path@) == Some(root)
    ||| exists|i: int| 0 <= i < manifest.files.len() && paths::root_of((#[trigger] manifest.files[i]).path@) == Some(root)
}

/// The first components of everything recorded, each once, in ascending order.
pub fn stray_roots(manifest: &Manifest) -> (r: Vec<String>)
    ensures
        textmap::ascending(text::texts(r@)),
        forall|root: Seq<char>| #[trigger] text::texts(r@).contains(root) <==> is_root(*manifest, root),
{
    let mut seen: TextMap<bool> = TextMap::new();
    let n: usize = manifest.paths.len();
    let mut i: usize = 0;
    while i < n
        invariant
            i <= n,
            n == manifest.paths.len(),
            forall|root: Seq<char>|
                #[trigger] seen.keys().contains(root) <==> exists|k: int|
                    0 <= k < i && paths::root_of((#[trigger] manifest.paths[k]).path@) == Some(root),
        decreases n - i,
    {
        let ghost before = seen.keys();
        let found = first_component(manifest.paths[i].path.as_str());
        let ghost here = config::opt_text(found);
        if let Some(root) = found {
            seen = seen.insert(root, true);
        }
        proof {
            assert forall|root: Seq<char>|
                #[trigger] seen.keys().contains(root) <==> exists|k: int|
                    0 <= k < i + 1 && paths::root_of((#[trigger] manifest.paths[k]).path@) == Some(root) by {
                assert(before.contains(root) <==> exists|k: int|
                    0 <= k < i && paths::root_of((#[trigger] manifest.paths[k]).path@) == Some(root));
                assert(seen.keys().contains(root) <==> (before.contains(root) || here == Some(root)));
                assert(here == paths::root_of(manifest.paths[i as int].path@));
            }
        }
        i += 1;
    }
    let ghost from_paths = seen.keys();
    let m: usize = manifest.files.len();
    let mut j: usize = 0;
    while j < m
        invariant
            j <= m,
            m == manifest.files.len(),
            forall|root: Seq<char>|
                #[trigger] seen.keys().contains(root) <==> (from_paths.contains(root) || exists|k: int|
                    0 <= k < j && paths::root_of((#[trigger] manifest.files[k]).path@) == Some(root)),
        decreases m - j,
    {
        let ghost before = seen.keys();
        let found = first_component(manifest.files[j].path.as_str());
        let ghost here = config::opt_text(found);
        if let Some(root) = found {
            seen = seen.insert(root, true);
        }
        proof {
            assert forall|root: Seq<char>|
                #[trigger] seen.keys().contains(root) <==> (from_paths.contains(root) || exists|k: int|
                    0 <= k < j + 1 && paths::root_of((#[trigger] manifest.files[k]).path@) == Some(root)) by {
                assert(before.contains(root) <==> (from_paths.contains(root) || exists|k: int|
                    0 <= k < j && paths::root_of((#[trigger] manifest.files[k]).path@) == Some(root)));
                assert(seen.keys().contains(root) <==> (before.contains(root) || here == Some(root)));
                assert(here == paths::root_of(manifest.files[j as int].path@));
            }
        }
        j += 1;
    }
    let total: usize = seen.len();
    let mut out: Vec<String> = Vec::new();
    let mut k: usize = 0;
    while k < total
        invariant
            k <= total,
            total == seen.keys().len(),
            text::texts(out@) == seen.keys().take(k as int),
        decreases total - k,
    {
        let ghost before = text::texts(out@);
        out.push(seen.key_at(k).clone());
        assert(text::texts(out@) =~= before.push(seen.keys()[k as int]));
        assert(text::texts(out@) =~= seen.keys().take(k as int + 1));
        k += 1;
    }
    assert(seen.keys().take(total as int) =~= seen.keys());
    out
}

/// Something that stands in a directory of the target.
pub enum TargetEntry {
    /// A regular file.
    File { name: String },
    /// A directory, with what stands in it.
    Dir { name: String, entries: Vec<TargetEntry> },
    /// A link or something special.
    Other { name: String },
}

/// The paths of the regular files among `entries` and below them, in order.
pub open spec fn files_below(dir: Seq<char>, entries: Seq<TargetEntry>) -> Seq<Seq<char>>
    decreases entries,
{
    if entries.len() == 0 {
        Seq::<Seq<char>>::empty()
    } else {
        files_below(dir, entries.drop_last()) + entry_files(dir, entries.last())
    }
}

/// The paths of the regular files that an entry of `dir` is or holds, in order.
pub open spec fn entry_files(dir: Seq<char>, entry: TargetEntry) -> Seq<Seq<char>>
    decreases entry,
{
    match entry {
        TargetEntry::File { name } => seq![paths::below(dir, name@)],
        TargetEntry::Dir { name, entries } => files_below(paths::below(dir, name@), entries@),
        TargetEntry::Other { name } => Seq::<Seq<char>>::empty(),
    }
}

/// Adds the regular files among `entries` and below them to `out`.
pub fn collect_target_files(dir: &str, entries: &Vec<TargetEntry>, out: &mut Vec<String>)
    ensures
        text::texts(final(out)@) == text::texts(old(out)@) + files_below(dir@, entries@),
    decreases entries,
{
    let ghost start = text::texts(out@);
    let n: usize = entries.len();
    let mut i: usize = 0;
    assert(entries@.take(0) =~= Seq::<TargetEntry>::empty());
    assert(start + files_below(dir@, entries@.take(0)) =~= start);
    while i < n
        invariant
            i <= n,
            n == entries.len(),
            text::texts(out@) == start + files_below(dir@, entries@.take(i as int)),
        decreases n - i,
    {
        let ghost before = text::texts(out@);
        proof {
            assert(entries@.take(i as int + 1).drop_last() =~= entries@.take(i as int));
            assert(entries@.take(i as int + 1).last() == entries@[i as int]);
        }
        match &entries[i] {
            TargetEntry::File { name } => {
                out.push(join_path(dir, name.as_str()));
                assert(text::texts(out@) =~= before.push(paths::below(dir@, name@)));
            },
            TargetEntry::Dir { name, entries: inner } => {
                let path = join_path(dir, name.as_str());
                assert(decreases_to!(entries => entries@[i as int]));
                collect_target_files(path.as_str(), inner, out);
            },
            TargetEntry::Other { name } => {},
        }
        assert(text::texts(out@) =~= before + entry_files(dir@, entries@[i as int]));
        assert(text::texts(out@) =~= start + files_below(dir@, entries@.take(i as int + 1)));
        i += 1;
    }
    assert(entries@.take(n as int) =~= entries@);
}

/// What stands in the target at a root.
pub enum RootFound {
    /// A directory, with what stands in it.
    Dir(Vec<TargetEntry>),
    /// A regular file.
    File,
    /// Nothing, or something that is neither.
    Nothing,
}

/// The regular files that stand at a root or below it.
pub open spec fn root_files(root: Seq<char>, found: RootFound) -> Seq<Seq<char>> {
    match found {
        RootFound::Dir(entries) => files_below(root, entries@),
        RootFound::File => seq![root],
        RootFound::Nothing => Seq::<Seq<char>>::empty(),
    }
}

/// The regular files that stand at the roots or below them, in order.
pub open spec fn present_files(found: Seq<(String, RootFound)>) -> Seq<Seq<char>>
    decreases found.len(),
{
    if found.len() == 0 {
        Seq::<Seq<char>>::empty()
    } else {
        present_files(found.drop_last()) + root_files(found.last().0@, found.last().1)
    }
}

/// The roots that something was told of.
pub open spec fn found_roots(found: Seq<(String, RootFound)>) -> Seq<Seq<char>> {
    Seq::new(found.len(), |i: int| found[i].0@)
}

/// Whether it was told of each root what stands there, once and in ascending order, and
/// of nothing else.
pub open spec fn walks_all(found: Seq<(String, RootFound)>, manifest: Manifest) -> bool {
    &&& textmap::ascending(found_roots(found))
    &&& forall|root: Seq<char>| #[trigger] found_roots(found).contains(root) <==> is_root(manifest, root)
}

/// Whether a file was recorded under `path`, in either way to write separators.
pub open spec fn recorded(files: Seq<ManifestFile>, path: Seq<char>) -> bool {
    exists|i: int| 0 <= i < files.len() && (#[trigger] files[i]).path@ == text::replaced(path, '\\', '/')
}

/// Those of `present` that were not recorded, in order.
pub open spec fn strays(files: Seq<ManifestFile>, present: Seq<Seq<char>>) -> Seq<Seq<char>>
    decreases present.len(),
{
    if present.len() == 0 {
        Seq::<Seq<char>>::empty()
    } else if recorded(files, present.last()) {
        strays(files, present.drop_last())
    } else {
        strays(files, present.drop_last()).push(present.last())
    }
}

fn is_recorded(manifest: &Manifest, path: &str) -> (r: bool)
    ensures
        r == recorded(manifest.files@, path@),
{
    proof {
        reveal_strlit("/");
    }
    let wanted = replace_char(path, '\\', "/");
    let n: usize = manifest.files.len();
    let mut i: usize = 0;
    while i < n
        invariant
            i <= n,
            n == manifest.files.len(),
            wanted@ == text::replaced(path@, '\\', '/'),
            forall|k: int| 0 <= k < i ==> (#[trigger] manifest.files@[k]).path@ != wanted@,
        decreases n - i,
    {
        if text_eq(manifest.files[i].path.as_str(), wanted.as_str()) {
            assert(manifest.files@[i as int].path@ == wanted@);
            return true;
        }
        i += 1;
    }
    false
}

/// The regular files of the target, at the roots or below them, that were not
/// recorded.
pub fn stray_files(manifest: &Manifest, found: &Vec<(String, RootFound)>) -> (r: Vec<String>)
    ensures
        text::texts(r@) == strays(manifest.files@, present_files(found@)),
{
    let mut present: Vec<String> = Vec::new();
    let n: usize = found.len();
    let mut i: usize = 0;
    assert(found@.take(0) =~= Seq::<(String, RootFound)>::empty());
    assert(text::texts(present@) =~= Seq::<Seq<char>>::empty());
    while i < n
        invariant
            i <= n,
            n == found.len(),
            text::texts(present@) == present_files(found@.take(i as int)),
        decreases n - i,
    {
        let ghost before = text::texts(present@);
        proof {
            assert(found@.take(i as int + 1).drop_last() =~= found@.take(i as int));
            assert(found@.take(i as int + 1).last() == found@[i as int]);
        }
        let pair = &found[i];
        match &pair.1 {
            RootFound::Dir(entries) => {
                collect_target_files(pair.0.as_str(), entries, &mut present);
            },
            RootFound::File => {
                present.push(pair.0.clone());
                assert(text::texts(present@) =~= before.push(pair.0@));
            },
            RootFound::Nothing => {},
        }
        assert(text::texts(present@) =~= before + root_files(found@[i as int].0@, found@[i as int].1));
        i += 1;
    }
    assert(found@.take(n as int) =~= found@);
    let ghost all = text::texts(present@);
    let mut out: Vec<String> = Vec::new();
    let m: usize = present.len();
    let mut j: usize = 0;
    assert(all.take(0) =~= Seq::<Seq<char>>::empty());
    assert(text::texts(out@) =~= Seq::<Seq<char>>::empty());
    while j < m
        invariant
            j <= m,
            m == present.len(),
            all == text::texts(present@),
            text::texts(out@) == strays(manifest.files@, all.take(j as int)),
        decreases m - j,
    {
        let ghost before = text::texts(out@);
        proof {
            assert(all.take(j as int + 1).drop_last() =~= all.take(j as int));
            assert(all.take(j as int + 1).last() == present@[j as int]@);
        }
        if !is_recorded(manifest, present[j].as_str()) {
            out.push(present[j].clone());
            assert(text::texts(out@) =~= before.push(present@[j as int]@));
        }
        j += 1;
    }
    assert(all.take(m as int) =~= all);
    out
}

/// No root is passed over: of the files that stand at a root or below it, all that were
/// not recorded are stray, and no other.
pub proof fn law_every_root_is_searched(manifest: Manifest, found: Seq<(String, RootFound)>, root: Seq<char>)
    requires
        walks_all(found, manifest),
        is_root(manifest, root),
    ensures
        exists|i: int| 0 <= i < found.len() && (#[trigger] found[i]).0@ == root,
        forall|i: int, path: Seq<char>|
            0 <= i < found.len() && (#[trigger] found[i]).0@ == root && root_files(root, found[i].1).contains(path) ==> (
            #[trigger] strays(manifest.files@, present_files(found)).contains(path) <==> !recorded(manifest.files@, path)),
{
    assert(found_roots(found).contains(root));
    let k = choose|k: int| 0 <= k < found_roots(found).len() && found_roots(found)[k] == root;
    assert(found[k].0@ == root);
    assert forall|i: int, path: Seq<char>|
        0 <= i < found.len() && (#[trigger] found[i]).0@ == root && root_files(root, found[i].1).contains(path) implies (
    #[trigger] strays(manifest.files@, present_files(found)).contains(path) <==> !recorded(manifest.files@, path)) by {
        lemma_present(found, i, path);
        law_strays_are_the_unrecorded(manifest.files@, present_files(found), path);
    }
}

proof fn lemma_present(found: Seq<(String, RootFound)>, i: int, path: Seq<char>)
    requires
        0 <= i < found.len(),
        root_files(found[i].0@, found[i].1).contains(path),
    ensures
        present_files(found).contains(path),
    decreases found.len(),
{
    let front = present_files(found.drop_last());
    let back = root_files(found.last().0@, found.last().1);
    if i < found.len() - 1 {
        lemma_present(found.drop_last(), i, path);
        let k = choose|k: int| 0 <= k < front.len() && front[k] == path;
        assert((front + back)[k] == path);
    } else {
        let k = choose|k: int| 0 <= k < back.len() && back[k] == path;
        assert((front + back)[front.len() + k] == path);
    }
}

/// A stray file is present and was not recorded, and every such file is stray: what
/// was recorded is never removed, and what stays was recorded.
pub proof fn law_strays_are_the_unrecorded(files: Seq<ManifestFile>, present: Seq<Seq<char>>, path: Seq<char>)
    ensures
        strays(files, present).contains(path) <==> present.contains(path) && !recorded(files, path),
    decreases present.len(),
{
    if present.len() > 0 {
        let front = present.drop_last();
        law_strays_are_the_unrecorded(files, front, path);
        let rest = strays(files, front);
        if present.contains(path) {
            let k = choose|k: int| 0 <= k < present.len() && present[k] == path;
            if k < front.len() {
                assert(front[k] == path);
            }
        }
        if front.contains(path) {
            let k = choose|k: int| 0 <= k < front.len() && front[k] == path;
            assert(present[k] == path);
        }
        if !recorded(files, present.last()) {
            let all = rest.push(present.last());
            if rest.contains(path) {
                let k = choose|k: int| 0 <= k < rest.len() && rest[k] == path;
                assert(all[k] == path);
            }
            if all.contains(path) {
                let k = choose|k: int| 0 <= k < all.len() && all[k] == path;
                if k < rest.len() {
                    assert(rest[k] == path);
                } else {
                    assert(path == present.last());
                    assert(present[present.len() - 1] == path);
                }
            }
            if path == present.last() {
                assert(all[rest.len() as int] == path);
                assert(present[present.len() - 1] == path);
            }
        }
    }
}

/// The roots that are searched are the first components of the recorded directories and
/// files, all of them and no other, each once.
pub proof fn law_roots_of_what_was_recorded(manifest: &Manifest, r: Vec<String>)
    requires
        call_ensures(stray_roots, (manifest,), r),
    ensures
        forall|i: int|
            0 <= i < manifest.paths.len() && paths::root_of((#[trigger] manifest.paths[i]).path@) is Some ==> text::texts(
                r@,
            ).contains(paths::root_of(manifest.paths[i].path@).unwrap()),
        forall|i: int|
            0 <= i < manifest.files.len() && paths::root_of((#[trigger] manifest.files[i]).path@) is Some ==> text::texts(
                r@,
            ).contains(paths::root_of(manifest.files[i].path@).unwrap()),
        forall|root: Seq<char>| #[trigger]
            text::texts(r@).contains(root) ==> (exists|i: int|
                0 <= i < manifest.paths.len() && paths::root_of((#[trigger] manifest.paths[i]).path@) == Some(root)) || (exists|i: int|
                0 <= i < manifest.files.len() && paths::root_of((#[trigger] manifest.files[i]).path@) == Some(root)),
        forall|i: int, j: int| 0 <= i < j < r.len() ==> (#[trigger] r[i])@ != (#[trigger] r[j])@,
{
    let v = text::texts(r@);
    assert forall|i: int| 0 <= i < manifest.paths.len() && paths::root_of((#[trigger] manifest.paths[i]).path@) is Some implies v.contains(
        paths::root_of(manifest.paths[i].path@).unwrap(),
    ) by {
        assert(is_root(*manifest, paths::root_of(manifest.paths[i].path@).unwrap()));
    }
    assert forall|i: int| 0 <= i < manifest.files.len() && paths::root_of((#[trigger] manifest.files[i]).path@) is Some implies v.contains(
        paths::root_of(manifest.files[i].path@).unwrap(),
    ) by {
        assert(is_root(*manifest, paths::root_of(manifest.files[i].path@).unwrap()));
    }
    assert forall|i: int, j: int| 0 <= i < j < r.len() implies (#[trigger] r[i])@ != (#[trigger] r[j])@ by {
        assert(textmap::text_lt(v[i], v[j]));
        textmap::lemma_lt_irreflexive(v[i]);
    }
}

/// The regular files below a directory: a further file is one more, under its name in the
/// directory; a further directory adds what stands below it; links and special files add
/// nothing.
pub proof fn law_files_below_a_directory(dir: Seq<char>, entries: Seq<TargetEntry>, entry: TargetEntry)
    ensures
        files_below(dir, Seq::<TargetEntry>::empty()).len() == 0,
        entry matches TargetEntry::File { name } ==> files_below(dir, entries.push(entry)) == files_below(dir, entries).push(
            paths::below(dir, name@),
        ),
        entry matches TargetEntry::Dir { name, entries: inner } ==> files_below(dir, entries.push(entry)) == files_below(
            dir,
            entries,
        ) + files_below(paths::below(dir, name@), inner@),
        entry matches TargetEntry::Other { .. } ==> files_below(dir, entries.push(entry)) == files_below(dir, entries),
{
    let all = entries.push(entry);
    assert(all.drop_last() =~= entries);
    assert(all.last() == entry);
    assert(files_below(dir, all) == files_below(dir, entries) + entry_files(dir, entry));
    assert(files_below(dir, entries) + Seq::<Seq<char>>::empty() =~= files_below(dir, entries));
    if let TargetEntry::File { name } = entry {
        assert(files_below(dir, entries) + seq![paths::below(dir, name@)] =~= files_below(dir, entries).push(
            paths::below(dir, name@),
        ));
    }
}

/// What is removed from the target: a root that is a file, and a file below a root that is
/// a directory, exactly where no file was recorded under its path, a backslash counting as
/// a slash. What is removed was found there.
pub proof fn law_unrecorded_files_go(manifest: &Manifest, found: &Vec<(String, RootFound)>, r: Vec<String>, i: int, path: Seq<char>)
    requires
        call_ensures(stray_files, (manifest, found), r),
        0 <= i < found.len(),
        match found[i].1 {
            RootFound::File => path == found[i].0@,
            RootFound::Dir(entries) => files_below(found[i].0@, entries@).contains(path),
            RootFound::Nothing => false,
        },
    ensures
        text::texts(r@).contains(path) <==> forall|k: int|
            0 <= k < manifest.files.len() ==> (#[trigger] manifest.files[k]).path@ != Seq::new(
                path.len(),
                |c: int|
                    if path[c] == '\\' {
                        '/'
                    } else {
                        path[c]
                    },
            ),
{
    let wanted = Seq::new(
        path.len(),
        |c: int|
            if path[c] == '\\' {
                '/'
            } else {
                path[c]
            },
    );
    assert(text::replaced(path, '\\', '/') =~= wanted);
    if found[i].1 is File {
        assert(seq![found[i].0@][0] == path);
    }
    assert(root_files(found@[i].0@, found@[i].1).contains(path));
    lemma_present(found@, i, path);
    law_strays_are_the_unrecorded(manifest.files@, present_files(found@), path);
    assert(recorded(manifest.files@, path) <==> exists|k: int|
        0 <= k < manifest.files.len() && (#[trigger] manifest.files@[k]).path@ == wanted);
}

/// Nothing is removed but what was found at a root or below it.
pub proof fn law_only_found_files_go(manifest: &Manifest, found: &Vec<(String, RootFound)>, r: Vec<String>, path: Seq<char>)
    requires
        call_ensures(stray_files, (manifest, found), r),
        text::texts(r@).contains(path),
    ensures
        exists|i: int|
            0 <= i < found.len() && match (#[trigger] found[i]).1 {
                RootFound::File => path == found[i].0@,
                RootFound::Dir(entries) => files_below(found[i].0@, entries@).contains(path),
                RootFound::Nothing => false,
            },
{
    law_strays_are_the_unrecorded(manifest.files@, present_files(found@), path);
    lemma_found_somewhere(found@, path);
    let i = choose|i: int| 0 <= i < found.len() && root_files((#[trigger] found@[i]).0@, found@[i].1).contains(path);
    assert(found[i] == found@[i]);
}

proof fn lemma_found_somewhere(found: Seq<(String, RootFound)>, path: Seq<char>)
    requires
        present_files(found).contains(path),
    ensures
        exists|i: int| 0 <= i < found.len() && root_files((#[trigger] found[i]).0@, found[i].1).contains(path),
    decreases found.len(),
{
    if found.len() > 0 {
        let front = present_files(found.drop_last());
        let back = root_files(found.last().0@, found.last().1);
        let k = choose|k: int| 0 <= k < (front + back).len() && (front + back)[k] == path;
        if k < front.len() {
            assert(front[k] == path);
            lemma_found_somewhere(found.drop_last(), path);
            let i = choose|i: int|
                0 <= i < found.drop_last().len() && root_files((#[trigger] found.drop_last()[i]).0@, found.drop_last()[i].1).contains(
                    path,
                );
            assert(found[i] == found.drop_last()[i]);
        } else {
            assert(back[k - front.len()] == path);
            assert(root_files(found[found.len() - 1].0@, found[found.len() - 1].1).contains(path));
        }
    }
}

/// What stood in the list stays in front; behind it come the paths of the files, those of
/// each entry behind those of the entries before it.
pub proof fn law_files_are_collected(
    dir: &str,
    entries: &Vec<TargetEntry>,
    out: &mut Vec<String>,
    front: &Vec<TargetEntry>,
    list: &mut Vec<String>,
)
    requires
        call_ensures(collect_target_files, (dir, entries, out), ()),
        entries.len() > 0,
        front@ == entries@.drop_last(),
        call_ensures(collect_target_files, (dir, front, list), ()),
        old(list)@ == old(out)@,
    ensures
        final(out)@.len() >= old(out)@.len(),
        text::texts(final(out)@).take(old(out)@.len() as int) == text::texts(old(out)@),
        text::texts(final(out)@).take(final(list)@.len() as int) == text::texts(final(list)@),
        entries@.last() matches TargetEntry::File { name } ==> text::texts(final(out)@) == text::texts(final(list)@).push(
            paths::below(dir@, name@),
        ),
        entries@.last() is Other ==> text::texts(final(out)@) == text::texts(final(list)@),
{
    let all = text::texts(final(out)@);
    let some = text::texts(final(list)@);
    assert(all.len() == final(out)@.len());
    assert(all =~= some + entry_files(dir@, entries@.last()));
    assert(all.take(some.len() as int) =~= some);
    assert(all.take(old(out)@.len() as int) =~= text::texts(old(out)@));
}

}
