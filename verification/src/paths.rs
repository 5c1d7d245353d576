//! Where things lie in a repository, and the parts of a path.
use vstd::prelude::*;

use crate::text;
use crate::text::{chars, join_text, print_unsigned, split_text, starts_with, text_eq};

verus! {

/// `backup/<stanza>/backup.info`.
pub open spec fn backup_info_at(stanza: Seq<char>) -> Seq<char> {
    "backup/"@ + stanza + "/backup.info"@
}

/// `archive/<stanza>/archive.info`.
pub open spec fn archive_info_at(stanza: Seq<char>) -> Seq<char> {
    "archive/"@ + stanza + "/archive.info"@
}

/// `archive/<stanza>`.
pub open spec fn archive_dir_at(stanza: Seq<char>) -> Seq<char> {
    "archive/"@ + stanza
}

/// `backup/<stanza>`.
pub open spec fn backup_dir_at(stanza: Seq<char>) -> Seq<char> {
    "backup/"@ + stanza
}

/// `backup/<stanza>/<label>`.
pub open spec fn backup_root_at(stanza: Seq<char>, label: Seq<char>) -> Seq<char> {
    "backup/"@ + stanza + "/"@ + label
}

/// `backup/<stanza>/<label>/<file>`.
pub open spec fn backup_file_at(stanza: Seq<char>, label: Seq<char>, file: Seq<char>) -> Seq<char> {
    backup_root_at(stanza, label) + "/"@ + file
}

/// `backup/<stanza>/<label>/backup.manifest`.
pub open spec fn manifest_at(stanza: Seq<char>, label: Seq<char>) -> Seq<char> {
    backup_root_at(stanza, label) + "/backup.manifest"@
}

/// `backup/<stanza>/<label>/bundle/<id>`.
pub open spec fn bundle_at(stanza: Seq<char>, label: Seq<char>, id: u64) -> Seq<char> {
    backup_root_at(stanza, label) + "/bundle/"@ + text::decimal(id as nat)
}

/// `backup/<stanza>/backup.info`.
pub fn backup_info_path(stanza: &str) -> (r: String)
    ensures
        r@ == backup_info_at(stanza@),
{
    crate::text::cat3("backup/", stanza, "/backup.info")
}

/// `archive/<stanza>/archive.info`.
pub fn archive_info_path(stanza: &str) -> (r: String)
    ensures
        r@ == archive_info_at(stanza@),
{
    crate::text::cat3("archive/", stanza, "/archive.info")
}

/// `archive/<stanza>`.
pub fn archive_dir(stanza: &str) -> (r: String)
    ensures
        r@ == archive_dir_at(stanza@),
{
    let mut r = "archive/".to_owned();
    r.append(stanza);
    r
}

/// `backup/<stanza>`.
pub fn backup_dir(stanza: &str) -> (r: String)
    ensures
        r@ == backup_dir_at(stanza@),
{
    let mut r = "backup/".to_owned();
    r.append(stanza);
    r
}

/// `backup/<stanza>/<label>`.
pub fn backup_root(stanza: &str, label: &str) -> (r: String)
    ensures
        r@ == backup_root_at(stanza@, label@),
{
    let mut r = crate::text::cat3("backup/", stanza, "/");
    r.append(label);
    r
}

/// `backup/<stanza>/<label>/<file>`.
pub fn backup_file_path(stanza: &str, label: &str, file: &str) -> (r: String)
    ensures
        r@ == backup_file_at(stanza@, label@, file@),
{
    let mut r = backup_root(stanza, label);
    r.append("/");
    r.append(file);
    r
}

/// `backup/<stanza>/<label>/backup.manifest`.
pub fn manifest_path(stanza: &str, label: &str) -> (r: String)
    ensures
        r@ == manifest_at(stanza@, label@),
{
    let mut r = backup_root(stanza, label);
    r.append("/backup.manifest");
    r
}

/// `backup/<stanza>/<label>/bundle/<id>`.
pub fn bundle_object_path(stanza: &str, label: &str, id: u64) -> (r: String)
    ensures
        r@ == bundle_at(stanza@, label@, id),
{
    let mut r = backup_root(stanza, label);
    r.append("/bundle/");
    r.append(print_unsigned(id).as_str());
    r
}

/// Whether the piece at place `i` of a path is one of its components: empty
/// pieces and `.` are not, but for a `.` that a relative path begins with.
pub open spec fn is_component(pieces: Seq<Seq<char>>, i: int) -> bool {
    &&& 0 <= i < pieces.len()
    &&& pieces[i].len() > 0
    &&& pieces[i] == seq!['.'] ==> i == 0
}

/// The last of the first `n` pieces that is a component.
pub open spec fn last_component(pieces: Seq<Seq<char>>, n: int) -> Option<Seq<char>>
    decreases n,
{
    if n <= 0 {
        None
    } else if is_component(pieces, n - 1) {
        Some(pieces[n - 1])
    } else {
        last_component(pieces, n - 1)
    }
}

/// The name that a path ends in; a path that ends in `..`, or holds no component
/// but a leading `.`, has none.
pub open spec fn name_of(path: Seq<char>) -> Option<Seq<char>> {
    let pieces = text::split(path, '/');
    match last_component(pieces, pieces.len() as int) {
        Some(c) => if c == seq!['.'] || c == seq!['.', '.'] {
            None
        } else {
            Some(c)
        },
        None => None,
    }
}

/// The name that a path ends in.
pub fn file_name(path: &str) -> (r: Option<String>)
    ensures
        crate::config::opt_text(r) == name_of(path@),
{
    proof {
        reveal_strlit(".");
        reveal_strlit("..");
        assert("."@ =~= seq!['.']);
        assert(".."@ =~= seq!['.', '.']);
    }
    let pieces = split_text(path, '/');
    let ghost model = text::split(path@, '/');
    let mut i: usize = pieces.len();
    while i > 0
        invariant
            i <= pieces.len(),
            text::texts(pieces@) == model,
            "."@ == seq!['.'],
            ".."@ == seq!['.', '.'],
            last_component(model, model.len() as int) == last_component(model, i as int),
            model == text::split(path@, '/'),
        decreases i,
    {
        i -= 1;
        let piece = pieces[i].as_str();
        assert(piece@ == model[i as int]);
        let dot: bool = text_eq(piece, ".");
        if !piece.is_empty() && (i == 0 || !dot) {
            if dot || text_eq(piece, "..") {
                return None;
            }
            return Some(piece.to_owned());
        }
    }
    None
}

/// The first component of a path: `/` where it is absolute.
pub open spec fn root_of(path: Seq<char>) -> Option<Seq<char>> {
    if path.len() == 0 {
        None
    } else if path[0] == '/' {
        Some(seq!['/'])
    } else {
        Some(text::split(path, '/')[0])
    }
}

/// The first component of a path.
pub fn first_component(path: &str) -> (r: Option<String>)
    ensures
        crate::config::opt_text(r) == root_of(path@),
{
    let cs = chars(path);
    if cs.len() == 0 {
        return None;
    }
    if cs[0] == '/' {
        proof {
            reveal_strlit("/");
            assert("/"@ =~= seq!['/']);
        }
        return Some("/".to_owned());
    }
    let pieces = split_text(path, '/');
    assert(text::texts(pieces@)[0] == text::split(path@, '/')[0]);
    Some(pieces[0].clone())
}

/// `name` below the directory `base`; an absolute `name` stands by itself.
pub open spec fn below(base: Seq<char>, name: Seq<char>) -> Seq<char> {
    if name.len() > 0 && name[0] == '/' {
        name
    } else if base.len() == 0 || base.last() == '/' {
        base + name
    } else {
        base + seq!['/'] + name
    }
}

/// `name` below the directory `base`.
pub fn join_path(base: &str, name: &str) -> (r: String)
    ensures
        r@ == below(base@, name@),
{
    let b = chars(base);
    let n = chars(name);
    if n.len() > 0 && n[0] == '/' {
        return name.to_owned();
    }
    let mut r = base.to_owned();
    if b.len() > 0 && b[b.len() - 1] != '/' {
        proof {
            reveal_strlit("/");
            assert("/"@ =~= seq!['/']);
        }
        r.append("/");
    }
    r.append(name);
    r
}

/// The place of the last of the first `n` pieces that is a component.
pub open spec fn last_place(pieces: Seq<Seq<char>>, n: int) -> Option<int>
    decreases n,
{
    if n <= 0 {
        None
    } else if is_component(pieces, n - 1) {
        Some(n - 1)
    } else {
        last_place(pieces, n - 1)
    }
}

/// The directory that a path lies in: what stands before its last component, `/`
/// for the first of an absolute path, nothing for the first of a relative one. A
/// path without a component lies in none.
pub open spec fn parent_of(path: Seq<char>) -> Option<Seq<char>> {
    let pieces = text::split(path, '/');
    match last_place(pieces, pieces.len() as int) {
        None => None,
        Some(k) => match last_place(pieces, k) {
            Some(j) => Some(text::joined(pieces.take(j + 1), '/')),
            None => if path[0] == '/' {
                Some(seq!['/'])
            } else {
                Some(Seq::<char>::empty())
            },
        },
    }
}

fn find_place(pieces: &Vec<String>, n: usize) -> (r: Option<usize>)
    requires
        n <= pieces.len(),
    ensures
        match r {
            Some(i) => i < n && last_place(text::texts(pieces@), n as int) == Some(i as int),
            None => last_place(text::texts(pieces@), n as int) is None,
        },
{
    let ghost model = text::texts(pieces@);
    proof {
        reveal_strlit(".");
        assert("."@ =~= seq!['.']);
    }
    let mut i: usize = n;
    while i > 0
        invariant
            i <= n,
            n <= pieces.len(),
            model == text::texts(pieces@),
            "."@ == seq!['.'],
            last_place(model, n as int) == last_place(model, i as int),
        decreases i,
    {
        i -= 1;
        let piece = pieces[i].as_str();
        assert(piece@ == model[i as int]);
        if !piece.is_empty() && (i == 0 || !text_eq(piece, ".")) {
            return Some(i);
        }
    }
    None
}

/// The directory that a path lies in.
pub fn parent_path(path: &str) -> (r: Option<String>)
    ensures
        crate::config::opt_text(r) == parent_of(path@),
{
    let pieces = split_text(path, '/');
    let k: usize = match find_place(&pieces, pieces.len()) {
        Some(k) => k,
        None => return None,
    };
    proof {
        reveal_strlit("/");
        reveal_strlit("");
        assert("/"@ =~= seq!['/']);
        assert(""@ =~= Seq::<char>::empty());
    }
    match find_place(&pieces, k) {
        Some(j) => Some(join_text(&pieces, j + 1, "/")),
        None => {
            if starts_with(path, "/") {
                assert(path@[0] == path@.take(1)[0]);
                Some("/".to_owned())
            } else {
                proof {
                    if path@.len() > 0 && path@[0] == '/' {
                        assert(path@.take(1) =~= seq!['/']);
                    }
                    if path@.len() == 0 {
                        assert(text::split(path@, '/') =~= seq![Seq::<char>::empty()]);
                        assert(!is_component(text::split(path@, '/'), 0));
                        assert(last_place(text::split(path@, '/'), 0) is None);
                    }
                }
                Some("".to_owned())
            }
        },
    }
}

/// Where a file goes: the directory that holds it, none for that of all files, and
/// its name there.
#[derive(Debug, Clone, PartialEq, Eq)]
pub struct Destination {
    pub parent: Option<String>,
    pub name: String,
}

/// The directory that is to hold a file; none for that of all files.
pub open spec fn holding_dir(rel: Seq<char>) -> Option<Seq<char>> {
    match parent_of(rel) {
        Some(p) => if p.len() > 0 {
            Some(p)
        } else {
            None
        },
        None => None,
    }
}

/// The directory that is to hold the file `rel`.
pub fn holding_path(rel: &str) -> (r: Option<String>)
    ensures
        crate::config::opt_text(r) == holding_dir(rel@),
{
    match parent_path(rel) {
        Some(p) => if p.as_str().is_empty() {
            None
        } else {
            Some(p)
        },
        None => None,
    }
}

/// Where the file `rel` goes; an error where the path ends in no name.
pub fn destination(rel: &str) -> (r: Result<Destination, crate::config::CommandError>)
    ensures
        match name_of(rel@) {
            Some(name) => r matches Ok(d) && d.name@ == name && crate::config::opt_text(d.parent) == holding_dir(rel@),
            None => r matches Err(e) && e.is_other("cannot resolve absolute path for "@ + rel@),
        },
{
    let name = match file_name(rel) {
        Some(name) => name,
        None => {
            let mut m = "cannot resolve absolute path for ".to_owned();
            m.append(rel);
            return Err(crate::config::CommandError::Other(m));
        },
    };
    let parent = holding_path(rel);
    Ok(Destination { parent, name })
}

/// Where things lie in a repository: under `backup` and `archive`, by stanza, the parts of
/// a backup below its label, a bundle under its number in decimal.
pub proof fn law_places(
    stanza: &str,
    label: &str,
    file: &str,
    id: u64,
    infos: (String, String),
    dirs: (String, String),
    root: String,
    parts: (String, String, String),
)
    requires
        call_ensures(backup_info_path, (stanza,), infos.0),
        call_ensures(archive_info_path, (stanza,), infos.1),
        call_ensures(backup_dir, (stanza,), dirs.0),
        call_ensures(archive_dir, (stanza,), dirs.1),
        call_ensures(backup_root, (stanza, label), root),
        call_ensures(backup_file_path, (stanza, label, file), parts.0),
        call_ensures(manifest_path, (stanza, label), parts.1),
        call_ensures(bundle_object_path, (stanza, label, id), parts.2),
    ensures
        dirs.0@ == "backup/"@ + stanza@,
        dirs.1@ == "archive/"@ + stanza@,
        infos.0@ == dirs.0@ + "/backup.info"@,
        infos.1@ == dirs.1@ + "/archive.info"@,
        root@ == dirs.0@ + "/"@ + label@,
        parts.0@ == root@ + "/"@ + file@,
        parts.1@ == root@ + "/backup.manifest"@,
        parts.2@.len() > (root@ + "/bundle/"@).len(),
        parts.2@.take((root@ + "/bundle/"@).len() as int) == root@ + "/bundle/"@,
        text::all_digits(parts.2@.skip((root@ + "/bundle/"@).len() as int)),
        text::digits_value(parts.2@.skip((root@ + "/bundle/"@).len() as int)) == id,
{
    text::law_decimal_reads_back(id as nat);
    let front = root@ + "/bundle/"@;
    let back = text::decimal(id as nat);
    assert(parts.2@ == front + back);
    assert((front + back).take(front.len() as int) =~= front);
    assert((front + back).skip(front.len() as int) =~= back);
}

/// Whether a piece of a path is skipped when its last name is looked for: an empty one,
/// and a `.` anywhere but in front.
pub open spec fn is_skipped(pieces: Seq<Seq<char>>, i: int) -> bool {
    pieces[i] == Seq::<char>::empty() || (pieces[i] == "."@ && i > 0)
}

proof fn lemma_last_component(pieces: Seq<Seq<char>>, n: int)
    requires
        n <= pieces.len(),
    ensures
        match last_component(pieces, n) {
            Some(c) => exists|i: int|
                0 <= i < n && #[trigger] pieces[i] == c && !is_skipped(pieces, i) && last_place(pieces, n) == Some(i) && (forall|j: int|
                    i < j < n ==> #[trigger] is_skipped(pieces, j)),
            None => last_place(pieces, n) is None && forall|j: int| 0 <= j < n ==> #[trigger] is_skipped(pieces, j),
        },
    decreases n,
{
    if n > 0 {
        reveal_strlit(".");
        assert("."@ =~= seq!['.']);
        if pieces[n - 1].len() == 0 {
            assert(pieces[n - 1] =~= Seq::<char>::empty());
        }
        assert(is_component(pieces, n - 1) <==> !is_skipped(pieces, n - 1));
        if !is_component(pieces, n - 1) {
            lemma_last_component(pieces, n - 1);
        } else {
            assert(pieces[n - 1] == last_component(pieces, n).unwrap());
        }
    }
}

/// The name of a path is the last of its pieces that is not skipped, unless that is `.`
/// or `..`.
pub proof fn law_name_is_last_piece(path: &str, r: Option<String>)
    requires
        call_ensures(file_name, (path,), r),
    ensures
        ({
            let pieces = text::split(path@, '/');
            match r {
                Some(name) => name@ != "."@ && name@ != ".."@ && exists|i: int|
                    0 <= i < pieces.len() && #[trigger] pieces[i] == name@ && !is_skipped(pieces, i) && (forall|j: int|
                        i < j < pieces.len() ==> #[trigger] is_skipped(pieces, j)),
                None => forall|i: int|
                    0 <= i < pieces.len() && !is_skipped(pieces, i) && (forall|j: int|
                        i < j < pieces.len() ==> #[trigger] is_skipped(pieces, j)) ==> #[trigger] pieces[i] == "."@ || pieces[i]
                        == ".."@,
            }
        }),
{
    let pieces = text::split(path@, '/');
    reveal_strlit(".");
    reveal_strlit("..");
    assert("."@ =~= seq!['.']);
    assert(".."@ =~= seq!['.', '.']);
    lemma_last_component(pieces, pieces.len() as int);
    if r is None {
        assert forall|i: int|
            0 <= i < pieces.len() && !is_skipped(pieces, i) && (forall|j: int|
                i < j < pieces.len() ==> #[trigger] is_skipped(pieces, j)) implies #[trigger] pieces[i] == "."@ || pieces[i]
            == ".."@ by {
            let c = last_component(pieces, pieces.len() as int).unwrap();
            let k = choose|k: int|
                0 <= k < pieces.len() && #[trigger] pieces[k] == c && !is_skipped(pieces, k) && last_place(
                    pieces,
                    pieces.len() as int,
                ) == Some(k) && (forall|j: int| k < j < pieces.len() ==> #[trigger] is_skipped(pieces, j));
            if i < k {
                assert(is_skipped(pieces, k));
            } else if k < i {
                assert(is_skipped(pieces, i));
            }
        }
    }
}

/// What is put below a directory is named by its own name and lies in that directory.
pub proof fn law_named_in_its_directory(dir: Seq<char>, name: Seq<char>, path: &str, r: Option<String>, parent: Option<String>)
    requires
        path@ == dir + "/"@ + name,
        name.len() > 0,
        !name.contains('/'),
        name != "."@,
        call_ensures(file_name, (path,), r),
        call_ensures(parent_path, (path,), parent),
    ensures
        name != ".."@ ==> (r is Some && r.unwrap()@ == name),
        name == ".."@ ==> r is None,
        parent is Some,
        dir.len() == 0 ==> parent.unwrap()@ == "/"@,
        dir.len() > 0 && dir.last() != '/' && dir.last() != '.' ==> parent.unwrap()@ == dir,
{
    reveal_strlit("/");
    reveal_strlit(".");
    reveal_strlit("..");
    assert("/"@ =~= seq!['/']);
    assert("."@ =~= seq!['.']);
    assert(".."@ =~= seq!['.', '.']);
    assert(path@ =~= dir.push('/') + name);
    text::law_split_at_separator(dir, name, '/');
    text::law_split_without_separator(name, '/');
    text::lemma_split_nonempty(dir, '/');
    text::law_split_joins(dir, '/');
    let front = text::split(dir, '/');
    let pieces = text::split(path@, '/');
    let k = front.len() as int;
    assert(pieces == front + seq![name]);
    assert(pieces[k] == name);
    assert(is_component(pieces, k));
    assert(pieces.len() == k + 1);
    assert(last_component(pieces, k + 1) == Some(name));
    assert(last_place(pieces, k + 1) == Some(k));
    if dir.len() == 0 {
        assert(dir =~= Seq::<char>::empty());
        assert(front =~= seq![Seq::<char>::empty()]);
        assert(pieces[0] == front[0]);
        assert(!is_component(pieces, 0));
        assert(last_place(pieces, 0) is None);
        assert(last_place(pieces, 1) is None);
        assert(path@[0] == '/');
    } else if dir.last() != '/' && dir.last() != '.' {
        let before = text::split(dir.drop_last(), '/');
        text::lemma_split_nonempty(dir.drop_last(), '/');
        assert(front[k - 1] == before.last().push(dir.last()));
        assert(pieces[k - 1] == front[k - 1]);
        assert(pieces[k - 1].last() == dir.last());
        assert(is_component(pieces, k - 1));
        assert(last_place(pieces, k) == Some(k - 1));
        assert(pieces.take(k) =~= front);
    } else {
        lemma_last_component(pieces, k);
    }
}

/// A path of one name lies in no directory of its own: what it lies in is the empty path.
pub proof fn law_single_name(path: &str, r: Option<String>, parent: Option<String>, holding: Option<String>)
    requires
        path@.len() > 0,
        !path@.contains('/'),
        call_ensures(file_name, (path,), r),
        call_ensures(parent_path, (path,), parent),
        call_ensures(holding_path, (path,), holding),
    ensures
        path@ != "."@ && path@ != ".."@ ==> (r is Some && r.unwrap()@ == path@),
        parent is Some && parent.unwrap()@.len() == 0,
        holding is None,
{
    reveal_strlit(".");
    reveal_strlit("..");
    assert("."@ =~= seq!['.']);
    assert(".."@ =~= seq!['.', '.']);
    text::law_split_without_separator(path@, '/');
    let pieces = text::split(path@, '/');
    assert(pieces[0] == path@);
    assert(is_component(pieces, 0));
    assert(last_component(pieces, 1) == Some(path@));
    assert(last_place(pieces, 1) == Some(0int));
    assert(last_place(pieces, 0) is None);
    if path@[0] == '/' {
        assert(path@.contains('/'));
    }
}

/// A slash at the end changes neither the name of a path nor the directory it lies in.
pub proof fn law_trailing_slash(
    path: &str,
    slashed: &str,
    names: (Option<String>, Option<String>),
    parents: (Option<String>, Option<String>),
)
    requires
        slashed@ == path@ + "/"@,
        call_ensures(file_name, (path,), names.0),
        call_ensures(file_name, (slashed,), names.1),
        call_ensures(parent_path, (path,), parents.0),
        call_ensures(parent_path, (slashed,), parents.1),
    ensures
        crate::config::opt_text(names.0) == crate::config::opt_text(names.1),
        crate::config::opt_text(parents.0) == crate::config::opt_text(parents.1),
{
    reveal_strlit("/");
    assert("/"@ =~= seq!['/']);
    let a = text::split(path@, '/');
    let b = text::split(slashed@, '/');
    assert(slashed@.drop_last() =~= path@);
    assert(slashed@.last() == '/');
    text::lemma_split_nonempty(path@, '/');
    assert(b == a.push(Seq::<char>::empty()));
    let n = a.len() as int;
    assert(!is_component(b, n));
    lemma_same_places(a, b, n);
    lemma_last_component(a, n);
    match last_place(a, n) {
        Some(k) => {
            lemma_same_places(a, b, k);
            lemma_last_component(a, k);
            match last_place(a, k) {
                Some(j) => {
                    assert(a.take(j + 1) =~= b.take(j + 1));
                },
                None => {
                    if path@.len() == 0 {
                        assert(a =~= seq![Seq::<char>::empty()]);
                        assert(!is_component(a, 0));
                        assert(last_place(a, 0) is None);
                    }
                    assert(slashed@[0] == path@[0]);
                },
            }
        },
        None => {},
    }
}

proof fn lemma_same_places(a: Seq<Seq<char>>, b: Seq<Seq<char>>, n: int)
    requires
        n <= a.len(),
        n <= b.len(),
        forall|i: int| 0 <= i < n ==> a[i] == b[i],
    ensures
        last_place(a, n) == last_place(b, n),
        last_component(a, n) == last_component(b, n),
    decreases n,
{
    if n > 0 {
        assert(is_component(a, n - 1) == is_component(b, n - 1));
        lemma_same_places(a, b, n - 1);
    }
}

/// The first component of a path is what stands before its first slash, `/` for an
/// absolute path; an empty path has none.
pub proof fn law_first_component(path: &str, r: Option<String>)
    requires
        call_ensures(first_component, (path,), r),
    ensures
        path@.len() == 0 <==> r is None,
        path@.len() > 0 && path@[0] == '/' ==> r.unwrap()@ == "/"@,
        path@.len() > 0 && path@[0] != '/' ==> r.unwrap()@.len() > 0 && !r.unwrap()@.contains('/') && (path@ == r.unwrap()@
            || path@.len() > r.unwrap()@.len() && path@.take(r.unwrap()@.len() as int) == r.unwrap()@ && path@[r.unwrap()@.len() as int]
            == '/'),
{
    reveal_strlit("/");
    assert("/"@ =~= seq!['/']);
    text::law_first_piece(path@, '/');
    text::law_split_joins(path@, '/');
    text::lemma_split_nonempty(path@, '/');
    let first = text::split(path@, '/')[0];
    if path@.len() > 0 && path@[0] != '/' && first.len() == 0 {
        assert(path@[0] == '/');
    }
}

/// Below a directory a name follows after one slash; after none where the directory ends
/// in one or is empty; a name that is absolute stands by itself.
pub proof fn law_below_a_directory(base: &str, name: &str, r: String)
    requires
        call_ensures(join_path, (base, name), r),
    ensures
        name@.len() > 0 && name@[0] == '/' ==> r@ == name@,
        !(name@.len() > 0 && name@[0] == '/') && (base@.len() == 0 || base@.last() == '/') ==> r@ == base@ + name@,
        !(name@.len() > 0 && name@[0] == '/') && base@.len() > 0 && base@.last() != '/' ==> r@ == base@ + "/"@ + name@,
{
    reveal_strlit("/");
    assert("/"@ =~= seq!['/']);
}

/// A file is put under its name into the directory it lies in, where that is a directory
/// of its own; a path without a name is refused.
pub proof fn law_destination_is_name_and_directory(
    rel: &str,
    name: Option<String>,
    parent: Option<String>,
    holding: Option<String>,
    r: Result<Destination, crate::config::CommandError>,
)
    requires
        call_ensures(file_name, (rel,), name),
        call_ensures(parent_path, (rel,), parent),
        call_ensures(holding_path, (rel,), holding),
        call_ensures(destination, (rel,), r),
    ensures
        holding is Some <==> (parent is Some && parent.unwrap()@.len() > 0),
        holding is Some ==> holding.unwrap()@ == parent.unwrap()@,
        r is Ok <==> name is Some,
        r is Ok ==> r->Ok_0.name@ == name.unwrap()@ && crate::config::opt_text(r->Ok_0.parent) == crate::config::opt_text(holding),
        r is Err ==> r->Err_0.is_other("cannot resolve absolute path for "@ + rel@),
{
}

}
