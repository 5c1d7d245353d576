//! Which databases a restore takes.
use vstd::prelude::*;

use crate::text;
use crate::config::{LoadedConfig, OptionValue};
use crate::text::{chars, listed, split_text, starts_with, text_eq};

verus! {

/// Whether `s` is a number as directories are named by: digits, at least one.
pub open spec fn numeric(s: Seq<char>) -> bool {
    s.len() > 0 && text::all_digits(s)
}

/// Whether `s` is a number as directories are named by.
pub fn is_numeric(s: &str) -> (r: bool)
    ensures
        r == numeric(s@),
{
    let cs = chars(s);
    let n: usize = cs.len();
    let mut i: usize = 0;
    while i < n
        invariant
            i <= n,
            n == s@.len(),
            cs@ == s@,
            forall|k: int| 0 <= k < i ==> text::is_digit(#[trigger] s@[k]),
        decreases n - i,
    {
        if !('0' <= cs[i] && cs[i] <= '9') {
            assert(!text::is_digit(s@[i as int]));
            return false;
        }
        assert(text::is_digit(s@[i as int]));
        i += 1;
    }
    n > 0
}

/// Whether the piece at place `i` of a path is a directory that holds database
/// directories: `base`, or a tablespace's own, `pg_tblspc/…/PG_…`.
pub open spec fn is_database_root(pieces: Seq<Seq<char>>, i: int) -> bool {
    ||| pieces[i] == "base"@
    ||| i >= 2 && pieces[i - 2] == "pg_tblspc"@ && text::has_prefix(pieces[i], "PG_"@)
}

/// Whether the piece at place `i` of a path holds database directories, and one with
/// a file in it follows.
pub open spec fn holds_database(pieces: Seq<Seq<char>>, i: int) -> bool {
    &&& is_database_root(pieces, i)
    &&& i + 2 < pieces.len()
    &&& numeric(pieces[i + 1])
}

/// The first place from `i` on whose piece holds the path's database.
pub open spec fn database_place(pieces: Seq<Seq<char>>, i: int) -> Option<int>
    decreases pieces.len() - i,
{
    if i < 0 || i >= pieces.len() {
        None
    } else if holds_database(pieces, i) {
        Some(i)
    } else {
        database_place(pieces, i + 1)
    }
}

/// The object id of the database that a path belongs to, where it belongs to one.
pub open spec fn oid_of(path: Seq<char>) -> Option<Seq<char>> {
    let pieces = text::split(path, '/');
    match database_place(pieces, 0) {
        Some(i) => Some(pieces[i + 1]),
        None => None,
    }
}

/// The object id of the database that a path belongs to, where it belongs to one.
pub fn database_oid(file_path: &str) -> (r: Option<String>)
    ensures
        crate::config::opt_text(r) == oid_of(file_path@),
{
    let pieces = split_text(file_path, '/');
    let ghost model = text::split(file_path@, '/');
    let n: usize = pieces.len();
    let mut i: usize = 0;
    while i < n
        invariant
            i <= n,
            n == pieces.len(),
            text::texts(pieces@) == model,
            model == text::split(file_path@, '/'),
            database_place(model, 0) == database_place(model, i as int),
        decreases n - i,
    {
        let piece = pieces[i].as_str();
        assert(piece@ == model[i as int]);
        let below_tablespace: bool = i >= 2 && text_eq(pieces[i - 2].as_str(), "pg_tblspc");
        assert(i >= 2 ==> pieces@[i as int - 2]@ == model[i as int - 2]);
        if (text_eq(piece, "base") || (below_tablespace && starts_with(piece, "PG_"))) && i + 1 < n && i + 2 < n {
            assert(pieces@[i as int + 1]@ == model[i as int + 1]);
            if is_numeric(pieces[i + 1].as_str()) {
                return Some(pieces[i + 1].clone());
            }
        }
        i += 1;
    }
    None
}

/// Whether a path is restored under the two lists of databases: what belongs to no
/// database always is; where databases are listed to keep, the listed ones are;
/// where they are listed to drop, the others are.
pub open spec fn kept(path: Seq<char>, keep: Seq<Seq<char>>, drop: Seq<Seq<char>>) -> bool {
    match oid_of(path) {
        None => true,
        Some(oid) => if keep.len() > 0 {
            keep.contains(oid)
        } else if drop.len() > 0 {
            !drop.contains(oid)
        } else {
            true
        },
    }
}

/// Whether a path is restored under the two lists of databases.
pub fn database_included(file_path: &str, keep: &Vec<String>, drop: &Vec<String>) -> (r: bool)
    ensures
        r == kept(file_path@, text::texts(keep@), text::texts(drop@)),
{
    let oid = match database_oid(file_path) {
        Some(oid) => oid,
        None => return true,
    };
    if keep.len() > 0 {
        return listed(keep, oid.as_str());
    }
    if drop.len() > 0 {
        return !listed(drop, oid.as_str());
    }
    true
}

/// The texts of the ungrouped list option `name`; none where it is no list.
pub open spec fn list_of(v: Option<OptionValue>) -> Seq<Seq<char>> {
    match v {
        Some(OptionValue::List(values)) => text::texts(values@),
        _ => Seq::<Seq<char>>::empty(),
    }
}

/// The texts of the ungrouped list option `name`.
pub fn db_list(config: &LoadedConfig, name: &str) -> (r: Vec<String>)
    ensures
        text::texts(r@) == list_of(config.option(name@, None)),
{
    let mut out: Vec<String> = Vec::new();
    if let Some(OptionValue::List(values)) = config.options.get(name, None) {
        let n: usize = values.len();
        let mut i: usize = 0;
        while i < n
            invariant
                i <= n,
                n == values.len(),
                text::texts(out@) == text::texts(values@).take(i as int),
            decreases n - i,
        {
            let ghost before = text::texts(out@);
            out.push(values[i].clone());
            assert(text::texts(out@) =~= before.push(values@[i as int]@));
            assert(text::texts(out@) =~= text::texts(values@).take(i as int + 1));
            i += 1;
        }
        assert(text::texts(values@).take(n as int) =~= text::texts(values@));
    } else {
        assert(text::texts(out@) =~= Seq::<Seq<char>>::empty());
    }
    out
}

/// What belongs to no database is restored whatever the lists say.
pub proof fn law_shared_files_are_kept(path: Seq<char>, keep: Seq<Seq<char>>, drop: Seq<Seq<char>>)
    requires
        oid_of(path) is None,
    ensures
        kept(path, keep, drop),
{
}

/// Keeping a list of databases and dropping the same list part the files of
/// databases: each is restored under exactly one of the two.
pub proof fn law_lists_part_databases(path: Seq<char>, names: Seq<Seq<char>>)
    requires
        oid_of(path) is Some,
        names.len() > 0,
    ensures
        kept(path, names, seq![]) != kept(path, seq![], names),
{
}

/// The files of one database are restored or left out together.
pub proof fn law_database_is_whole(a: Seq<char>, b: Seq<char>, keep: Seq<Seq<char>>, drop: Seq<Seq<char>>)
    requires
        oid_of(a) == oid_of(b),
    ensures
        kept(a, keep, drop) == kept(b, keep, drop),
{
}

/// Whether the piece at place `i` of a path names the database it lies in: digits alone,
/// with something below them, right below `base` or below the directory of a server
/// version in a tablespace.
pub open spec fn names_database(pieces: Seq<Seq<char>>, i: int) -> bool {
    &&& 1 <= i && i + 1 < pieces.len()
    &&& pieces[i].len() > 0
    &&& forall|k: int| 0 <= k < pieces[i].len() ==> '0' <= #[trigger] pieces[i][k] <= '9'
    &&& {
        ||| pieces[i - 1] == "base"@
        ||| i >= 3 && pieces[i - 3] == "pg_tblspc"@ && pieces[i - 1].len() >= 3 && pieces[i - 1].take(3) == seq!['P', 'G', '_']
    }
}

/// A path belongs to the database that the first of its pieces to name one names; where
/// no piece names one, it belongs to none.
pub proof fn law_path_names_its_database(path: &str, r: Option<String>)
    requires
        call_ensures(database_oid, (path,), r),
    ensures
        match r {
            Some(oid) => exists|i: int|
                #[trigger] names_database(text::split(path@, '/'), i) && text::split(path@, '/')[i] == oid@ && (forall|j: int|
                    j < i ==> !#[trigger] names_database(text::split(path@, '/'), j)),
            None => forall|j: int| !#[trigger] names_database(text::split(path@, '/'), j),
        },
{
    let p = text::split(path@, '/');
    assert forall|i: int| 0 <= i < p.len() implies #[trigger] holds_database(p, i) == names_database(p, i + 1) by {
        lemma_names_database(p, i);
    }
    assert forall|j: int| #[trigger] names_database(p, j) implies holds_database(p, j - 1) by {
        lemma_names_database(p, j - 1);
    }
    lemma_database_place(p, 0);
    if r is Some {
        let i = database_place(p, 0).unwrap();
        assert(holds_database(p, i));
        assert(names_database(p, i + 1));
    }
}

proof fn lemma_names_database(p: Seq<Seq<char>>, i: int)
    requires
        0 <= i < p.len(),
    ensures
        holds_database(p, i) == names_database(p, i + 1),
{
    reveal_strlit("PG_");
    assert("PG_"@ =~= seq!['P', 'G', '_']);
    if i + 2 < p.len() {
        let s = p[i + 1];
        if numeric(s) {
            assert forall|k: int| 0 <= k < s.len() implies '0' <= #[trigger] s[k] <= '9' by {
                assert(text::is_digit(s[k]));
            }
        }
        if names_database(p, i + 1) {
            assert forall|k: int| 0 <= k < s.len() implies text::is_digit(#[trigger] s[k]) by {
                assert('0' <= p[i + 1][k] <= '9');
            }
        }
        if p[i].len() >= 3 && p[i].take(3) == seq!['P', 'G', '_'] {
            assert(p[i].take(3)[0] == 'P' && p[i].take(3)[1] == 'G' && p[i].take(3)[2] == '_');
            assert(text::has_prefix(p[i], "PG_"@));
        }
        if text::has_prefix(p[i], "PG_"@) {
            assert(p[i].take(3) =~= seq!['P', 'G', '_']);
        }
    }
}

proof fn lemma_database_place(pieces: Seq<Seq<char>>, i: int)
    requires
        0 <= i,
    ensures
        match database_place(pieces, i) {
            Some(k) => i <= k < pieces.len() && holds_database(pieces, k) && forall|j: int|
                i <= j < k ==> !#[trigger] holds_database(pieces, j),
            None => forall|j: int| i <= j < pieces.len() ==> !#[trigger] holds_database(pieces, j),
        },
    decreases pieces.len() - i,
{
    if i < pieces.len() && !holds_database(pieces, i) {
        lemma_database_place(pieces, i + 1);
    }
}

/// Every name of a list counts: of the files of databases a list to keep lets those
/// through whose database stands somewhere in it and no others, and without one a list
/// to drop holds back those whose database stands somewhere in it and no others. What
/// belongs to no database, and everything where nothing is listed, is let through.
pub proof fn law_every_listed_name_counts(path: &str, keep: &Vec<String>, drop: &Vec<String>, oid: Option<String>, r: bool)
    requires
        call_ensures(database_oid, (path,), oid),
        call_ensures(database_included, (path, keep, drop), r),
    ensures
        oid is None ==> r,
        keep.len() == 0 && drop.len() == 0 ==> r,
        oid is Some && keep.len() > 0 ==> (r <==> exists|i: int| 0 <= i < keep.len() && (#[trigger] keep[i])@ == oid.unwrap()@),
        oid is Some && keep.len() == 0 && drop.len() > 0 ==> (r <==> forall|i: int|
            0 <= i < drop.len() ==> (#[trigger] drop[i])@ != oid.unwrap()@),
{
    let k = text::texts(keep@);
    let d = text::texts(drop@);
    assert(k.len() == keep.len());
    assert(d.len() == drop.len());
    assert(forall|i: int| 0 <= i < keep.len() ==> k[i] == (#[trigger] keep[i])@);
    assert(forall|i: int| 0 <= i < drop.len() ==> d[i] == (#[trigger] drop[i])@);
    if let Some(o) = oid {
        assert(oid_of(path@) == Some(o@));
        if k.contains(o@) {
            let i = choose|i: int| 0 <= i < k.len() && k[i] == o@;
            assert(keep[i]@ == o@);
        }
        if d.contains(o@) {
            let i = choose|i: int| 0 <= i < d.len() && d[i] == o@;
            assert(drop[i]@ == o@);
        }
        assert forall|i: int| 0 <= i < keep.len() && (#[trigger] keep[i])@ == o@ implies k.contains(o@) by {
            assert(k[i] == o@);
        }
        assert forall|i: int| 0 <= i < drop.len() && (#[trigger] drop[i])@ == o@ implies d.contains(o@) by {
            assert(d[i] == o@);
        }
    } else {
        assert(oid_of(path@) is None);
    }
}

/// The files right below the directory of a database, and all below them, belong to it,
/// wherever the database lies.
pub proof fn law_database_directory(path: &str, oid: Seq<char>, rest: Seq<char>, r: Option<String>)
    requires
        call_ensures(database_oid, (path,), r),
        oid.len() > 0,
        forall|k: int| 0 <= k < oid.len() ==> '0' <= #[trigger] oid[k] <= '9',
        path@ == "base/"@ + oid + "/"@ + rest,
    ensures
        r matches Some(o) && o@ == oid,
{
    reveal_strlit("base/");
    reveal_strlit("base");
    reveal_strlit("/");
    assert(!"base"@.contains('/'));
    assert(!oid.contains('/')) by {
        if oid.contains('/') {
            let k = choose|k: int| 0 <= k < oid.len() && oid[k] == '/';
            assert('0' <= oid[k] <= '9');
        }
    }
    let tail = oid.push('/') + rest;
    assert(path@ =~= "base"@.push('/') + tail);
    text::law_split_at_separator("base"@, tail, '/');
    text::law_split_at_separator(oid, rest, '/');
    text::law_split_without_separator("base"@, '/');
    text::law_split_without_separator(oid, '/');
    text::lemma_split_nonempty(rest, '/');
    let p = text::split(path@, '/');
    assert(p[0] == "base"@ && p[1] == oid && p.len() >= 3);
    assert(numeric(oid)) by {
        assert forall|k: int| 0 <= k < oid.len() implies text::is_digit(#[trigger] oid[k]) by {}
    }
    assert(holds_database(p, 0));
}

/// A list option hands out its texts, all of them and in order; any other value and no
/// value hand out none.
pub proof fn law_list_is_handed_out(config: &LoadedConfig, name: &str, r: Vec<String>)
    requires
        call_ensures(db_list, (config, name), r),
    ensures
        match config.option(name@, None) {
            Some(OptionValue::List(values)) => r.len() == values.len() && forall|i: int|
                0 <= i < r.len() ==> (#[trigger] r[i])@ == values[i]@,
            _ => r.len() == 0,
        },
{
    assert(text::texts(r@).len() == r.len());
    if let Some(OptionValue::List(values)) = config.option(name@, None) {
        assert(text::texts(values@).len() == values.len());
        assert forall|i: int| 0 <= i < r.len() implies (#[trigger] r[i])@ == values[i]@ by {
            assert(text::texts(r@)[i] == text::texts(values@)[i]);
        }
    }
}

/// A number has a digit and nothing but digits.
pub proof fn law_number_is_digits(s: &str, r: bool)
    requires
        call_ensures(is_numeric, (s,), r),
    ensures
        r <==> s@.len() > 0 && forall|i: int| 0 <= i < s@.len() ==> '0' <= #[trigger] s@[i] <= '9',
{
}

}
