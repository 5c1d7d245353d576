//! How the links of a backup are laid out.
use vstd::prelude::*;

use crate::text;
use crate::paths;
use crate::config;
use crate::config::{hash_option, switched_on, LoadedConfig, OptionValue, PairsView};
use crate::info::ManifestLink;
use crate::paths::{file_name, join_path};
use crate::text::{rsplit_once, strip_prefix};
use crate::textmap::TextMap;

verus! {

/// The id of the tablespace that the link at `path` leads to: what follows the
/// last `pg_tblspc/`.
pub open spec fn tablespace_of(path: Seq<char>) -> Option<Seq<char>> {
    match text::last_match(path, "pg_tblspc/"@) {
        Some(i) => Some(path.skip(i + "pg_tblspc/"@.len())),
        None => None,
    }
}

/// The id of the tablespace that a link leads to, where it leads to one.
pub fn tablespace_oid(link: &ManifestLink) -> (r: Option<&str>)
    ensures
        config::opt_view(r) == tablespace_of(link.path@),
{
    match rsplit_once(link.path.as_str(), "pg_tblspc/") {
        Some((_, oid)) => Some(oid),
        None => None,
    }
}

/// Where a tablespace's link points: where its id is mapped to, else below the
/// directory for all tablespaces under the name its recorded target ends in, else
/// at its recorded target. Other links point at their recorded target.
pub open spec fn tablespace_target(
    path: Seq<char>,
    recorded: Seq<char>,
    map: Option<PairsView>,
    all: Option<Seq<char>>,
) -> Seq<char> {
    match tablespace_of(path) {
        None => recorded,
        Some(oid) => match config::hash_lookup(map, oid) {
            Some(mapped) => mapped,
            None => match all {
                Some(dir) => paths::below(
                    dir,
                    match paths::name_of(recorded) {
                        Some(name) => name,
                        None => oid,
                    },
                ),
                None => recorded,
            },
        },
    }
}

fn mapped(map: Option<&TextMap<String>>, key: &str) -> (r: Option<String>)
    ensures
        config::opt_text(r) == config::hash_lookup(config::opt_map(map), key@),
{
    match map {
        Some(m) => {
            proof {
                use_type_invariant(m);
                assert(m.lookup(key@) matches Some(v) ==> config::pairs_of(*m).lookup(key@) == Some(v@));
            }
            match m.get(key) {
                Some(v) => Some(v.clone()),
                None => None,
            }
        },
        None => None,
    }
}

/// Where a tablespace's link points.
pub fn resolve_tablespace_target(link: &ManifestLink, map: Option<&TextMap<String>>, all: Option<&str>) -> (r: String)
    ensures
        r@ == tablespace_target(link.path@, link.destination@, config::opt_map(map), config::opt_view(all)),
{
    let oid = match tablespace_oid(link) {
        Some(oid) => oid,
        None => return link.destination.clone(),
    };
    if let Some(path) = mapped(map, oid) {
        return path;
    }
    if let Some(dir) = all {
        return match file_name(link.destination.as_str()) {
            Some(name) => join_path(dir, name.as_str()),
            None => join_path(dir, oid),
        };
    }
    link.destination.clone()
}

/// The name of a link below the data directory.
pub open spec fn relative_name(path: Seq<char>) -> Seq<char> {
    if text::has_prefix(path, "pg_data/"@) {
        path.skip("pg_data/"@.len() as int)
    } else {
        path
    }
}

/// The name of a link below the data directory.
pub fn link_relative_name(link_path: &str) -> (r: &str)
    ensures
        r@ == relative_name(link_path@),
{
    match strip_prefix(link_path, "pg_data/") {
        Some(rest) => rest,
        None => link_path,
    }
}

/// Where a link points: where its name is mapped to, else at its recorded target.
pub open spec fn link_target(name: Seq<char>, recorded: Seq<char>, map: Option<PairsView>) -> Seq<char> {
    match config::hash_lookup(map, name) {
        Some(mapped) => mapped,
        None => recorded,
    }
}

/// Where a link points.
pub fn resolve_link_target(link_name: &str, recorded_target: &str, map: Option<&TextMap<String>>) -> (r: String)
    ensures
        r@ == link_target(link_name@, recorded_target@, config::opt_map(map)),
{
    match mapped(map, link_name) {
        Some(path) => path,
        None => recorded_target.to_owned(),
    }
}

/// What becomes of a link.
#[derive(Debug, Clone, Copy, PartialEq, Eq, Structural)]
pub enum LinkPlan {
    /// It becomes a link again.
    Symlink,
    /// It becomes a directory in its place.
    PlainDir,
}

/// What becomes of a link, by whether links may be made.
pub fn link_plan(repo_symlink: bool) -> (r: LinkPlan)
    ensures
        r == (if repo_symlink {
            LinkPlan::Symlink
        } else {
            LinkPlan::PlainDir
        }),
{
    if repo_symlink {
        LinkPlan::Symlink
    } else {
        LinkPlan::PlainDir
    }
}

/// The targets given for single tablespaces, by their ids.
pub fn tablespace_map(config: &LoadedConfig) -> (r: Option<&TextMap<String>>)
    ensures
        config::opt_map(r) == config::hash_of(config.option("tablespace-map"@, None)),
{
    hash_option(config, "tablespace-map")
}

/// The directory given for all tablespaces.
pub fn tablespace_map_all(config: &LoadedConfig) -> (r: Option<&str>)
    ensures
        config::opt_view(r) == config::path_or_string_of(config.option("tablespace-map-all"@, None)),
{
    match config.options.get("tablespace-map-all", None) {
        Some(OptionValue::Path(s)) => Some(s.as_str()),
        Some(OptionValue::String(s)) => Some(s.as_str()),
        _ => None,
    }
}

/// The targets given for other links, by their names below the data directory.
pub fn link_map(config: &LoadedConfig) -> (r: Option<&TextMap<String>>)
    ensures
        config::opt_map(r) == config::hash_of(config.option("link-map"@, None)),
{
    hash_option(config, "link-map")
}

/// Whether all links were asked to become links again.
pub fn link_all(config: &LoadedConfig) -> (r: bool)
    ensures
        r == (config.option("link-all"@, None) == Some(OptionValue::Boolean(true))),
{
    switched_on(config, "link-all")
}

/// Whether links may be made: the ungrouped switch, else that of the first
/// repository, else yes.
pub open spec fn symlinks_allowed(config: LoadedConfig) -> bool {
    let v = match config.option("repo-symlink"@, None) {
        Some(v) => Some(v),
        None => config.option("repo-symlink"@, Some(1u32)),
    };
    match v {
        Some(OptionValue::Boolean(b)) => b,
        _ => true,
    }
}

/// Whether links may be made.
pub fn repo_symlink(config: &LoadedConfig) -> (r: bool)
    ensures
        r == symlinks_allowed(*config),
{
    let v = match config.options.get("repo-symlink", None) {
        Some(v) => Some(v),
        None => config.options.get("repo-symlink", Some(1)),
    };
    match v {
        Some(OptionValue::Boolean(b)) => *b,
        _ => true,
    }
}

/// Where any link points: a tablespace's link by the tablespace maps, another by
/// the link map.
pub open spec fn target_of(link: ManifestLink, config: LoadedConfig) -> Seq<char> {
    if tablespace_of(link.path@) is Some {
        tablespace_target(
            link.path@,
            link.destination@,
            config::hash_of(config.option("tablespace-map"@, None)),
            config::path_or_string_of(config.option("tablespace-map-all"@, None)),
        )
    } else {
        link_target(relative_name(link.path@), link.destination@, config::hash_of(config.option("link-map"@, None)))
    }
}

/// Where any link points.
pub fn link_destination(link: &ManifestLink, config: &LoadedConfig) -> (r: String)
    ensures
        r@ == target_of(*link, *config),
{
    if tablespace_oid(link).is_some() {
        resolve_tablespace_target(link, tablespace_map(config), tablespace_map_all(config))
    } else {
        resolve_link_target(link_relative_name(link.path.as_str()), link.destination.as_str(), link_map(config))
    }
}

/// A link that nothing maps keeps its recorded target.
pub proof fn law_unmapped_link_keeps_target(link: ManifestLink, config: LoadedConfig)
    requires
        config::hash_of(config.option("tablespace-map"@, None)) is None,
        config::path_or_string_of(config.option("tablespace-map-all"@, None)) is None,
        config::hash_of(config.option("link-map"@, None)) is None,
    ensures
        target_of(link, config) == link.destination@,
{
}

/// A tablespace's link is never subject to the link map: two configurations with
/// the same tablespace maps send it to the same place.
pub proof fn law_link_map_spares_tablespaces(link: ManifestLink, a: LoadedConfig, b: LoadedConfig)
    requires
        tablespace_of(link.path@) is Some,
        config::hash_of(a.option("tablespace-map"@, None)) == config::hash_of(b.option("tablespace-map"@, None)),
        config::path_or_string_of(a.option("tablespace-map-all"@, None)) == config::path_or_string_of(
            b.option("tablespace-map-all"@, None),
        ),
    ensures
        target_of(link, a) == target_of(link, b),
{
}

/// A target given for one tablespace wins over the directory for all of them.
pub proof fn law_single_map_wins(link: ManifestLink, config: LoadedConfig, oid: Seq<char>, target: Seq<char>)
    requires
        tablespace_of(link.path@) == Some(oid),
        config::hash_lookup(config::hash_of(config.option("tablespace-map"@, None)), oid) == Some(target),
    ensures
        target_of(link, config) == target,
{
}

/// The id of a tablespace is what follows the last `pg_tblspc/` of its link's path; a path
/// without one is that of another link.
pub proof fn law_tablespace_id_follows_the_last_directory(link: &ManifestLink, r: Option<&str>)
    requires
        call_ensures(tablespace_oid, (link,), r),
    ensures
        match r {
            Some(oid) => link.path@ == link.path@.take(link.path@.len() - oid@.len() - 10) + "pg_tblspc/"@ + oid@ && link.path@.len()
                >= oid@.len() + 10 && (forall|front: Seq<char>, back: Seq<char>|
                link.path@ == #[trigger] (front + "pg_tblspc/"@ + back) ==> back.len() >= oid@.len()),
            None => forall|front: Seq<char>, back: Seq<char>| link.path@ != #[trigger] (front + "pg_tblspc/"@ + back),
        },
{
    let path = link.path@;
    let pat = "pg_tblspc/"@;
    reveal_strlit("pg_tblspc/");
    text::law_last_match_is_last(path, pat);
    assert forall|front: Seq<char>, back: Seq<char>| path == #[trigger] (front + pat + back) implies text::occurs_at(
        path,
        pat,
        front.len() as int,
    ) by {
        assert((front + pat + back).subrange(front.len() as int, (front.len() + pat.len()) as int) =~= pat);
    }
    if let Some(i) = text::last_match(path, pat) {
        let oid = path.skip(i + pat.len());
        assert(text::occurs_at(path, pat, i));
        assert(path =~= path.take(i) + pat + oid) by {
            assert forall|k: int| 0 <= k < pat.len() implies path[i + k] == pat[k] by {
                assert(path.subrange(i, i + pat.len())[k] == path[i + k]);
            }
        }
        assert forall|front: Seq<char>, back: Seq<char>| path == #[trigger] (front + pat + back) implies back.len()
            >= oid.len() by {
            assert(text::occurs_at(path, pat, front.len() as int));
        }
    } else {
        assert forall|front: Seq<char>, back: Seq<char>| path != #[trigger] (front + pat + back) by {
            if path == front + pat + back {
                assert(text::occurs_at(path, pat, front.len() as int));
            }
        }
    }
}

/// The link of a tablespace points where its id is mapped to. Where its id is mapped
/// nowhere and a directory is given for all tablespaces, it points below that directory,
/// at the name that its recorded target ends in, at the id where it ends in none. Without
/// such a directory it points where it did.
pub proof fn law_tablespace_link_target(
    link: &ManifestLink,
    config: &LoadedConfig,
    oid: Option<&str>,
    map: Option<&OptionValue>,
    all: Option<&OptionValue>,
    r: String,
)
    requires
        call_ensures(tablespace_oid, (link,), oid),
        call_ensures(config::Options::get, (&config.options, "tablespace-map", None::<u32>), map),
        call_ensures(config::Options::get, (&config.options, "tablespace-map-all", None::<u32>), all),
        call_ensures(link_destination, (link, config), r),
        oid is Some,
        match map {
            Some(OptionValue::Hash(m)) => m.wf(),
            _ => true,
        },
    ensures
        ({
            let mapped = match map {
                Some(OptionValue::Hash(m)) => m.lookup(oid.unwrap()@),
                _ => None,
            };
            let dir = match all {
                Some(OptionValue::Path(d)) => Some(d@),
                Some(OptionValue::String(d)) => Some(d@),
                _ => None,
            };
            &&& mapped is Some ==> r@ == mapped.unwrap()@
            &&& mapped is None && dir is None ==> r@ == link.destination@
            &&& mapped is None && dir is Some ==> r@ == paths::below(
                dir.unwrap(),
                match paths::name_of(link.destination@) {
                    Some(name) => name,
                    None => oid.unwrap()@,
                },
            )
        }),
{
    if let Some(OptionValue::Hash(m)) = map {
        lemma_pairs_lookup(*m, oid.unwrap()@);
    }
}

proof fn lemma_pairs_lookup(m: TextMap<String>, key: Seq<char>)
    requires
        m.wf(),
    ensures
        config::pairs_of(m).lookup(key) == (match m.lookup(key) {
            Some(v) => Some(v@),
            None => None,
        }),
{
}

/// Any other link points where its name below the data directory is mapped to, and where
/// it did without such a mapping: the maps for tablespaces have no say.
pub proof fn law_plain_link_target(
    link: &ManifestLink,
    config: &LoadedConfig,
    oid: Option<&str>,
    map: Option<&OptionValue>,
    name: Seq<char>,
    r: String,
)
    requires
        call_ensures(tablespace_oid, (link,), oid),
        call_ensures(config::Options::get, (&config.options, "link-map", None::<u32>), map),
        call_ensures(link_destination, (link, config), r),
        oid is None,
        match map {
            Some(OptionValue::Hash(m)) => m.wf(),
            _ => true,
        },
        link.path@ == "pg_data/"@ + name || (link.path@ == name && (name.len() < 8 || name.take(8) != "pg_data/"@)),
    ensures
        match map {
            Some(OptionValue::Hash(m)) => match m.lookup(name) {
                Some(mapped) => r@ == mapped@,
                None => r@ == link.destination@,
            },
            _ => r@ == link.destination@,
        },
{
    reveal_strlit("pg_data/");
    lemma_relative_name(link.path@, name);
    if let Some(OptionValue::Hash(m)) = map {
        lemma_pairs_lookup(*m, name);
    }
}

proof fn lemma_relative_name(path: Seq<char>, name: Seq<char>)
    requires
        path == "pg_data/"@ + name || (path == name && (name.len() < 8 || name.take(8) != "pg_data/"@)),
    ensures
        relative_name(path) == name,
{
    reveal_strlit("pg_data/");
    text::law_prefix_and_suffix(path, "pg_data/"@);
    if path == "pg_data/"@ + name {
        assert(path.take(8) =~= "pg_data/"@);
        assert(path.skip(8) =~= name);
    }
}

/// The name of a link below the data directory is its path without `pg_data/` in front,
/// and without it in front the path.
pub proof fn law_name_below_data_directory(path: &str, name: Seq<char>, r: &str)
    requires
        call_ensures(link_relative_name, (path,), r),
        path@ == "pg_data/"@ + name || (path@ == name && (name.len() < 8 || name.take(8) != "pg_data/"@)),
    ensures
        r@ == name,
{
    lemma_relative_name(path@, name);
}

/// A link becomes a link again where links may be made, else a directory. They may be
/// made unless they are switched off: by the ungrouped switch, and where that was not
/// given by that of the first repository.
pub proof fn law_links_unless_switched_off(
    config: &LoadedConfig,
    ungrouped: Option<&OptionValue>,
    first: Option<&OptionValue>,
    allowed: bool,
    plan: LinkPlan,
    all: Option<&OptionValue>,
    every: bool,
)
    requires
        call_ensures(config::Options::get, (&config.options, "repo-symlink", None::<u32>), ungrouped),
        call_ensures(config::Options::get, (&config.options, "repo-symlink", Some(1u32)), first),
        call_ensures(repo_symlink, (config,), allowed),
        call_ensures(link_plan, (allowed,), plan),
        call_ensures(config::Options::get, (&config.options, "link-all", None::<u32>), all),
        call_ensures(link_all, (config,), every),
    ensures
        plan == LinkPlan::Symlink <==> allowed,
        plan == LinkPlan::PlainDir <==> !allowed,
        !allowed <==> (ungrouped is Some && *ungrouped.unwrap() == OptionValue::Boolean(false)) || (ungrouped is None && first is Some
            && *first.unwrap() == OptionValue::Boolean(false)),
        every <==> (all is Some && *all.unwrap() == OptionValue::Boolean(true)),
{
}

/// The parts that a link's target is made of, each by itself: a map that holds the key
/// decides, the directory for all tablespaces comes next, the recorded target last.
pub proof fn law_target_without_options(
    link: &ManifestLink,
    oid: Option<&str>,
    map: Option<&TextMap<String>>,
    all: Option<&str>,
    tablespace: String,
    name: &str,
    plain: String,
)
    requires
        call_ensures(tablespace_oid, (link,), oid),
        call_ensures(resolve_tablespace_target, (link, map, all), tablespace),
        call_ensures(resolve_link_target, (name, "recorded", map), plain),
        map matches Some(m) ==> m.wf(),
    ensures
        oid is None ==> tablespace@ == link.destination@,
        oid is Some && map is Some && map.unwrap().lookup(oid.unwrap()@) is Some ==> tablespace@ == map.unwrap().lookup(
            oid.unwrap()@,
        ).unwrap()@,
        oid is Some && map is None && all is None ==> tablespace@ == link.destination@,
        oid is Some && map is None && all is Some && paths::name_of(link.destination@) is Some ==> tablespace@ == paths::below(
            all.unwrap()@,
            paths::name_of(link.destination@).unwrap(),
        ),
        map is Some && map.unwrap().lookup(name@) is Some ==> plain@ == map.unwrap().lookup(name@).unwrap()@,
        map is Some && map.unwrap().lookup(name@) is None ==> plain@ == "recorded"@,
        map is None ==> plain@ == "recorded"@,
{
    if let Some(m) = map {
        if oid is Some {
            lemma_pairs_lookup(*m, oid.unwrap()@);
        }
        lemma_pairs_lookup(*m, name@);
    }
}

/// The maps are those that the options of their names hold.
pub proof fn law_maps_of_the_configuration(
    config: &LoadedConfig,
    spaces: Option<&OptionValue>,
    links: Option<&OptionValue>,
    all: Option<&OptionValue>,
    a: Option<&TextMap<String>>,
    b: Option<&TextMap<String>>,
    c: Option<&str>,
)
    requires
        call_ensures(config::Options::get, (&config.options, "tablespace-map", None::<u32>), spaces),
        call_ensures(config::Options::get, (&config.options, "link-map", None::<u32>), links),
        call_ensures(config::Options::get, (&config.options, "tablespace-map-all", None::<u32>), all),
        call_ensures(tablespace_map, (config,), a),
        call_ensures(link_map, (config,), b),
        call_ensures(tablespace_map_all, (config,), c),
    ensures
        match spaces {
            Some(OptionValue::Hash(m)) => a is Some && a.unwrap().keys() == m.keys() && text::texts(a.unwrap().vals()) == text::texts(
                m.vals(),
            ),
            _ => a is None,
        },
        match links {
            Some(OptionValue::Hash(m)) => b is Some && b.unwrap().keys() == m.keys() && text::texts(b.unwrap().vals()) == text::texts(
                m.vals(),
            ),
            _ => b is None,
        },
        match all {
            Some(OptionValue::Path(s)) => c is Some && c.unwrap()@ == s@,
            Some(OptionValue::String(s)) => c is Some && c.unwrap()@ == s@,
            _ => c is None,
        },
{
}

}
