//! The resolved configuration of a command and the errors a command ends in.
use vstd::prelude::*;

use crate::text;
use crate::textmap;
use crate::text::text_eq;
use crate::textmap::TextMap;

verus! {

/// A failure of the storage underneath a command.
#[derive(Debug, Clone, PartialEq, Eq)]
pub enum StorageError {
    /// Nothing is stored at the path.
    NotFound { path: String },
    /// Any other failure, with its message.
    Backend { message: String },
}

/// How a command fails.
#[derive(Debug, Clone, PartialEq, Eq)]
pub enum CommandError {
    /// An option that the command needs was not given.
    MissingOption { option: String },
    /// The storage failed.
    Storage(StorageError),
    /// A stream failed.
    Io(String),
    /// Any other failure, with its message.
    Other(String),
}

impl CommandError {
    /// Whether this is the missing-option error for `option`.
    pub open spec fn is_missing(self, option: Seq<char>) -> bool {
        self matches CommandError::MissingOption { option: o } && o@ == option
    }

    /// Whether this is the error with the message `text`.
    pub open spec fn is_other(self, text: Seq<char>) -> bool {
        self matches CommandError::Other(m) && m@ == text
    }

    /// Whether this says that nothing is stored at `path`.
    pub open spec fn is_not_found(self, path: Seq<char>) -> bool {
        self matches CommandError::Storage(StorageError::NotFound { path: p }) && p@ == path
    }
}

/// The error for an option that was not given.
pub fn missing_option(option: &str) -> (r: CommandError)
    ensures
        r.is_missing(option@),
{
    CommandError::MissingOption { option: option.to_owned() }
}

/// The error with the message `text`.
pub fn other_error(text: &str) -> (r: CommandError)
    ensures
        r.is_other(text@),
{
    CommandError::Other(text.to_owned())
}

/// The bytes that reading a file gave; none where there is no such file.
pub fn read_if_there(read: Result<Vec<u8>, StorageError>) -> (r: Result<Option<Vec<u8>>, CommandError>)
    ensures
        match read {
            Ok(bytes) => r == Ok::<Option<Vec<u8>>, CommandError>(Some(bytes)),
            Err(StorageError::NotFound { .. }) => r == Ok::<Option<Vec<u8>>, CommandError>(None),
            Err(StorageError::Backend { message }) => r == Err::<Option<Vec<u8>>, CommandError>(
                CommandError::Storage(StorageError::Backend { message }),
            ),
        },
{
    match read {
        Ok(bytes) => Ok(Some(bytes)),
        Err(StorageError::NotFound { .. }) => Ok(None),
        Err(e) => Err(CommandError::Storage(e)),
    }
}

/// The role that a process plays for a command.
#[derive(Debug, Clone, Copy, PartialEq, Eq, Structural)]
pub enum ConfigCommandRole {
    /// The process that the user started.
    Main,
    /// A process that works in the background.
    Async,
    /// A worker on the same host.
    Local,
    /// A worker on another host.
    Remote,
}

/// The value of an option.
pub enum OptionValue {
    /// A switch.
    Boolean(bool),
    /// A number.
    Integer(i64),
    /// A duration in milliseconds.
    Time(u64),
    /// A number of bytes.
    Size(u64),
    /// Free text.
    String(String),
    /// A word out of a fixed list.
    StringId(String),
    /// A path.
    Path(String),
    /// Key and value pairs.
    Hash(TextMap<String>),
    /// A list of texts.
    List(Vec<String>),
}

/// The contents of pairs of texts: the keys in ascending order, each with its value.
pub struct PairsView {
    pub keys: Seq<Seq<char>>,
    pub vals: Seq<Seq<char>>,
}

impl PairsView {
    /// The value of `key`, where there is one.
    pub open spec fn lookup(self, key: Seq<char>) -> Option<Seq<char>> {
        match textmap::position(self.keys, key) {
            Some(i) => Some(self.vals[i]),
            None => None,
        }
    }
}

/// The contents of a map between texts.
pub open spec fn pairs_of(map: TextMap<String>) -> PairsView {
    PairsView { keys: map.keys(), vals: text::texts(map.vals()) }
}

/// The contents of an [`OptionValue`].
pub enum ValueView {
    Boolean(bool),
    Integer(i64),
    Time(u64),
    Size(u64),
    String(Seq<char>),
    StringId(Seq<char>),
    Path(Seq<char>),
    Hash(PairsView),
    List(Seq<Seq<char>>),
}

impl View for OptionValue {
    type V = ValueView;

    open spec fn view(&self) -> ValueView {
        match *self {
            OptionValue::Boolean(b) => ValueView::Boolean(b),
            OptionValue::Integer(n) => ValueView::Integer(n),
            OptionValue::Time(ms) => ValueView::Time(ms),
            OptionValue::Size(n) => ValueView::Size(n),
            OptionValue::String(s) => ValueView::String(s@),
            OptionValue::StringId(s) => ValueView::StringId(s@),
            OptionValue::Path(s) => ValueView::Path(s@),
            OptionValue::Hash(map) => ValueView::Hash(pairs_of(map)),
            OptionValue::List(values) => ValueView::List(text::texts(values@)),
        }
    }
}

/// The contents of an optional value.
pub open spec fn opt_value(v: Option<OptionValue>) -> Option<ValueView> {
    match v {
        Some(value) => Some(value@),
        None => None,
    }
}

/// One option: its name, the index of its group where it has one, its value.
pub struct ConfigOption {
    pub name: String,
    pub index: Option<u32>,
    pub value: OptionValue,
}

/// The value under `name` and `index`: the latest of the entries that carry them.
pub open spec fn find_option(entries: Seq<ConfigOption>, name: Seq<char>, index: Option<u32>) -> Option<OptionValue>
    decreases entries.len(),
{
    if entries.len() == 0 {
        None
    } else if entries.last().name@ == name && entries.last().index == index {
        Some(entries.last().value)
    } else {
        find_option(entries.drop_last(), name, index)
    }
}

/// The options of a command, by name and group index.
pub struct Options {
    pub entries: Vec<ConfigOption>,
}

impl Options {
    /// The value under `name` and `index`.
    pub open spec fn lookup(self, name: Seq<char>, index: Option<u32>) -> Option<OptionValue> {
        find_option(self.entries@, name, index)
    }

    /// No options.
    pub fn new() -> (r: Self)
        ensures
            forall|name: Seq<char>, index: Option<u32>| #[trigger] r.lookup(name, index) is None,
    {
        Options { entries: Vec::new() }
    }

    /// Gives `name` at `index` the value `value`.
    pub fn insert(&mut self, name: &str, index: Option<u32>, value: OptionValue)
        ensures
            final(self).lookup(name@, index) == Some(value),
            forall|n: Seq<char>, i: Option<u32>|
                (n != name@ || i != index) ==> #[trigger] final(self).lookup(n, i) == old(self).lookup(n, i),
    {
        let ghost before = self.entries@;
        self.entries.push(ConfigOption { name: name.to_owned(), index, value });
        proof {
            assert(self.entries@.drop_last() =~= before);
        }
    }

    /// The value under `name` and `index`.
    pub fn get(&self, name: &str, index: Option<u32>) -> (r: Option<&OptionValue>)
        ensures
            match r {
                Some(v) => self.lookup(name@, index) == Some(*v),
                None => self.lookup(name@, index) is None,
            },
    {
        let mut i: usize = self.entries.len();
        proof {
            assert(self.entries@.take(i as int) =~= self.entries@);
        }
        while i > 0
            invariant
                i <= self.entries.len(),
                find_option(self.entries@, name@, index) == find_option(self.entries@.take(i as int), name@, index),
            decreases i,
        {
            i -= 1;
            proof {
                assert(self.entries@.take(i as int + 1).drop_last() =~= self.entries@.take(i as int));
                assert(self.entries@.take(i as int + 1).last() == self.entries@[i as int]);
            }
            let entry = &self.entries[i];
            let same_index: bool = match (entry.index, index) {
                (None, None) => true,
                (Some(a), Some(b)) => a == b,
                _ => false,
            };
            if same_index && text_eq(entry.name.as_str(), name) {
                return Some(&entry.value);
            }
        }
        None
    }
}

/// The configuration that a command runs under.
pub struct LoadedConfig {
    /// The command's name.
    pub command: String,
    /// The role this process plays for it.
    pub command_role: ConfigCommandRole,
    /// The stanza it works on, where one was given.
    pub stanza: Option<String>,
    /// Its options.
    pub options: Options,
    /// What was given beside the options.
    pub params: Vec<String>,
}

impl LoadedConfig {
    /// The value under `name` and `index`.
    pub open spec fn option(self, name: Seq<char>, index: Option<u32>) -> Option<OptionValue> {
        self.options.lookup(name, index)
    }
}

/// Whether two configurations hold the same in everything but the option `name`.
pub open spec fn same_but(a: LoadedConfig, b: LoadedConfig, name: Seq<char>) -> bool {
    &&& a.command@ == b.command@
    &&& a.command_role == b.command_role
    &&& opt_text(a.stanza) == opt_text(b.stanza)
    &&& text::texts(a.params@) == text::texts(b.params@)
    &&& forall|n: Seq<char>, i: Option<u32>| n != name ==> opt_value(#[trigger] a.option(n, i)) == opt_value(b.option(n, i))
}

/// The text of a value given as free text.
pub open spec fn string_of(v: Option<OptionValue>) -> Option<Seq<char>> {
    match v {
        Some(OptionValue::String(s)) => Some(s@),
        _ => None,
    }
}

/// The text of a value given as a word.
pub open spec fn id_of(v: Option<OptionValue>) -> Option<Seq<char>> {
    match v {
        Some(OptionValue::StringId(s)) => Some(s@),
        _ => None,
    }
}

/// The text of a value given as a word or as free text.
pub open spec fn id_or_string_of(v: Option<OptionValue>) -> Option<Seq<char>> {
    match v {
        Some(OptionValue::StringId(s)) => Some(s@),
        Some(OptionValue::String(s)) => Some(s@),
        _ => None,
    }
}

/// The text of a value given as a path or as free text.
pub open spec fn path_or_string_of(v: Option<OptionValue>) -> Option<Seq<char>> {
    match v {
        Some(OptionValue::Path(s)) => Some(s@),
        Some(OptionValue::String(s)) => Some(s@),
        _ => None,
    }
}

/// The text of a value given as text of any kind.
pub open spec fn text_of(v: Option<OptionValue>) -> Option<Seq<char>> {
    match v {
        Some(OptionValue::Path(s)) => Some(s@),
        Some(OptionValue::StringId(s)) => Some(s@),
        Some(OptionValue::String(s)) => Some(s@),
        _ => None,
    }
}

/// The views of an optional text.
pub open spec fn opt_view(v: Option<&str>) -> Option<Seq<char>> {
    match v {
        Some(s) => Some(s@),
        None => None,
    }
}

/// The view of an optional string.
pub open spec fn opt_text(v: Option<String>) -> Option<Seq<char>> {
    match v {
        Some(s) => Some(s@),
        None => None,
    }
}

/// The text of the ungrouped option `name`, given as text of any kind.
pub fn string_option<'a>(config: &'a LoadedConfig, name: &str) -> (r: Option<&'a str>)
    ensures
        opt_view(r) == text_of(config.option(name@, None)),
{
    match config.options.get(name, None) {
        Some(OptionValue::String(s)) => Some(s.as_str()),
        Some(OptionValue::StringId(s)) => Some(s.as_str()),
        Some(OptionValue::Path(s)) => Some(s.as_str()),
        _ => None,
    }
}

/// The text of the ungrouped option `name`, given as a word or as free text.
pub fn id_or_string_option<'a>(config: &'a LoadedConfig, name: &str) -> (r: Option<&'a str>)
    ensures
        opt_view(r) == id_or_string_of(config.option(name@, None)),
{
    match config.options.get(name, None) {
        Some(OptionValue::String(s)) => Some(s.as_str()),
        Some(OptionValue::StringId(s)) => Some(s.as_str()),
        _ => None,
    }
}

/// Whether the ungrouped switch `name` was turned on.
pub fn switched_on(config: &LoadedConfig, name: &str) -> (r: bool)
    ensures
        r == (config.option(name@, None) == Some(OptionValue::Boolean(true))),
{
    match config.options.get(name, None) {
        Some(OptionValue::Boolean(b)) => *b,
        _ => false,
    }
}

/// The pairs of the ungrouped option `name`, where it holds pairs.
pub open spec fn hash_of(v: Option<OptionValue>) -> Option<PairsView> {
    match v {
        Some(OptionValue::Hash(map)) => Some(pairs_of(map)),
        _ => None,
    }
}

/// The value of `key` in the pairs of an option that may be absent.
pub open spec fn hash_lookup(map: Option<PairsView>, key: Seq<char>) -> Option<Seq<char>> {
    match map {
        Some(m) => m.lookup(key),
        None => None,
    }
}

/// The pairs behind an optional reference.
pub open spec fn opt_map(r: Option<&TextMap<String>>) -> Option<PairsView> {
    match r {
        Some(m) => Some(pairs_of(*m)),
        None => None,
    }
}

/// The pairs of the ungrouped option `name`; `None` where it holds no pairs.
pub fn hash_option<'a>(config: &'a LoadedConfig, name: &str) -> (r: Option<&'a TextMap<String>>)
    ensures
        opt_map(r) == hash_of(config.option(name@, None)),
{
    match config.options.get(name, None) {
        Some(OptionValue::Hash(map)) => Some(map),
        _ => None,
    }
}

/// The stanza that the command works on; an error where none was given.
pub fn require_stanza(config: &LoadedConfig) -> (r: Result<&str, CommandError>)
    ensures
        match config.stanza {
            Some(s) => r matches Ok(t) && t@ == s@,
            None => r matches Err(e) && e.is_missing("stanza"@),
        },
{
    match &config.stanza {
        Some(s) => Ok(s.as_str()),
        None => Err(missing_option("stanza")),
    }
}

/// How many workers `process-max` asks for: at least one.
pub open spec fn worker_count(v: Option<OptionValue>) -> int {
    match v {
        Some(OptionValue::Integer(n)) => if 1 <= n <= usize::MAX {
            n as int
        } else {
            1
        },
        _ => 1,
    }
}

/// How many workers `process-max` asks for: at least one.
pub fn process_max(config: &LoadedConfig) -> (r: usize)
    ensures
        r == worker_count(config.option("process-max"@, None)),
        r >= 1,
{
    match config.options.get("process-max", None) {
        Some(OptionValue::Integer(n)) => {
            let v: i64 = *n;
            if v >= 1 && v as u64 <= usize::MAX as u64 {
                v as usize
            } else {
                1
            }
        },
        _ => 1,
    }
}

/// An owned copy of an optional text.
pub fn copied(v: Option<&str>) -> (r: Option<String>)
    ensures
        opt_text(r) == opt_view(v),
{
    match v {
        Some(s) => Some(s.to_owned()),
        None => None,
    }
}

/// Of the values that were given for an option the latest counts; an option under another
/// name or another index has no say.
pub proof fn law_latest_value_counts(options: &Options, name: &str, index: Option<u32>, r: Option<&OptionValue>)
    requires
        call_ensures(Options::get, (options, name, index), r),
    ensures
        match r {
            Some(v) => exists|i: int|
                0 <= i < options.entries.len() && (#[trigger] options.entries[i]).name@ == name@ && options.entries[i].index
                    == index && options.entries[i].value == *v && (forall|j: int|
                    i < j < options.entries.len() ==> (#[trigger] options.entries[j]).name@ != name@ || options.entries[j].index
                        != index),
            None => forall|j: int|
                0 <= j < options.entries.len() ==> (#[trigger] options.entries[j]).name@ != name@ || options.entries[j].index
                    != index,
        },
{
    lemma_find_option(options.entries@, name@, index);
}

proof fn lemma_find_option(entries: Seq<ConfigOption>, name: Seq<char>, index: Option<u32>)
    ensures
        match find_option(entries, name, index) {
            Some(v) => exists|i: int|
                0 <= i < entries.len() && (#[trigger] entries[i]).name@ == name && entries[i].index == index && entries[i].value
                    == v && (forall|j: int|
                    i < j < entries.len() ==> (#[trigger] entries[j]).name@ != name || entries[j].index != index),
            None => forall|j: int|
                0 <= j < entries.len() ==> (#[trigger] entries[j]).name@ != name || entries[j].index != index,
        },
    decreases entries.len(),
{
    if entries.len() > 0 {
        let n = entries.len() - 1;
        let front = entries.drop_last();
        lemma_find_option(front, name, index);
        assert(forall|j: int| 0 <= j < n ==> entries[j] == #[trigger] front[j]);
        assert(entries[n] == entries.last());
        if !(entries.last().name@ == name && entries.last().index == index) {
            match find_option(front, name, index) {
                Some(v) => {
                    let i = choose|i: int|
                        0 <= i < front.len() && (#[trigger] front[i]).name@ == name && front[i].index == index && front[i].value
                            == v && (forall|j: int|
                            i < j < front.len() ==> (#[trigger] front[j]).name@ != name || front[j].index != index);
                    assert(entries[i].name@ == name);
                    assert forall|j: int| i < j < entries.len() implies (#[trigger] entries[j]).name@ != name || entries[j].index
                        != index by {
                        if j < n {
                            assert(front[j].name@ != name || front[j].index != index);
                        }
                    }
                },
                None => {
                    assert forall|j: int| 0 <= j < entries.len() implies (#[trigger] entries[j]).name@ != name
                        || entries[j].index != index by {
                        if j < n {
                            assert(front[j].name@ != name || front[j].index != index);
                        }
                    }
                },
            }
        }
    }
}

/// The ungrouped value of an option is handed out as what it was given as: as text where
/// it is free text, a word or a path, as a word where it is a word or free text, as a
/// switch where it is a switch, as pairs where it holds pairs. What was given as
/// something else reads as not given, a switch then as off.
pub proof fn law_options_are_typed(
    config: &LoadedConfig,
    name: &str,
    value: Option<&OptionValue>,
    as_text: Option<&str>,
    as_word: Option<&str>,
    as_switch: bool,
    as_pairs: Option<&TextMap<String>>,
)
    requires
        call_ensures(Options::get, (&config.options, name, None::<u32>), value),
        call_ensures(string_option, (config, name), as_text),
        call_ensures(id_or_string_option, (config, name), as_word),
        call_ensures(switched_on, (config, name), as_switch),
        call_ensures(hash_option, (config, name), as_pairs),
    ensures
        value is None ==> as_text is None && as_word is None && !as_switch && as_pairs is None,
        value matches Some(v) ==> match *v {
            OptionValue::String(s) => as_text is Some && as_text.unwrap()@ == s@ && as_word is Some && as_word.unwrap()@ == s@
                && !as_switch && as_pairs is None,
            OptionValue::StringId(s) => as_text is Some && as_text.unwrap()@ == s@ && as_word is Some && as_word.unwrap()@ == s@
                && !as_switch && as_pairs is None,
            OptionValue::Path(s) => as_text is Some && as_text.unwrap()@ == s@ && as_word is None && !as_switch && as_pairs is None,
            OptionValue::Boolean(b) => as_text is None && as_word is None && as_switch == b && as_pairs is None,
            OptionValue::Hash(map) => as_text is None && as_word is None && !as_switch && as_pairs is Some
                && as_pairs.unwrap().keys() == map.keys() && text::texts(as_pairs.unwrap().vals()) == text::texts(map.vals()),
            _ => as_text is None && as_word is None && !as_switch && as_pairs is None,
        },
{
}

/// There is at least one worker, and as many as `process-max` gives where it gives a
/// positive number that the machine can count to; where it does not, there is one.
pub proof fn law_workers(config: &LoadedConfig, value: Option<&OptionValue>, r: usize)
    requires
        call_ensures(Options::get, (&config.options, "process-max", None::<u32>), value),
        call_ensures(process_max, (config,), r),
    ensures
        r >= 1,
        match value {
            Some(OptionValue::Integer(n)) => r == (if 1 <= *n <= usize::MAX {
                *n as int
            } else {
                1
            }),
            _ => r == 1,
        },
{
}

/// A missing file reads as no bytes, a file that is there as its bytes, and any other
/// failure of the storage as that failure.
pub proof fn law_only_absence_is_forgiven(read: Result<Vec<u8>, StorageError>, r: Result<Option<Vec<u8>>, CommandError>)
    requires
        call_ensures(read_if_there, (read,), r),
    ensures
        r is Err <==> (read is Err && !(read->Err_0 is NotFound)),
        r is Err ==> r->Err_0 == CommandError::Storage(read->Err_0),
        read is Ok ==> r == Ok::<Option<Vec<u8>>, CommandError>(Some(read->Ok_0)),
        (read is Err && read->Err_0 is NotFound) ==> r == Ok::<Option<Vec<u8>>, CommandError>(None),
{
}

/// The stanza that is worked on is the one that was given; without one the error names
/// the option.
pub proof fn law_stanza_is_needed(config: &LoadedConfig, r: Result<&str, CommandError>)
    requires
        call_ensures(require_stanza, (config,), r),
    ensures
        r is Ok <==> config.stanza is Some,
        r is Ok ==> r->Ok_0@ == config.stanza.unwrap()@,
        r is Err ==> (r->Err_0 matches CommandError::MissingOption { option } && option@ == "stanza"@),
{
}

/// What an option was set to is read again, and the others are as before. Without options
/// there is nothing to read.
pub proof fn law_set_options_are_read(
    options: &mut Options,
    name: &str,
    index: Option<u32>,
    value: OptionValue,
    before: Options,
    after: Options,
    read: Option<&OptionValue>,
    other: &str,
    at: Option<u32>,
    was: Option<&OptionValue>,
    is: Option<&OptionValue>,
    empty: Options,
    nothing: Option<&OptionValue>,
)
    requires
        call_ensures(Options::insert, (options, name, index, value), ()),
        before == *old(options) && after == *final(options),
        call_ensures(Options::get, (&after, name, index), read),
        call_ensures(Options::get, (&before, other, at), was),
        call_ensures(Options::get, (&after, other, at), is),
        call_ensures(Options::new, (), empty),
        call_ensures(Options::get, (&empty, other, at), nothing),
    ensures
        read == Some(&value),
        other@ != name@ || at != index ==> is == was,
        nothing is None,
{
    assert(after.lookup(other@, at) == after.lookup(other@, at));
    assert(empty.lookup(other@, at) is None);
}

/// An error says which option is missing, or the text it was given.
pub proof fn law_errors_say_what_is_wrong(option: &str, message: &str, a: CommandError, b: CommandError)
    requires
        call_ensures(missing_option, (option,), a),
        call_ensures(other_error, (message,), b),
    ensures
        a is MissingOption && a->option@ == option@,
        b is Other && b->Other_0@ == message@,
{
}

/// What an error is taken for is what it says.
pub proof fn law_errors_are_told_apart(e: CommandError, s: Seq<char>)
    ensures
        e.is_missing(s) <==> e is MissingOption && e->option@ == s,
        e.is_other(s) <==> e is Other && e->Other_0@ == s,
        e.is_not_found(s) <==> e is Storage && e->Storage_0 is NotFound && e->Storage_0->NotFound_path@ == s,
{
}

/// An optional text is there where its string is, with the same characters.
pub proof fn law_optional_texts(a: Option<String>, b: Option<&str>, m: Option<&TextMap<String>>, k: int)
    ensures
        opt_text(a) is Some <==> a is Some,
        a is Some ==> opt_text(a).unwrap() == a.unwrap()@,
        opt_view(b) is Some <==> b is Some,
        b is Some ==> opt_view(b).unwrap() == b.unwrap()@,
        opt_map(m) is Some <==> m is Some,
        m is Some ==> opt_map(m).unwrap().keys == m.unwrap().keys() && opt_map(m).unwrap().vals.len() == m.unwrap().vals().len(),
        m is Some && 0 <= k < m.unwrap().vals().len() ==> opt_map(m).unwrap().vals[k] == m.unwrap().vals()[k]@,
{
}

/// The pairs of an option are found under their keys.
pub proof fn law_pairs_are_found(map: &TextMap<String>, key: &str, v: Option<&String>)
    requires
        map.wf(),
        call_ensures(TextMap::<String>::get, (map, key), v),
    ensures
        hash_lookup(Some(pairs_of(*map)), key@) is Some <==> v is Some,
        v is Some ==> hash_lookup(Some(pairs_of(*map)), key@) == Some(v.unwrap()@),
        hash_lookup(None, key@) is None,
{
    if map.keys().contains(key@) {
        let i = choose|i: int| 0 <= i < map.keys().len() && map.keys()[i] == key@;
        crate::textmap::lemma_position(map.keys(), key@, i);
        assert(text::texts(map.vals())[i] == map.vals()[i]@);
    }
}

}
