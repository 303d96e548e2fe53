//! The manifest: the declared plugins and how to launch each.
//!
//! The manifest is a TOML file with one array, `plugins`. Each of its
//! elements is a table with `name` and `command`, and optionally `args`, `env`
//! and `cwd`; any other key is refused, in the file and in an element.
//! Reading the file is the caller's, and TOML is `toml`'s business; the shape
//! of a manifest is decided here.

use crate::protocol::text_of;
use crate::text::{same_text, texts_view};
use vstd::prelude::*;
use vstd::string::StringExecFns;

verus! {

/// Declares `toml::Value`. What a value holds is known only through the
/// names below.
#[verifier::external_type_specification]
#[verifier::external_body]
pub struct ExTomlValue(toml::Value);

/// The text of a TOML string; `None` for every other kind of value.
pub uninterp spec fn toml_text(v: toml::Value) -> Option<Seq<char>>;

/// The elements of a TOML array, in order; `None` for every other kind of
/// value.
pub uninterp spec fn toml_items(v: toml::Value) -> Option<Seq<toml::Value>>;

/// The entries of a TOML table, by key; `None` for every other kind of value.
pub uninterp spec fn toml_fields(v: toml::Value) -> Option<Map<Seq<char>, toml::Value>>;

/// The top-level table that a text parses to as one TOML document; `None`
/// where it is not one.
pub uninterp spec fn toml_document(text: Seq<char>) -> Option<Map<Seq<char>, toml::Value>>;

/// No two of the entries share a key.
pub open spec fn distinct_entries(entries: Seq<(String, toml::Value)>) -> bool {
    forall|i: int, j: int|
        0 <= i < j < entries.len() ==> (#[trigger] entries[i]).0@ != (#[trigger] entries[j]).0@
}

/// The table that has exactly the given entries.
pub open spec fn table_of(entries: Seq<(String, toml::Value)>) -> Map<Seq<char>, toml::Value> {
    Map::new(
        |key: Seq<char>|
            exists|i: int| 0 <= i < entries.len() && (#[trigger] entries[i]).0@ == key,
        |key: Seq<char>|
            entries[choose|i: int| 0 <= i < entries.len() && (#[trigger] entries[i]).0@ == key].1,
    )
}

/// Specifies `toml::Value::as_str`: the string slice of a `Value::String`,
/// `None` for any other variant.
pub assume_specification<'a>[ toml::Value::as_str ](v: &'a toml::Value) -> (r: Option<&'a str>)
    ensures
        match r {
            Some(s) => toml_text(*v) == Some(s@),
            None => toml_text(*v) is None,
        },
;

/// Specifies `toml::Value::as_array`: the vector of a `Value::Array`, `None`
/// for any other variant.
pub assume_specification<'a>[ toml::Value::as_array ](v: &'a toml::Value) -> (r: Option<
    &'a Vec<toml::Value>,
>)
    ensures
        match r {
            Some(items) => toml_items(*v) == Some(items@),
            None => toml_items(*v) is None,
        },
;

/// Calls `toml::Value::as_table` and copies the entries out: each key once
/// with its value, `None` where the value is no table.
#[verifier::external_body]
fn entries(v: &toml::Value) -> (r: Option<Vec<(String, toml::Value)>>)
    ensures
        match r {
            Some(pairs) => distinct_entries(pairs@) && toml_fields(*v) == Some(table_of(pairs@)),
            None => toml_fields(*v) is None,
        },
{
    v.as_table().map(|table| table.iter().map(|(k, v)| (k.clone(), v.clone())).collect())
}

/// Calls `toml::from_str` for a `toml::Table` and copies the entries out:
/// each key of the document once with its value, or the text of the crate's
/// error where the text is no TOML document.
#[verifier::external_body]
fn parse_document(text: &str) -> (r: Result<Vec<(String, toml::Value)>, String>)
    ensures
        match r {
            Ok(pairs) => distinct_entries(pairs@) && toml_document(text@) == Some(table_of(pairs@)),
            Err(_) => toml_document(text@) is None,
        },
{
    match toml::from_str::<toml::Table>(text) {
        Ok(table) => Ok(table.into_iter().collect()),
        Err(err) => Err(err.to_string()),
    }
}

/// Individual plugin configuration entry.
#[derive(Debug, PartialEq)]
pub struct PluginEntry {
    /// Logical plugin name.
    pub name: String,
    /// Command executed to spawn the plugin.
    pub command: String,
    /// Command line arguments passed to the plugin executable.
    pub args: Vec<String>,
    /// Environment variables injected when spawning the plugin, applied in
    /// order.
    pub env: Vec<(String, String)>,
    /// Optional working directory (relative to the manifest file if relative).
    pub cwd: Option<String>,
}

/// Manifest describing available plugins.
#[derive(Debug, PartialEq)]
pub struct PluginManifest {
    /// Declared plugin entries.
    pub plugins: Vec<PluginEntry>,
}

impl Default for PluginManifest {
    /// The manifest that declares no plugin.
    fn default() -> (r: Self)
        ensures
            r.plugins@.len() == 0,
    {
        PluginManifest { plugins: Vec::new() }
    }
}

/// What a table of a manifest declares for one plugin.
pub struct DeclaredPlugin {
    pub name: Seq<char>,
    pub command: Seq<char>,
    pub args: Seq<Seq<char>>,
    pub env: Map<Seq<char>, Seq<char>>,
    pub cwd: Option<Seq<char>>,
}

/// The keys that a plugin's table may have.
pub open spec fn entry_keys() -> Set<Seq<char>> {
    set!["name"@, "command"@, "args"@, "env"@, "cwd"@]
}

/// The texts of an array of strings; `None` where an element is no string.
pub open spec fn declared_texts(items: Seq<toml::Value>) -> Option<Seq<Seq<char>>> {
    if forall|i: int| 0 <= i < items.len() ==> toml_text(#[trigger] items[i]) is Some {
        Some(Seq::new(items.len(), |i: int| toml_text(items[i]).unwrap()))
    } else {
        None
    }
}

/// The arguments that a plugin's table declares: the strings of `args`, none
/// where the key is left out; `None` where `args` is no array of strings.
pub open spec fn declared_args(table: Map<Seq<char>, toml::Value>) -> Option<Seq<Seq<char>>> {
    if table.contains_key("args"@) {
        match toml_items(table["args"@]) {
            Some(items) => declared_texts(items),
            None => None,
        }
    } else {
        Some(Seq::empty())
    }
}

/// The variables of a table of strings; `None` where a value is no string.
pub open spec fn declared_variables(variables: Map<Seq<char>, toml::Value>) -> Option<
    Map<Seq<char>, Seq<char>>,
> {
    if forall|key: Seq<char>| #[trigger]
        variables.contains_key(key) ==> toml_text(variables[key]) is Some {
        Some(
            Map::new(
                |key: Seq<char>| variables.contains_key(key),
                |key: Seq<char>| toml_text(variables[key]).unwrap(),
            ),
        )
    } else {
        None
    }
}

/// The environment that a plugin's table declares: the strings of the table
/// `env`, none where the key is left out; `None` where `env` is no table of
/// strings.
pub open spec fn declared_env(table: Map<Seq<char>, toml::Value>) -> Option<
    Map<Seq<char>, Seq<char>>,
> {
    if table.contains_key("env"@) {
        match toml_fields(table["env"@]) {
            Some(variables) => declared_variables(variables),
            None => None,
        }
    } else {
        Some(Map::empty())
    }
}

/// The working directory that a plugin's table declares; the outer `None`
/// where `cwd` is no string.
pub open spec fn declared_cwd(table: Map<Seq<char>, toml::Value>) -> Option<Option<Seq<char>>> {
    if table.contains_key("cwd"@) {
        match toml_text(table["cwd"@]) {
            Some(cwd) => Some(Some(cwd)),
            None => None,
        }
    } else {
        Some(None)
    }
}

/// The string under a key that has to be there.
pub open spec fn required_text(table: Map<Seq<char>, toml::Value>, key: Seq<char>) -> Option<
    Seq<char>,
> {
    if table.contains_key(key) {
        toml_text(table[key])
    } else {
        None
    }
}

/// What a value declares for one plugin: it has to be a table with no other
/// keys than a plugin's, with the strings `name` and `command`, and with
/// `args`, `env` and `cwd` of their kinds where they are there.
pub open spec fn declared_plugin(v: toml::Value) -> Option<DeclaredPlugin> {
    match toml_fields(v) {
        Some(table) => if table.dom().subset_of(entry_keys()) {
            match (
                required_text(table, "name"@),
                required_text(table, "command"@),
                declared_args(table),
                declared_env(table),
                declared_cwd(table),
            ) {
                (Some(name), Some(command), Some(args), Some(env), Some(cwd)) => Some(
                    DeclaredPlugin { name, command, args, env, cwd },
                ),
                _ => None,
            }
        } else {
            None
        },
        None => None,
    }
}

/// What the elements of `plugins` declare, in order; `None` where one of them
/// declares no plugin.
pub open spec fn declared_plugins(items: Seq<toml::Value>) -> Option<Seq<DeclaredPlugin>> {
    if forall|i: int| 0 <= i < items.len() ==> declared_plugin(#[trigger] items[i]) is Some {
        Some(Seq::new(items.len(), |i: int| declared_plugin(items[i]).unwrap()))
    } else {
        None
    }
}

/// What a text declares as a manifest: it has to be a TOML document with no
/// other key than `plugins`, and `plugins`, where it is there, an array of
/// plugins. A document without `plugins` declares none.
pub open spec fn declared_manifest(text: Seq<char>) -> Option<Seq<DeclaredPlugin>> {
    match toml_document(text) {
        Some(document) => if document.dom().subset_of(set!["plugins"@]) {
            if document.contains_key("plugins"@) {
                match toml_items(document["plugins"@]) {
                    Some(items) => declared_plugins(items),
                    None => None,
                }
            } else {
                Some(Seq::empty())
            }
        } else {
            None
        },
        None => None,
    }
}

/// The variables that a list of pairs sets, where no name occurs twice.
pub open spec fn variables_of(pairs: Seq<(String, String)>) -> Map<Seq<char>, Seq<char>> {
    Map::new(
        |key: Seq<char>| exists|i: int| 0 <= i < pairs.len() && (#[trigger] pairs[i]).0@ == key,
        |key: Seq<char>|
            pairs[choose|i: int| 0 <= i < pairs.len() && (#[trigger] pairs[i]).0@ == key].1@,
    )
}

/// No two of the pairs set the same variable.
pub open spec fn distinct_variables(pairs: Seq<(String, String)>) -> bool {
    forall|i: int, j: int|
        0 <= i < j < pairs.len() ==> (#[trigger] pairs[i]).0@ != (#[trigger] pairs[j]).0@
}

/// The entry says what was declared: the same name, command, arguments and
/// working directory, and the declared variables, each once.
pub open spec fn entry_is(entry: PluginEntry, declared: DeclaredPlugin) -> bool {
    &&& entry.name@ == declared.name
    &&& entry.command@ == declared.command
    &&& texts_view(entry.args@) == declared.args
    &&& distinct_variables(entry.env@)
    &&& variables_of(entry.env@) == declared.env
    &&& text_of(entry.cwd) == declared.cwd
}

/// The manifest says what was declared, plugin by plugin, in order.
pub open spec fn manifest_is(manifest: PluginManifest, declared: Seq<DeclaredPlugin>) -> bool {
    &&& manifest.plugins.len() == declared.len()
    &&& forall|i: int|
        0 <= i < declared.len() ==> entry_is(#[trigger] manifest.plugins[i], declared[i])
}

/// In a list of entries with distinct keys, each entry is in the table.
proof fn lemma_table_of(entries: Seq<(String, toml::Value)>)
    requires
        distinct_entries(entries),
    ensures
        forall|i: int|
            0 <= i < entries.len() ==> table_of(entries).contains_key((#[trigger] entries[i]).0@)
                && table_of(entries)[entries[i].0@] == entries[i].1,
{
    assert forall|i: int| 0 <= i < entries.len() implies table_of(entries).contains_key(
        (#[trigger] entries[i]).0@,
    ) && table_of(entries)[entries[i].0@] == entries[i].1 by {
        let key = entries[i].0@;
        let j = choose|j: int| 0 <= j < entries.len() && (#[trigger] entries[j]).0@ == key;
        if j < i {
            assert(entries[j].0@ != entries[i].0@);
        } else if i < j {
            assert(entries[i].0@ != entries[j].0@);
        }
    }
}

/// Where the entry under a key stands in a list of entries with distinct
/// keys.
fn find(entries: &Vec<(String, toml::Value)>, key: &str) -> (r: Option<usize>)
    requires
        distinct_entries(entries@),
    ensures
        match r {
            Some(i) => i < entries.len() && entries[i as int].0@ == key@ && table_of(
                entries@,
            ).contains_key(key@) && table_of(entries@)[key@] == entries[i as int].1,
            None => !table_of(entries@).contains_key(key@),
        },
{
    let mut i: usize = 0;
    while i < entries.len()
        invariant
            i <= entries.len(),
            distinct_entries(entries@),
            forall|k: int| 0 <= k < i ==> (#[trigger] entries[k]).0@ != key@,
        decreases entries.len() - i,
    {
        if same_text(entries[i].0.as_str(), key) {
            proof {
                lemma_table_of(entries@);
            }
            return Some(i);
        }
        i += 1;
    }
    None
}

/// Whether a key is one of a plugin's.
fn is_entry_key(key: &str) -> (r: bool)
    ensures
        r == entry_keys().contains(key@),
{
    same_text(key, "name") || same_text(key, "command") || same_text(key, "args") || same_text(
        key,
        "env",
    ) || same_text(key, "cwd")
}

/// Whether every key of the entries is one of a plugin's.
fn only_entry_keys(entries: &Vec<(String, toml::Value)>) -> (r: bool)
    ensures
        r == table_of(entries@).dom().subset_of(entry_keys()),
{
    let mut i: usize = 0;
    while i < entries.len()
        invariant
            i <= entries.len(),
            forall|k: int| 0 <= k < i ==> entry_keys().contains((#[trigger] entries[k]).0@),
        decreases entries.len() - i,
    {
        if !is_entry_key(entries[i].0.as_str()) {
            assert(table_of(entries@).dom().contains(entries[i as int].0@));
            return false;
        }
        i += 1;
    }
    assert forall|key: Seq<char>| table_of(entries@).dom().contains(key) implies entry_keys().contains(
        key,
    ) by {
        let k = choose|k: int| 0 <= k < entries.len() && (#[trigger] entries[k]).0@ == key;
        assert(entry_keys().contains(entries[k].0@));
    }
    true
}

/// Reads an array of strings.
fn read_texts(items: &Vec<toml::Value>) -> (r: Option<Vec<String>>)
    ensures
        match r {
            Some(texts) => declared_texts(items@) == Some(texts_view(texts@)),
            None => declared_texts(items@) is None,
        },
{
    let mut texts: Vec<String> = Vec::new();
    let mut i: usize = 0;
    while i < items.len()
        invariant
            i <= items.len(),
            texts.len() == i,
            forall|k: int| 0 <= k < i ==> toml_text(#[trigger] items[k]) == Some(texts[k]@),
        decreases items.len() - i,
    {
        match items[i].as_str() {
            Some(text) => {
                texts.push(text.to_owned());
            },
            None => {
                assert(toml_text(items@[i as int]) is None);
                return None;
            },
        }
        i += 1;
    }
    assert(declared_texts(items@).unwrap() =~= texts_view(texts@));
    Some(texts)
}

/// Reads a table of strings.
fn read_variables(v: &toml::Value) -> (r: Option<Vec<(String, String)>>)
    ensures
        match r {
            Some(pairs) => toml_fields(*v) matches Some(variables) && distinct_variables(pairs@)
                && declared_variables(variables) == Some(variables_of(pairs@)),
            None => match toml_fields(*v) {
                Some(variables) => declared_variables(variables) is None,
                None => true,
            },
        },
{
    let all = match entries(v) {
        Some(all) => all,
        None => { return None; },
    };
    proof {
        lemma_table_of(all@);
    }
    let ghost variables = table_of(all@);
    let mut pairs: Vec<(String, String)> = Vec::new();
    let mut i: usize = 0;
    while i < all.len()
        invariant
            i <= all.len(),
            pairs.len() == i,
            distinct_entries(all@),
            variables == table_of(all@),
            toml_fields(*v) == Some(variables),
            forall|k: int|
                0 <= k < all.len() ==> variables.contains_key((#[trigger] all[k]).0@)
                    && variables[all[k].0@] == all[k].1,
            forall|k: int|
                0 <= k < i ==> (#[trigger] pairs[k]).0@ == all[k].0@ && toml_text(all[k].1) == Some(
                    pairs[k].1@,
                ),
        decreases all.len() - i,
    {
        match all[i].1.as_str() {
            Some(text) => {
                pairs.push((all[i].0.clone(), text.to_owned()));
            },
            None => {
                assert(variables.contains_key(all[i as int].0@));
                assert(variables[all[i as int].0@] == all[i as int].1);
                return None;
            },
        }
        i += 1;
    }
    proof {
        assert forall|a: int, b: int| 0 <= a < b < pairs.len() implies (#[trigger] pairs[a]).0@ != (
        #[trigger] pairs[b]).0@ by {
            assert(all[a].0@ != all[b].0@);
        }
        assert forall|key: Seq<char>| #[trigger] variables.contains_key(key) implies toml_text(
            variables[key],
        ) is Some by {
            let k = choose|k: int| 0 <= k < all.len() && (#[trigger] all[k]).0@ == key;
            assert(toml_text(all[k].1) == Some(pairs[k].1@));
        }
        let wanted = declared_variables(variables).unwrap();
        assert forall|key: Seq<char>| wanted.contains_key(key) <==> variables_of(
            pairs@,
        ).contains_key(key) by {
            if wanted.contains_key(key) {
                let k = choose|k: int| 0 <= k < all.len() && (#[trigger] all[k]).0@ == key;
                assert(pairs[k].0@ == key);
            }
            if variables_of(pairs@).contains_key(key) {
                let k = choose|k: int| 0 <= k < pairs.len() && (#[trigger] pairs[k]).0@ == key;
                assert(all[k].0@ == key);
            }
        }
        assert forall|key: Seq<char>| wanted.contains_key(key) implies wanted[key] == variables_of(
            pairs@,
        )[key] by {
            let k = choose|k: int| 0 <= k < pairs.len() && (#[trigger] pairs[k]).0@ == key;
            assert(all[k].0@ == key);
            assert(variables[all[k].0@] == all[k].1);
            assert(toml_text(all[k].1) == Some(pairs[k].1@));
        }
        assert(wanted =~= variables_of(pairs@));
    }
    Some(pairs)
}

/// Reads the string under a key that has to be there.
fn read_required(table: &Vec<(String, toml::Value)>, key: &str) -> (r: Option<String>)
    requires
        distinct_entries(table@),
    ensures
        match r {
            Some(text) => required_text(table_of(table@), key@) == Some(text@),
            None => required_text(table_of(table@), key@) is None,
        },
{
    match find(table, key) {
        Some(i) => match table[i].1.as_str() {
            Some(text) => Some(text.to_owned()),
            None => None,
        },
        None => None,
    }
}

/// Reads what a value declares for one plugin.
fn read_plugin(v: &toml::Value) -> (r: Option<PluginEntry>)
    ensures
        match r {
            Some(entry) => declared_plugin(*v) matches Some(declared) && entry_is(entry, declared),
            None => declared_plugin(*v) is None,
        },
{
    let table = match entries(v) {
        Some(table) => table,
        None => { return None; },
    };
    if !only_entry_keys(&table) {
        return None;
    }
    let name = match read_required(&table, "name") {
        Some(name) => name,
        None => { return None; },
    };
    let command = match read_required(&table, "command") {
        Some(command) => command,
        None => { return None; },
    };
    let args = match find(&table, "args") {
        Some(i) => match table[i].1.as_array() {
            Some(items) => match read_texts(items) {
                Some(args) => args,
                None => { return None; },
            },
            None => { return None; },
        },
        None => {
            let args: Vec<String> = Vec::new();
            assert(texts_view(args@) =~= Seq::empty());
            args
        },
    };
    let env = match find(&table, "env") {
        Some(i) => match read_variables(&table[i].1) {
            Some(env) => env,
            None => { return None; },
        },
        None => {
            let env: Vec<(String, String)> = Vec::new();
            assert(variables_of(env@) =~= Map::empty());
            env
        },
    };
    let cwd = match find(&table, "cwd") {
        Some(i) => match table[i].1.as_str() {
            Some(cwd) => Some(cwd.to_owned()),
            None => { return None; },
        },
        None => None,
    };
    Some(PluginEntry { name, command, args, env, cwd })
}

/// Reads what the elements of `plugins` declare.
fn read_plugins(items: &Vec<toml::Value>) -> (r: Option<Vec<PluginEntry>>)
    ensures
        match r {
            Some(plugins) => declared_plugins(items@) matches Some(declared) && manifest_is(
                PluginManifest { plugins },
                declared,
            ),
            None => declared_plugins(items@) is None,
        },
{
    let mut plugins: Vec<PluginEntry> = Vec::new();
    let mut i: usize = 0;
    while i < items.len()
        invariant
            i <= items.len(),
            plugins.len() == i,
            forall|k: int|
                0 <= k < i ==> (declared_plugin(#[trigger] items[k]) matches Some(declared)
                    && entry_is(plugins[k], declared)),
        decreases items.len() - i,
    {
        match read_plugin(&items[i]) {
            Some(entry) => {
                plugins.push(entry);
            },
            None => {
                assert(declared_plugin(items@[i as int]) is None);
                return None;
            },
        }
        i += 1;
    }
    Some(plugins)
}

/// What the caller found at the manifest's path.
#[derive(Debug, PartialEq)]
pub enum ManifestFile {
    /// There is no file.
    Missing,
    /// There is a file, but it could not be read.
    Unreadable { cause: String },
    /// The text of the file.
    Text(String),
}

/// Why the host cannot start.
#[derive(Debug, PartialEq)]
pub enum ManifestError {
    /// The manifest could not be read.
    Unreadable { path: String, cause: String },
    /// The manifest's text is no manifest.
    Malformed { path: String, cause: String },
}

/// The message of a manifest error: it cites the path.
pub open spec fn manifest_error_text(unreadable: bool, path: Seq<char>) -> Seq<char> {
    if unreadable {
        "failed to read plugin manifest `"@ + path + "`"@
    } else {
        "failed to parse plugin manifest `"@ + path + "`"@
    }
}

impl ManifestError {
    /// What to tell the user.
    pub fn to_string(&self) -> (r: String)
        ensures
            r@ == manifest_error_text(
                self is Unreadable,
                match *self {
                    ManifestError::Unreadable { path, .. } => path@,
                    ManifestError::Malformed { path, .. } => path@,
                },
            ),
    {
        match self {
            ManifestError::Unreadable { path, .. } => String::from_str(
                "failed to read plugin manifest `",
            ).concat(path.as_str()).concat("`"),
            ManifestError::Malformed { path, .. } => String::from_str(
                "failed to parse plugin manifest `",
            ).concat(path.as_str()).concat("`"),
        }
    }
}

impl PluginManifest {
    /// Read a manifest from its text: see [`declared_manifest`] for what a
    /// text declares. The error says why the text declares none.
    pub fn parse(text: &str) -> (r: Result<Self, String>)
        ensures
            match r {
                Ok(manifest) => declared_manifest(text@) matches Some(declared) && manifest_is(
                    manifest,
                    declared,
                ),
                Err(_) => declared_manifest(text@) is None,
            },
    {
        let document = match parse_document(text) {
            Ok(document) => document,
            Err(cause) => { return Err(cause); },
        };
        let mut i: usize = 0;
        while i < document.len()
            invariant
                i <= document.len(),
                toml_document(text@) == Some(table_of(document@)),
                forall|k: int| 0 <= k < i ==> (#[trigger] document[k]).0@ == "plugins"@,
            decreases document.len() - i,
        {
            if !same_text(document[i].0.as_str(), "plugins") {
                assert(table_of(document@).dom().contains(document[i as int].0@));
                return Err(
                    String::from_str("unknown key `").concat(document[i].0.as_str()).concat("`"),
                );
            }
            i += 1;
        }
        assert forall|key: Seq<char>| table_of(document@).dom().contains(key) implies set![
            "plugins"@,
        ].contains(key) by {
            let k = choose|k: int| 0 <= k < document.len() && (#[trigger] document[k]).0@ == key;
            assert(document[k].0@ == "plugins"@);
        }
        match find(&document, "plugins") {
            Some(at) => match document[at].1.as_array() {
                Some(items) => match read_plugins(items) {
                    Some(plugins) => Ok(PluginManifest { plugins }),
                    None => Err("`plugins` holds what is no plugin".to_owned()),
                },
                None => Err("`plugins` is no array".to_owned()),
            },
            None => Ok(PluginManifest::default()),
        }
    }

    /// Decide what the host starts with, given what was found at the
    /// manifest's path: a missing manifest stands for no plugins; a manifest
    /// that cannot be read or whose text is no manifest stops the host with an
    /// error that cites the path.
    pub fn load(path: &str, found: ManifestFile) -> (r: Result<Self, ManifestError>)
        ensures
            match found {
                ManifestFile::Missing => r matches Ok(manifest) && manifest.plugins@.len() == 0,
                ManifestFile::Unreadable { cause } => r matches Err(
                    ManifestError::Unreadable { path: p, cause: c },
                ) && p@ == path@ && c == cause,
                ManifestFile::Text(text) => match declared_manifest(text@) {
                    Some(declared) => r matches Ok(manifest) && manifest_is(manifest, declared),
                    None => r matches Err(ManifestError::Malformed { path: p, .. }) && p@ == path@,
                },
            },
    {
        match found {
            ManifestFile::Missing => Ok(PluginManifest::default()),
            ManifestFile::Unreadable { cause } => Err(
                ManifestError::Unreadable { path: path.to_owned(), cause },
            ),
            ManifestFile::Text(text) => match PluginManifest::parse(text.as_str()) {
                Ok(manifest) => Ok(manifest),
                Err(cause) => Err(ManifestError::Malformed { path: path.to_owned(), cause }),
            },
        }
    }
}

} // verus!
