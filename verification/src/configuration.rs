//! The plugin's configuration: the key map that dprint hands over, how it is
//! resolved, and the golangci-lint arguments a configuration asks for.
use vstd::prelude::*;

use dprint_core::configuration::GlobalConfiguration;
use indexmap::IndexMap;

use crate::golangci::{lint_args, Version};
use crate::text::owned;

verus! {

/// dprint's global configuration (`dprint_core::configuration::GlobalConfiguration`),
/// which resolution receives and does not read. Declared opaque: nothing
/// about its fields is claimed.
#[verifier::external_type_specification]
#[verifier::external_body]
pub struct ExGlobalConfiguration(GlobalConfiguration);

/// A value of the plugin's configuration section. Strings, booleans and
/// numbers keep their value; of arrays and objects only the kind is kept,
/// since no key of this plugin takes one.
#[derive(Debug, Clone)]
pub enum ConfigKeyValue {
    String(String),
    Number(i32),
    Bool(bool),
    Array,
    Object,
    Null,
}

/// The plugin's configuration section, as dprint hands it over: keys with
/// their values, in the order in which they were first inserted.
pub type ConfigKeyMap = IndexMap<String, ConfigKeyValue>;

/// `indexmap::IndexMap`, which holds the configuration section.
#[verifier::external_type_specification]
#[verifier::external_body]
#[verifier::reject_recursive_types(K)]
#[verifier::reject_recursive_types(V)]
#[verifier::reject_recursive_types(S)]
pub struct ExIndexMap<K, V, S>(IndexMap<K, V, S>);

/// The entries of a configuration section, in order, as (key, value).
pub uninterp spec fn config_entries(map: IndexMap<String, ConfigKeyValue>) -> Seq<
    (Seq<char>, ConfigKeyValue),
>;

/// No key occurs twice.
pub open spec fn keys_unique(e: Seq<(Seq<char>, ConfigKeyValue)>) -> bool {
    forall|i: int, j: int| 0 <= i < j < e.len() ==> #[trigger] e[i].0 != #[trigger] e[j].0
}

/// Where `key` stands among the entries, if it is there.
pub open spec fn key_position(e: Seq<(Seq<char>, ConfigKeyValue)>, key: Seq<char>) -> Option<int> {
    if exists|j: int| 0 <= j < e.len() && #[trigger] e[j].0 == key {
        Some(choose|j: int| 0 <= j < e.len() && #[trigger] e[j].0 == key)
    } else {
        None
    }
}

/// The value that `key` maps to, if it is there.
pub open spec fn value_of(e: Seq<(Seq<char>, ConfigKeyValue)>, key: Seq<char>) -> Option<
    ConfigKeyValue,
> {
    match key_position(e, key) {
        Some(j) => Some(e[j].1),
        None => None,
    }
}

/// The number of entries, through `IndexMap::len`.
///
/// Trusted: `len` returns the number of key-value pairs.
#[verifier::external_body]
fn config_len(map: &IndexMap<String, ConfigKeyValue>) -> (n: usize)
    ensures
        n == config_entries(*map).len(),
{
    map.len()
}

/// The entry at position `i`, through `IndexMap::get_index`.
///
/// Trusted: `get_index` returns the key and value at that position in the
/// map's order where `i` is below the length, and `None` otherwise; an
/// `IndexMap` holds each key at most once (inserting an equal key replaces
/// the value in place), so no other entry has that key.
#[verifier::external_body]
fn config_entry(map: &IndexMap<String, ConfigKeyValue>, i: usize) -> (r: Option<
    (&String, &ConfigKeyValue),
>)
    ensures
        match r {
            Some((k, v)) => {
                &&& i < config_entries(*map).len()
                &&& k@ == config_entries(*map)[i as int].0
                &&& *v == config_entries(*map)[i as int].1
                &&& forall|j: int|
                    0 <= j < config_entries(*map).len() && j != i ==> #[trigger] config_entries(
                        *map,
                    )[j].0 != k@
            },
            None => i >= config_entries(*map).len(),
        },
{
    map.get_index(i)
}

/// A problem found in the configuration section.
#[derive(Debug, Clone)]
pub struct ConfigurationDiagnostic {
    pub property_name: String,
    pub message: String,
}

/// The plugin's resolved configuration.
#[derive(Clone)]
pub struct Configuration {
    pub config_path: Option<String>,
    pub fix: bool,
    pub version: Option<String>,
}

impl Default for Configuration {
    fn default() -> (c: Self)
        ensures
            c.config_path is None,
            !c.fix,
            c.version is None,
    {
        Configuration { config_path: None, fix: false, version: None }
    }
}

/// The characters of an optional owned string.
pub open spec fn opt_string_chars(o: Option<String>) -> Option<Seq<char>> {
    match o {
        Some(s) => Some(s@),
        None => None,
    }
}

/// The message of the diagnostic that an entry gives, if it gives one: a
/// known key whose value has the wrong type, or an unknown key.
pub open spec fn entry_problem(key: Seq<char>, value: ConfigKeyValue) -> Option<Seq<char>> {
    if key == "configPath"@ {
        match value {
            ConfigKeyValue::String(_) => None,
            _ => Some("Expected a string value for configPath"@),
        }
    } else if key == "fix"@ {
        match value {
            ConfigKeyValue::Bool(_) => None,
            _ => Some("Expected a boolean value for fix"@),
        }
    } else if key == "version"@ {
        match value {
            ConfigKeyValue::String(_) => None,
            _ => Some("Expected a string value for version"@),
        }
    } else {
        Some("Unknown configuration key: "@ + key)
    }
}

/// The diagnostics of a run of entries, in order, as (property, message).
pub open spec fn diagnostics_of(e: Seq<(Seq<char>, ConfigKeyValue)>) -> Seq<(Seq<char>, Seq<char>)>
    decreases e.len(),
{
    if e.len() == 0 {
        Seq::empty()
    } else {
        let rest = diagnostics_of(e.drop_last());
        match entry_problem(e.last().0, e.last().1) {
            Some(m) => rest.push((e.last().0, m)),
            None => rest,
        }
    }
}

/// Whether fixes are wanted after a run of entries: the last `fix` entry
/// that holds a boolean decides, and fixes are wanted where there is none.
pub open spec fn resolved_fix(e: Seq<(Seq<char>, ConfigKeyValue)>) -> bool
    decreases e.len(),
{
    if e.len() == 0 {
        true
    } else {
        match e.last().1 {
            ConfigKeyValue::Bool(b) if e.last().0 == "fix"@ => b,
            _ => resolved_fix(e.drop_last()),
        }
    }
}

/// The string that the last entry under `key` holding a string gives.
pub open spec fn resolved_string(e: Seq<(Seq<char>, ConfigKeyValue)>, key: Seq<char>) -> Option<
    Seq<char>,
>
    decreases e.len(),
{
    if e.len() == 0 {
        None
    } else {
        match e.last().1 {
            ConfigKeyValue::String(s) if e.last().0 == key => Some(s@),
            _ => resolved_string(e.drop_last(), key),
        }
    }
}

/// A diagnostic as (property, message).
pub open spec fn diagnostic_view(d: ConfigurationDiagnostic) -> (Seq<char>, Seq<char>) {
    (d.property_name@, d.message@)
}

/// The diagnostic, if any, for one entry.
fn check_entry(key: &String, value: &ConfigKeyValue) -> (r: Option<ConfigurationDiagnostic>)
    ensures
        match entry_problem(key@, *value) {
            Some(m) => r matches Some(d) && diagnostic_view(d) == (key@, m),
            None => r is None,
        },
{
    if *key == owned("configPath") {
        match value {
            ConfigKeyValue::String(_) => None,
            _ => Some(
                ConfigurationDiagnostic {
                    property_name: key.clone(),
                    message: owned("Expected a string value for configPath"),
                },
            ),
        }
    } else if *key == owned("fix") {
        match value {
            ConfigKeyValue::Bool(_) => None,
            _ => Some(
                ConfigurationDiagnostic {
                    property_name: key.clone(),
                    message: owned("Expected a boolean value for fix"),
                },
            ),
        }
    } else if *key == owned("version") {
        match value {
            ConfigKeyValue::String(_) => None,
            _ => Some(
                ConfigurationDiagnostic {
                    property_name: key.clone(),
                    message: owned("Expected a string value for version"),
                },
            ),
        }
    } else {
        let mut message = owned("Unknown configuration key: ");
        message.append(key.as_str());
        Some(ConfigurationDiagnostic { property_name: key.clone(), message })
    }
}

/// Resolves the plugin's configuration section: `configPath` (a string)
/// names golangci-lint's configuration file, `fix` (a boolean, `true` where
/// it is absent) asks for fixes, `version` (a string) pins the golangci-lint
/// release. Every other key, and every value of the wrong type, gives one
/// diagnostic, in the order of the map.
pub fn resolve_config(config: ConfigKeyMap, _global_config: &GlobalConfiguration) -> (r: (
    Configuration,
    Vec<ConfigurationDiagnostic>,
))
    ensures
        opt_string_chars(r.0.config_path) == resolved_string(config_entries(config), "configPath"@),
        r.0.fix == resolved_fix(config_entries(config)),
        opt_string_chars(r.0.version) == resolved_string(config_entries(config), "version"@),
        r.1@.map_values(|d: ConfigurationDiagnostic| diagnostic_view(d)) == diagnostics_of(
            config_entries(config),
        ),
        keys_unique(config_entries(config)),
        r.0.fix == (match value_of(config_entries(config), "fix"@) {
            Some(ConfigKeyValue::Bool(b)) => b,
            _ => true,
        }),
        opt_string_chars(r.0.config_path) == (match value_of(config_entries(config), "configPath"@) {
            Some(ConfigKeyValue::String(s)) => Some(s@),
            _ => None,
        }),
        opt_string_chars(r.0.version) == (match value_of(config_entries(config), "version"@) {
            Some(ConfigKeyValue::String(s)) => Some(s@),
            _ => None,
        }),
{
    let ghost entries = config_entries(config);
    let n = config_len(&config);
    let mut diagnostics: Vec<ConfigurationDiagnostic> = Vec::new();
    let mut resolved = Configuration { config_path: None, fix: true, version: None };
    let mut i: usize = 0;
    while i < n
        invariant
            i <= n,
            n == entries.len(),
            entries == config_entries(config),
            opt_string_chars(resolved.config_path) == resolved_string(
                entries.take(i as int),
                "configPath"@,
            ),
            resolved.fix == resolved_fix(entries.take(i as int)),
            opt_string_chars(resolved.version) == resolved_string(
                entries.take(i as int),
                "version"@,
            ),
            diagnostics@.map_values(|d: ConfigurationDiagnostic| diagnostic_view(d))
                == diagnostics_of(entries.take(i as int)),
            forall|k: int, j: int|
                #![trigger entries[j], entries[k]]
                0 <= k < i && 0 <= j < n && j != k ==> entries[j].0 != entries[k].0,
        decreases n - i,
    {
        let (key, value) = config_entry(&config, i).unwrap();
        let ghost prefix = entries.take(i + 1);
        assert(prefix.drop_last() =~= entries.take(i as int));
        assert(prefix.last() == entries[i as int]);
        let ghost before = diagnostics@;
        proof {
            reveal_strlit("configPath");
            reveal_strlit("version");
            assert("configPath"@.len() != "version"@.len());
        }
        match check_entry(key, value) {
            Some(d) => {
                diagnostics.push(d);
                assert(diagnostics@.map_values(|d: ConfigurationDiagnostic| diagnostic_view(d))
                    =~= before.map_values(|d: ConfigurationDiagnostic| diagnostic_view(d)).push(
                    diagnostic_view(d),
                ));
            },
            None => {},
        }
        match value {
            ConfigKeyValue::String(s) => {
                if *key == owned("configPath") {
                    resolved.config_path = Some(s.clone());
                } else if *key == owned("version") {
                    resolved.version = Some(s.clone());
                }
            },
            ConfigKeyValue::Bool(b) => {
                if *key == owned("fix") {
                    resolved.fix = *b;
                }
            },
            _ => {},
        }
        i = i + 1;
    }
    assert(entries.take(n as int) =~= entries);
    assert(keys_unique(entries)) by {
        assert forall|a: int, b: int| 0 <= a < b < entries.len() implies #[trigger] entries[a].0
            != #[trigger] entries[b].0 by {
            assert(entries[b].0 != entries[a].0);
        }
    }
    proof {
        lemma_fix_follows_key(entries);
        lemma_string_follows_key(entries, "configPath"@);
        lemma_string_follows_key(entries, "version"@);
    }
    (resolved, diagnostics)
}

/// The arguments of `golangci-lint run` on `file_path` that a configuration
/// asks for.
pub open spec fn configuration_args(
    fix: bool,
    config_path: Option<Seq<char>>,
    file_path: Seq<char>,
) -> Seq<Seq<char>> {
    seq!["run"@] + (if fix {
        seq!["--fix"@]
    } else {
        Seq::empty()
    }) + (match config_path {
        Some(p) => seq!["--config="@ + p],
        None => Seq::empty(),
    }) + seq!["--out-format=json"@, file_path]
}

impl Configuration {
    /// The arguments of `golangci-lint run` on `file_path` under this
    /// configuration: `--fix` where fixes are wanted, `--config=<path>` where
    /// a configuration file is given, `--out-format=json`, then the file.
    pub fn to_args(&self, file_path: &str) -> (args: Vec<String>)
        ensures
            args.deep_view() == configuration_args(
                self.fix,
                opt_string_chars(self.config_path),
                file_path@,
            ),
    {
        let mut args: Vec<String> = Vec::new();
        args.push(owned("run"));
        let ghost mut expected: Seq<Seq<char>> = seq!["run"@];
        assert(args.deep_view() =~= expected);
        if self.fix {
            args.push(owned("--fix"));
            proof {
                expected = expected + seq!["--fix"@];
            }
            assert(args.deep_view() =~= expected);
        }
        if let Some(path) = &self.config_path {
            let mut arg = owned("--config=");
            arg.append(path.as_str());
            args.push(arg);
            proof {
                expected = expected + seq!["--config="@ + path@];
            }
            assert(args.deep_view() =~= expected);
        }
        args.push(owned("--out-format=json"));
        args.push(owned(file_path));
        assert(args.deep_view() =~= configuration_args(
            self.fix,
            opt_string_chars(self.config_path),
            file_path@,
        ));
        args
    }
}

} // verus!

verus! {

/// With unique keys, the value under `k` once `x` is appended.
proof fn lemma_value_of_push(p: Seq<(Seq<char>, ConfigKeyValue)>, x: (Seq<char>, ConfigKeyValue), k: Seq<char>)
    requires
        keys_unique(p.push(x)),
    ensures
        value_of(p.push(x), k) == (if x.0 == k {
            Some(x.1)
        } else {
            value_of(p, k)
        }),
{
    let e = p.push(x);
    assert(e.drop_last() =~= p);
    if x.0 == k {
        assert(e[e.len() - 1].0 == k);
        let j = choose|j: int| 0 <= j < e.len() && #[trigger] e[j].0 == k;
        if j != e.len() - 1 {
            assert(e[j].0 != e[e.len() - 1].0);
        }
    } else {
        if exists|j: int| 0 <= j < e.len() && #[trigger] e[j].0 == k {
            let j = choose|j: int| 0 <= j < e.len() && #[trigger] e[j].0 == k;
            assert(j < p.len());
            assert(p[j].0 == k);
            let q = choose|q: int| 0 <= q < p.len() && #[trigger] p[q].0 == k;
            if q != j {
                if q < j {
                    assert(e[q].0 != e[j].0);
                } else {
                    assert(e[j].0 != e[q].0);
                }
            }
        } else {
            assert forall|q: int| 0 <= q < p.len() implies #[trigger] p[q].0 != k by {
                assert(e[q] == p[q]);
            }
        }
    }
}

/// A prefix of entries with unique keys has unique keys.
proof fn lemma_unique_drop_last(e: Seq<(Seq<char>, ConfigKeyValue)>)
    requires
        keys_unique(e),
        e.len() > 0,
    ensures
        keys_unique(e.drop_last()),
        e.drop_last().push(e.last()) == e,
{
    let p = e.drop_last();
    assert forall|i: int, j: int| 0 <= i < j < p.len() implies #[trigger] p[i].0 != #[trigger] p[j].0 by {
        assert(e[i].0 != e[j].0);
    }
    assert(p.push(e.last()) =~= e);
}

/// With unique keys, fixes are wanted exactly when the map has no `fix`
/// key holding `false`: a `fix` key holding a boolean decides, and any
/// other `fix` value (reported as a diagnostic) leaves fixes on.
pub proof fn lemma_fix_follows_key(e: Seq<(Seq<char>, ConfigKeyValue)>)
    requires
        keys_unique(e),
    ensures
        resolved_fix(e) == (match value_of(e, "fix"@) {
            Some(ConfigKeyValue::Bool(b)) => b,
            _ => true,
        }),
    decreases e.len(),
{
    if e.len() > 0 {
        lemma_unique_drop_last(e);
        lemma_fix_follows_key(e.drop_last());
        lemma_value_of_push(e.drop_last(), e.last(), "fix"@);
    }
}

/// With unique keys, a string-valued key resolves to the string it holds
/// in the map, and to nothing where it is absent or holds another kind of
/// value (reported as a diagnostic).
pub proof fn lemma_string_follows_key(e: Seq<(Seq<char>, ConfigKeyValue)>, key: Seq<char>)
    requires
        keys_unique(e),
    ensures
        resolved_string(e, key) == (match value_of(e, key) {
            Some(ConfigKeyValue::String(s)) => Some(s@),
            _ => None,
        }),
    decreases e.len(),
{
    if e.len() > 0 {
        lemma_unique_drop_last(e);
        lemma_string_follows_key(e.drop_last(), key);
        lemma_value_of_push(e.drop_last(), e.last(), key);
    }
}

/// There is a diagnostic exactly when some entry is unknown or ill-typed,
/// and never more diagnostics than entries.
pub proof fn lemma_diagnostics_iff_problem(e: Seq<(Seq<char>, ConfigKeyValue)>)
    ensures
        diagnostics_of(e).len() <= e.len(),
        (diagnostics_of(e).len() == 0) == (forall|i: int|
            0 <= i < e.len() ==> #[trigger] entry_problem(e[i].0, e[i].1) is None),
    decreases e.len(),
{
    if e.len() > 0 {
        let p = e.drop_last();
        lemma_diagnostics_iff_problem(p);
        assert forall|i: int| 0 <= i < p.len() implies #[trigger] p[i] == e[i] by {}
        if entry_problem(e.last().0, e.last().1) is None {
            if diagnostics_of(e).len() == 0 {
                assert forall|i: int| 0 <= i < e.len() implies #[trigger] entry_problem(
                    e[i].0,
                    e[i].1,
                ) is None by {
                    if i < p.len() {
                        assert(entry_problem(p[i].0, p[i].1) is None);
                    }
                }
            } else {
                let i = choose|i: int|
                    0 <= i < p.len() && !(#[trigger] entry_problem(p[i].0, p[i].1) is None);
                assert(entry_problem(e[i].0, e[i].1) is Some);
            }
        } else {
            assert(entry_problem(e[e.len() - 1].0, e[e.len() - 1].1) is Some);
        }
    }
}

/// The configuration's own arguments are those of golangci-lint version 1.
pub proof fn lemma_to_args_is_v1(fix: bool, config_path: Option<Seq<char>>, file_path: Seq<char>)
    ensures
        configuration_args(fix, config_path, file_path) == lint_args(
            Version::V1,
            fix,
            config_path,
            file_path,
        ),
{
    assert(configuration_args(fix, config_path, file_path) =~= lint_args(
        Version::V1,
        fix,
        config_path,
        file_path,
    ));
}

} // verus!

verus! {

/// A known key holding a value of its type gives no diagnostic: `fix` with
/// either boolean, `configPath` or `version` with any string.
pub proof fn lemma_well_typed_entry_accepted(b: bool, s: String)
    ensures
        entry_problem("fix"@, ConfigKeyValue::Bool(b)) is None,
        entry_problem("configPath"@, ConfigKeyValue::String(s)) is None,
        entry_problem("version"@, ConfigKeyValue::String(s)) is None,
{
    lemma_known_keys_distinct();
}

/// The three known keys differ.
proof fn lemma_known_keys_distinct()
    ensures
        "fix"@ != "configPath"@,
        "fix"@ != "version"@,
        "configPath"@ != "version"@,
{
    reveal_strlit("fix");
    reveal_strlit("configPath");
    reveal_strlit("version");
    assert("fix"@.len() != "configPath"@.len());
    assert("fix"@.len() != "version"@.len());
    assert("configPath"@.len() != "version"@.len());
}

/// A configuration section made only of known keys holding values of their
/// types resolves without any diagnostic.
pub proof fn lemma_well_typed_section_has_no_diagnostics(e: Seq<(Seq<char>, ConfigKeyValue)>)
    requires
        forall|i: int|
            0 <= i < e.len() ==> {
                ||| (#[trigger] e[i]).0 == "fix"@ && e[i].1 is Bool
                ||| (e[i].0 == "configPath"@ || e[i].0 == "version"@) && e[i].1 is String
            },
    ensures
        diagnostics_of(e).len() == 0,
{
    lemma_known_keys_distinct();
    assert forall|i: int| 0 <= i < e.len() implies #[trigger] entry_problem(e[i].0, e[i].1) is None by {
        let x = e[i];
        match x.1 {
            ConfigKeyValue::Bool(b) => {},
            ConfigKeyValue::String(s) => {},
            _ => {},
        }
    }
    lemma_diagnostics_iff_problem(e);
}

} // verus!
