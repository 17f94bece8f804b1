//! The configuration: the shell, the outputs and the items.

use vstd::prelude::*;
use crate::digest::{DigestKind, pattern_is_valid, regex_valid};
use crate::document::{
    TableRef, TomlValue, all_of, entries, tab, array_field, find, flag_field, get_array, get_flag, get_str, get_table,
    lemma_all_of_ends, lemma_all_of_step, lookup, parse_document, prepend, str_field, table_field,
    toml_document,
};
use crate::item::{Item, ItemKind};
use crate::sample::str_eq;
use itertools::Itertools;

verus! {

/// Relies on `itertools::Itertools::sorted`: the same strings in ascending
/// order, so that equal strings stand next to each other.
#[verifier::external_body]
fn sorted_strings(v: Vec<String>) -> (r: Vec<String>)
    ensures
        key_views(r@).to_multiset() == key_views(v@).to_multiset(),
        forall|i: int, j: int, k: int|
            0 <= i < j < k < r@.len() && r@[i]@ == r@[k]@ ==> r@[j]@ == r@[i]@,
{
    v.into_iter().sorted().collect()
}

/// Settings that apply to every item.
#[derive(Clone, Debug)]
pub struct General {
    /// The interpreter that runs shell scripts.
    pub shell: String,
}

/// Credentials of a time-series database.
#[derive(Clone, Debug)]
pub struct InfluxDBAuth {
    pub username: String,
    pub password: String,
}

/// Where results are written.
#[derive(Clone, Debug)]
pub enum OutputKind {
    /// One file per metric under `base_path`.
    File { base_path: String, always_write_raw: bool },
    /// A time-series database.
    InfluxDB {
        url: String,
        database: String,
        auth: Option<InfluxDBAuth>,
        use_raw_as_fallback: bool,
        always_write_raw: bool,
    },
}

/// The whole configuration.
#[derive(Clone, Debug)]
pub struct Config {
    pub general: General,
    pub output: Vec<OutputKind>,
    pub items: Vec<Item>,
}

/// Why a configuration was refused.
#[derive(Clone, Debug)]
pub enum ConfigError {
    /// The text is not a TOML document.
    Syntax,
    /// The document does not describe a configuration: a required field is
    /// missing, or a field has the wrong type or value. `field` names the
    /// part that was read.
    Invalid { field: String },
    /// These keys name more than one item.
    DuplicateKeys { keys: Vec<String> },
    /// These items have an interval of zero.
    IntervalTooSmall { keys: Vec<String> },
}

pub open spec fn default_base_path() -> Seq<char> {
    "/var/log/antikoerper/"@
}

impl Default for OutputKind {
    /// Files under `/var/log/antikoerper/`, raw text only as a fallback.
    fn default() -> (r: OutputKind)
        ensures
            match r {
                OutputKind::File { base_path, always_write_raw } => base_path@
                    == default_base_path() && !always_write_raw,
                _ => false,
            },
    {
        OutputKind::File { base_path: "/var/log/antikoerper/".to_owned(), always_write_raw: false }
    }
}

/// The outputs when none is configured: the default one.
pub fn default_output() -> (r: Vec<OutputKind>)
    ensures
        r@.len() == 1,
        match r@[0] {
            OutputKind::File { base_path, always_write_raw } => base_path@ == default_base_path()
                && !always_write_raw,
            _ => false,
        },
{
    vec![OutputKind::default()]
}

pub fn shell_default() -> (r: String)
    ensures
        r@ == "/bin/sh"@,
{
    "/bin/sh".to_owned()
}

pub fn influx_url_default() -> (r: String)
    ensures
        r@ == "http://localhost:8086"@,
{
    "http://localhost:8086".to_owned()
}

pub fn influx_database_default() -> (r: String)
    ensures
        r@ == "antikoerper"@,
{
    "antikoerper".to_owned()
}

pub open spec fn keys_unique(items: Seq<Item>) -> bool {
    forall|i: int, j: int|
        0 <= i < items.len() && 0 <= j < items.len() && i != j ==> items[i].key@ != items[j].key@
}

pub open spec fn intervals_positive(items: Seq<Item>) -> bool {
    forall|i: int| 0 <= i < items.len() ==> items[i].interval > 0
}

/// The keys of the items whose interval is zero, in order.
pub open spec fn zero_interval_keys(items: Seq<Item>) -> Seq<Seq<char>>
    decreases items.len(),
{
    if items.len() == 0 {
        seq![]
    } else if items.last().interval == 0 {
        zero_interval_keys(items.drop_last()).push(items.last().key@)
    } else {
        zero_interval_keys(items.drop_last())
    }
}

pub open spec fn key_views(v: Seq<String>) -> Seq<Seq<char>> {
    v.map_values(|s: String| s@)
}

/// Whether no two neighbours in `r` are equal.
pub open spec fn neighbours_distinct(r: Seq<Seq<char>>) -> bool {
    forall|a: int| 0 <= a && a + 1 < r.len() ==> #[trigger] r[a] != r[a + 1]
}

/// The keys of the items, in order.
pub open spec fn item_keys(items: Seq<Item>) -> Seq<Seq<char>> {
    items.map_values(|it: Item| it.key@)
}

/// Where equal strings stand next to each other, the items have a repeated
/// key exactly when two neighbours of the sorted keys are equal.
proof fn lemma_duplicates_adjacent(items: Seq<Item>, sorted: Seq<String>)
    requires
        key_views(sorted).to_multiset() == item_keys(items).to_multiset(),
        forall|i: int, j: int, k: int|
            0 <= i < j < k < sorted.len() && sorted[i]@ == sorted[k]@ ==> sorted[j]@ == sorted[i]@,
    ensures
        keys_unique(items) == neighbours_distinct(key_views(sorted)),
{
    let r = key_views(sorted);
    let k = item_keys(items);
    assert(keys_unique(items) == k.no_duplicates()) by {
        if keys_unique(items) {
            assert forall|i: int, j: int| 0 <= i < k.len() && 0 <= j < k.len() && i != j implies k[i]
                != k[j] by {
                assert(k[i] == items[i].key@ && k[j] == items[j].key@);
            }
        }
        if k.no_duplicates() {
            assert forall|i: int, j: int|
                0 <= i < items.len() && 0 <= j < items.len() && i != j implies items[i].key@
                != items[j].key@ by {
                assert(k[i] == items[i].key@ && k[j] == items[j].key@);
            }
        }
    }
    let adjacent_distinct = neighbours_distinct(r);
    assert(adjacent_distinct == r.no_duplicates()) by {
        if adjacent_distinct {
            assert forall|i: int, j: int| 0 <= i < r.len() && 0 <= j < r.len() && i != j implies r[i]
                != r[j] by {
                let (lo, hi) = if i < j {
                    (i, j)
                } else {
                    (j, i)
                };
                if r[lo] == r[hi] {
                    if lo + 1 < hi {
                        assert(sorted[lo]@ == sorted[hi]@);
                        assert(sorted[lo + 1]@ == sorted[lo]@);
                    }
                    assert(r[lo] == r[lo + 1]);
                }
            }
        }
    }
    if k.no_duplicates() {
        k.lemma_multiset_has_no_duplicates();
        r.lemma_multiset_has_no_duplicates_conv();
    }
    if r.no_duplicates() {
        r.lemma_multiset_has_no_duplicates();
        k.lemma_multiset_has_no_duplicates_conv();
    }
}

proof fn lemma_zero_empty(items: Seq<Item>)
    ensures
        (zero_interval_keys(items).len() == 0) == intervals_positive(items),
    decreases items.len(),
{
    if items.len() > 0 {
        let t = items.drop_last();
        lemma_zero_empty(t);
        if intervals_positive(t) && items.last().interval > 0 {
            assert forall|i: int| 0 <= i < items.len() implies items[i].interval > 0 by {
                if i < t.len() {
                    assert(items[i] == t[i]);
                }
            }
        } else if !intervals_positive(t) {
            let i = choose|i: int| 0 <= i < t.len() && !(t[i].interval > 0);
            assert(items[i] == t[i]);
        }
    }
}

/// Checks what the items of a configuration must satisfy: unique keys
/// first, then positive intervals.
pub fn validate(config: Config) -> (r: Result<Config, ConfigError>)
    ensures
        match r {
            Ok(c) => c == config && keys_unique(config.items@) && intervals_positive(config.items@),
            Err(ConfigError::DuplicateKeys { keys }) => !keys_unique(config.items@) && keys@.len()
                > 0 && forall|d: int|
                0 <= d < keys@.len() ==> item_keys(config.items@).contains(#[trigger] keys@[d]@),
            Err(ConfigError::IntervalTooSmall { keys }) => keys_unique(config.items@)
                && !intervals_positive(config.items@) && key_views(keys@) == zero_interval_keys(
                config.items@,
            ) && keys@.len() > 0,
            Err(_) => false,
        },
{
    let items = &config.items;
    let mut keys: Vec<String> = Vec::new();
    let mut j: usize = 0;
    while j < items.len()
        invariant
            j <= items.len(),
            key_views(keys@) == item_keys(items@.subrange(0, j as int)),
        decreases items.len() - j,
    {
        let ghost before = keys@;
        keys.push(items[j].key.clone());
        assert(key_views(keys@) =~= key_views(before).push(items@[j as int].key@));
        assert(item_keys(items@.subrange(0, j + 1)) =~= item_keys(items@.subrange(0, j as int)).push(
            items@[j as int].key@,
        ));
        j = j + 1;
    }
    assert(items@.subrange(0, j as int) =~= items@);
    let sorted = sorted_strings(keys);
    let ghost r = key_views(sorted@);
    let mut dups: Vec<String> = Vec::new();
    let mut w: usize = 0;
    while sorted.len() > 0 && w < sorted.len() - 1
        invariant
            r == key_views(sorted@),
            w <= sorted.len(),
            dups@.len() == 0 ==> forall|a: int|
                0 <= a < w && a + 1 < r.len() ==> #[trigger] r[a] != r[a + 1],
            dups@.len() > 0 ==> !neighbours_distinct(r),
            forall|d: int| 0 <= d < dups@.len() ==> r.contains(#[trigger] dups@[d]@),
        decreases sorted.len() - w,
    {
        let same = str_eq(sorted[w].as_str(), sorted[w + 1].as_str());
        assert(r[w as int] == sorted@[w as int]@ && r[w + 1] == sorted@[w + 1]@);
        if same {
            let ghost before = dups@;
            dups.push(sorted[w].clone());
            assert(r[w as int] == sorted@[w as int]@);
            assert forall|d: int| 0 <= d < dups@.len() implies r.contains(#[trigger] dups@[d]@) by {
                if d < before.len() {
                    assert(dups@[d] == before[d]);
                } else {
                    assert(r[w as int] == dups@[d]@);
                }
            }
        }
        w = w + 1;
    }
    proof {
        lemma_duplicates_adjacent(items@, sorted@);
    }
    if dups.len() > 0 {
        proof {
            assert forall|d: int| 0 <= d < dups@.len() implies item_keys(items@).contains(
                #[trigger] dups@[d]@,
            ) by {
                let x = dups@[d]@;
                assert(r.contains(x));
                vstd::seq_lib::to_multiset_contains(r, x);
                vstd::seq_lib::to_multiset_contains(item_keys(items@), x);
            }
        }
        return Err(ConfigError::DuplicateKeys { keys: dups });
    }
    proof {
        lemma_zero_empty(items@);
    }
    let mut zeros: Vec<String> = Vec::new();
    let mut k: usize = 0;
    while k < items.len()
        invariant
            k <= items.len(),
            key_views(zeros@) == zero_interval_keys(items@.subrange(0, k as int)),
        decreases items.len() - k,
    {
        assert(items@.subrange(0, k + 1).drop_last() =~= items@.subrange(0, k as int));
        if items[k].interval == 0 {
            let ghost before = zeros@;
            zeros.push(items[k].key.clone());
            assert(key_views(zeros@) =~= key_views(before).push(items@[k as int].key@));
        }
        k = k + 1;
    }
    assert(items@.subrange(0, k as int) =~= items@);
    if zeros.len() > 0 {
        return Err(ConfigError::IntervalTooSmall { keys: zeros });
    }
    Ok(config)
}


/// Where an item's text comes from, as plain values.
pub ghost enum SourceModel {
    File { path: Seq<char> },
    Command { path: Seq<char>, args: Seq<Seq<char>> },
    Shell { script: Seq<char> },
}

/// A digest mode, as plain values.
pub ghost enum DigestModel {
    Regex { pattern: Seq<char> },
    Raw,
    MonitoringPlugin,
}

/// An item, as plain values.
pub ghost struct ItemModel {
    pub interval: int,
    pub key: Seq<char>,
    pub env: Seq<(Seq<char>, Seq<char>)>,
    pub source: SourceModel,
    pub digest: DigestModel,
}

/// An output, as plain values.
pub ghost enum OutputModel {
    File { base_path: Seq<char>, always_write_raw: bool },
    InfluxDB {
        url: Seq<char>,
        database: Seq<char>,
        auth: Option<(Seq<char>, Seq<char>)>,
        use_raw_as_fallback: bool,
        always_write_raw: bool,
    },
}

/// A configuration, as plain values.
pub ghost struct ConfigModel {
    pub shell: Seq<char>,
    pub output: Seq<OutputModel>,
    pub items: Seq<ItemModel>,
}

pub open spec fn pair_views(v: Seq<(String, String)>) -> Seq<(Seq<char>, Seq<char>)> {
    v.map_values(|p: (String, String)| (p.0@, p.1@))
}

pub open spec fn source_model(k: ItemKind) -> SourceModel {
    match k {
        ItemKind::File { path } => SourceModel::File { path: path@ },
        ItemKind::Command { path, args } => SourceModel::Command { path: path@, args: key_views(args@) },
        ItemKind::Shell { script } => SourceModel::Shell { script: script@ },
    }
}

pub open spec fn digest_model(d: DigestKind) -> DigestModel {
    match d {
        DigestKind::Regex { regex } => DigestModel::Regex { pattern: regex@ },
        DigestKind::Raw => DigestModel::Raw,
        DigestKind::MonitoringPlugin => DigestModel::MonitoringPlugin,
    }
}

pub open spec fn item_model(i: Item) -> ItemModel {
    ItemModel {
        interval: i.interval as int,
        key: i.key@,
        env: pair_views(i.env@),
        source: source_model(i.kind),
        digest: digest_model(i.digest),
    }
}

pub open spec fn output_model(o: OutputKind) -> OutputModel {
    match o {
        OutputKind::File { base_path, always_write_raw } => OutputModel::File {
            base_path: base_path@,
            always_write_raw,
        },
        OutputKind::InfluxDB { url, database, auth, use_raw_as_fallback, always_write_raw } => {
            OutputModel::InfluxDB {
                url: url@,
                database: database@,
                auth: match auth {
                    Some(a) => Some((a.username@, a.password@)),
                    None => None,
                },
                use_raw_as_fallback,
                always_write_raw,
            }
        },
    }
}

pub open spec fn config_model(c: Config) -> ConfigModel {
    ConfigModel {
        shell: c.general.shell@,
        output: c.output@.map_values(|o: OutputKind| output_model(o)),
        items: c.items@.map_values(|i: Item| item_model(i)),
    }
}

/// The output used where none is configured.
pub open spec fn default_output_model() -> OutputModel {
    OutputModel::File { base_path: default_base_path(), always_write_raw: false }
}

pub open spec fn string_of_value(v: TomlValue) -> Option<Seq<char>> {
    match v {
        TomlValue::Str(s) => Some(s@),
        _ => None,
    }
}

pub open spec fn string_fn() -> spec_fn(TomlValue) -> Option<Seq<char>> {
    |v: TomlValue| string_of_value(v)
}

pub open spec fn env_entry(e: (Seq<char>, TomlValue)) -> Option<(Seq<char>, Seq<char>)> {
    match e.1 {
        TomlValue::Str(s) => Some((e.0, s@)),
        _ => None,
    }
}

pub open spec fn env_fn() -> spec_fn((Seq<char>, TomlValue)) -> Option<(Seq<char>, Seq<char>)> {
    |e: (Seq<char>, TomlValue)| env_entry(e)
}

/// The source of an item, from its `input` table: `type` is `file` (with
/// `path`), `command` (with `path` and optional string `args`) or `shell`
/// (with `script`).
pub open spec fn source_spec(t: Seq<(Seq<char>, TomlValue)>) -> Option<SourceModel> {
    match str_field(t, "type"@) {
        Some(Some(k)) => if k == "file"@ {
            match str_field(t, "path"@) {
                Some(Some(p)) => Some(SourceModel::File { path: p }),
                _ => None,
            }
        } else if k == "command"@ {
            match (str_field(t, "path"@), array_field(t, "args"@)) {
                (Some(Some(p)), Some(None)) => Some(SourceModel::Command { path: p, args: seq![] }),
                (Some(Some(p)), Some(Some(a))) => match all_of(a, string_fn()) {
                    Some(args) => Some(SourceModel::Command { path: p, args }),
                    None => None,
                },
                _ => None,
            }
        } else if k == "shell"@ {
            match str_field(t, "script"@) {
                Some(Some(p)) => Some(SourceModel::Shell { script: p }),
                _ => None,
            }
        } else {
            None
        },
        _ => None,
    }
}

/// The digest mode of an item, from its `digest` table; raw where there is
/// none. `type` is `none`, `regex` (with a `regex` that compiles) or
/// `monitoring-plugin`.
pub open spec fn digest_spec(t: Option<Seq<(Seq<char>, TomlValue)>>) -> Option<DigestModel> {
    match t {
        None => Some(DigestModel::Raw),
        Some(t) => match str_field(t, "type"@) {
            Some(Some(k)) => if k == "none"@ {
                Some(DigestModel::Raw)
            } else if k == "regex"@ {
                match str_field(t, "regex"@) {
                    Some(Some(p)) => if regex_valid(p) {
                        Some(DigestModel::Regex { pattern: p })
                    } else {
                        None
                    },
                    _ => None,
                }
            } else if k == "monitoring-plugin"@ {
                Some(DigestModel::MonitoringPlugin)
            } else {
                None
            },
            _ => None,
        },
    }
}

/// The environment of an item: every value of its `env` table is a string,
/// and no name comes twice; empty where there is no table.
pub open spec fn env_spec(t: Seq<(Seq<char>, TomlValue)>) -> Option<Seq<(Seq<char>, Seq<char>)>> {
    match table_field(t, "env"@) {
        Some(None) => Some(seq![]),
        Some(Some(e)) => match all_of(e, env_fn()) {
            Some(env) => if names_distinct(env) {
                Some(env)
            } else {
                None
            },
            None => None,
        },
        None => None,
    }
}

pub open spec fn names_distinct(env: Seq<(Seq<char>, Seq<char>)>) -> bool {
    forall|i: int, j: int| 0 <= i < j < env.len() ==> (#[trigger] env[i]).0 != (#[trigger] env[j]).0
}

/// One item, from its table: a string `key`, a non-negative integer
/// `interval`, an `input` table, and optional `env` and `digest` tables.
pub open spec fn item_spec(v: TomlValue) -> Option<ItemModel> {
    match v {
        TomlValue::Table(ks, vs) => {
            let t = entries(ks@, vs@);
            match (str_field(t, "key"@), lookup(t, "interval"@), env_spec(t), table_field(t, "input"@), table_field(t, "digest"@)) {
                (Some(Some(key)), Some(TomlValue::Int(n)), Some(env), Some(Some(input)), Some(d)) => {
                    match (source_spec(input), digest_spec(d)) {
                        (Some(source), Some(digest)) => if n >= 0 {
                            Some(ItemModel { interval: n as int, key, env, source, digest })
                        } else {
                            None
                        },
                        _ => None,
                    }
                },
                _ => None,
            }
        },
        _ => None,
    }
}

pub open spec fn item_fn() -> spec_fn(TomlValue) -> Option<ItemModel> {
    |v: TomlValue| item_spec(v)
}

/// One output, from its table: `type` is `file` (with `base_path`) or
/// `influxdb` (`url`, `database`, and `username` with `password`, all
/// optional); flags are false where missing.
pub open spec fn output_spec(v: TomlValue) -> Option<OutputModel> {
    match v {
        TomlValue::Table(ks, vs) => {
            let t = entries(ks@, vs@);
            match str_field(t, "type"@) {
                Some(Some(k)) => if k == "file"@ {
                    match (str_field(t, "base_path"@), flag_field(t, "always_write_raw"@)) {
                        (Some(Some(b)), Some(w)) => Some(OutputModel::File { base_path: b, always_write_raw: w }),
                        _ => None,
                    }
                } else if k == "influxdb"@ {
                    match (str_field(t, "url"@), str_field(t, "database"@), str_field(t, "username"@), str_field(t, "password"@), flag_field(t, "use_raw_as_fallback"@), flag_field(t, "always_write_raw"@)) {
                        (Some(u), Some(d), Some(user), Some(pass), Some(f), Some(w)) => Some(
                            OutputModel::InfluxDB {
                                url: match u { Some(x) => x, None => "http://localhost:8086"@ },
                                database: match d { Some(x) => x, None => "antikoerper"@ },
                                auth: match (user, pass) {
                                    (Some(a), Some(b)) => Some((a, b)),
                                    _ => None,
                                },
                                use_raw_as_fallback: f,
                                always_write_raw: w,
                            },
                        ),
                        _ => None,
                    }
                } else {
                    None
                },
                _ => None,
            }
        },
        _ => None,
    }
}

pub open spec fn output_fn() -> spec_fn(TomlValue) -> Option<OutputModel> {
    |v: TomlValue| output_spec(v)
}

/// The outputs: the `output` array of tables, or the default one where
/// there is none.
pub open spec fn outputs_spec(t: Seq<(Seq<char>, TomlValue)>) -> Option<Seq<OutputModel>> {
    match array_field(t, "output"@) {
        Some(None) => Some(seq![default_output_model()]),
        Some(Some(a)) => all_of(a, output_fn()),
        None => None,
    }
}

/// The configuration that a document describes, before its items are
/// checked against each other: a `general` table (with an optional string
/// `shell`, `/bin/sh` by default), the outputs, and an `items` array of
/// item tables, all in the document's order.
pub open spec fn schema(doc: TomlValue) -> Option<ConfigModel> {
    match doc {
        TomlValue::Table(ks, vs) => {
            let t = entries(ks@, vs@);
            match table_field(t, "general"@) {
                Some(Some(g)) => match (str_field(g, "shell"@), outputs_spec(t), array_field(t, "items"@)) {
                    (Some(sh), Some(output), Some(Some(a))) => match all_of(a, item_fn()) {
                        Some(items) => Some(
                            ConfigModel {
                                shell: match sh { Some(x) => x, None => "/bin/sh"@ },
                                output,
                                items,
                            },
                        ),
                        None => None,
                    },
                    _ => None,
                },
                _ => None,
            }
        },
        _ => None,
    }
}

pub open spec fn model_keys_unique(items: Seq<ItemModel>) -> bool {
    forall|i: int, j: int| 0 <= i < j < items.len() ==> (#[trigger] items[i]).key != (#[trigger] items[j]).key
}

pub open spec fn model_intervals_positive(items: Seq<ItemModel>) -> bool {
    forall|i: int| 0 <= i < items.len() ==> (#[trigger] items[i]).interval > 0
}

/// What reading the document `doc` gives: `Invalid` where it does not
/// describe a configuration; otherwise the configuration it describes where
/// its item keys are unique and its intervals positive, and else the error
/// that `validate` gives.
pub open spec fn read_outcome(doc: TomlValue, r: Result<Config, ConfigError>) -> bool {
    match schema(doc) {
        None => r matches Err(ConfigError::Invalid { .. }),
        Some(m) => {
            &&& (r is Ok <==> model_keys_unique(m.items) && model_intervals_positive(m.items))
            &&& (r is Ok ==> config_model(r->Ok_0) == m)
            &&& (r matches Err(ConfigError::DuplicateKeys { .. }) <==> !model_keys_unique(m.items))
            &&& (r matches Err(ConfigError::IntervalTooSmall { keys }) <==> model_keys_unique(m.items)
                && !model_intervals_positive(m.items))
        },
    }
}

/// A field that is missing or has the wrong type.
fn invalid(field: &str) -> (r: ConfigError)
    ensures
        r is Invalid,
{
    ConfigError::Invalid { field: field.to_owned() }
}

fn strings_all(a: &Vec<TomlValue>) -> (r: Option<Vec<String>>)
    ensures
        match r {
            Some(v) => all_of(a@, string_fn()) == Some(key_views(v@)),
            None => all_of(a@, string_fn()) is None,
        },
{
    let n = a.len();
    let mut out: Vec<String> = Vec::new();
    let mut i: usize = 0;
    proof {
        lemma_all_of_ends(a@, string_fn(), key_views(out@));
        assert(key_views(out@) =~= Seq::<Seq<char>>::empty());
    }
    while i < n
        invariant
            i <= n == a.len(),
            all_of(a@, string_fn()) == prepend(key_views(out@), all_of(a@.subrange(i as int, n as int), string_fn())),
        decreases n - i,
    {
        proof {
            lemma_all_of_step(a@, string_fn(), key_views(out@), i as int);
        }
        match &a[i] {
            TomlValue::Str(s) => {
                let ghost before = key_views(out@);
                out.push(s.clone());
                assert(key_views(out@) =~= before.push(s@));
            },
            _ => {
                return None;
            },
        }
        i = i + 1;
    }
    proof {
        lemma_all_of_ends(a@, string_fn(), key_views(out@));
    }
    Some(out)
}

fn env_all(e: TableRef) -> (r: Option<Vec<(String, String)>>)
    ensures
        match r {
            Some(v) => all_of(tab(e), env_fn()) == Some(pair_views(v@)),
            None => all_of(tab(e), env_fn()) is None,
        },
{
    let ghost t = tab(e);
    let n = if e.0.len() <= e.1.len() {
        e.0.len()
    } else {
        e.1.len()
    };
    let mut out: Vec<(String, String)> = Vec::new();
    let mut i: usize = 0;
    proof {
        lemma_all_of_ends(t, env_fn(), pair_views(out@));
        assert(pair_views(out@) =~= Seq::<(Seq<char>, Seq<char>)>::empty());
    }
    while i < n
        invariant
            i <= n == t.len(),
            t == tab(e),
            all_of(t, env_fn()) == prepend(pair_views(out@), all_of(t.subrange(i as int, n as int), env_fn())),
        decreases n - i,
    {
        proof {
            lemma_all_of_step(t, env_fn(), pair_views(out@), i as int);
        }
        assert(t[i as int] == (e.0@[i as int]@, e.1@[i as int]));
        match &e.1[i] {
            TomlValue::Str(s) => {
                let ghost before = pair_views(out@);
                out.push((e.0[i].clone(), s.clone()));
                assert(pair_views(out@) =~= before.push((e.0@[i as int]@, s@)));
            },
            _ => {
                return None;
            },
        }
        i = i + 1;
    }
    proof {
        lemma_all_of_ends(t, env_fn(), pair_views(out@));
    }
    Some(out)
}

/// Whether no name comes twice among the variables.
fn env_names_distinct(env: &Vec<(String, String)>) -> (r: bool)
    ensures
        r == names_distinct(pair_views(env@)),
{
    let ghost p = pair_views(env@);
    let mut j: usize = 0;
    while j < env.len()
        invariant
            j <= env.len(),
            p == pair_views(env@),
            forall|a: int, b: int| 0 <= a < b < j ==> (#[trigger] p[a]).0 != (#[trigger] p[b]).0,
        decreases env.len() - j,
    {
        let mut i: usize = 0;
        while i < j
            invariant
                i <= j < env.len(),
                p == pair_views(env@),
                forall|a: int| 0 <= a < i ==> (#[trigger] p[a]).0 != p[j as int].0,
            decreases j - i,
        {
            if str_eq(env[i].0.as_str(), env[j].0.as_str()) {
                assert(p[i as int].0 == p[j as int].0);
                return false;
            }
            i = i + 1;
        }
        j = j + 1;
    }
    true
}

/// The source of an item, from its `input` table.
fn source_of(t: TableRef) -> (r: Option<ItemKind>)
    ensures
        match r {
            Some(k) => source_spec(tab(t)) == Some(source_model(k)),
            None => source_spec(tab(t)) is None,
        },
{
    let kind = match get_str(t, "type") {
        Some(Some(k)) => k,
        _ => {
            return None;
        },
    };
    if str_eq(kind.as_str(), "file") {
        match get_str(t, "path") {
            Some(Some(p)) => Some(ItemKind::File { path: p }),
            _ => None,
        }
    } else if str_eq(kind.as_str(), "command") {
        let path = match get_str(t, "path") {
            Some(Some(p)) => p,
            _ => {
                return None;
            },
        };
        match get_array(t, "args") {
            Some(None) => {
                let args: Vec<String> = Vec::new();
                assert(key_views(args@) =~= Seq::<Seq<char>>::empty());
                Some(ItemKind::Command { path, args })
            },
            Some(Some(a)) => match strings_all(a) {
                Some(args) => Some(ItemKind::Command { path, args }),
                None => None,
            },
            None => None,
        }
    } else if str_eq(kind.as_str(), "shell") {
        match get_str(t, "script") {
            Some(Some(p)) => Some(ItemKind::Shell { script: p }),
            _ => None,
        }
    } else {
        None
    }
}

/// The digest mode of an item, from its `digest` table.
fn digest_of(t: Option<TableRef>) -> (r: Option<DigestKind>)
    ensures
        match r {
            Some(d) => digest_spec(match t { Some(x) => Some(tab(x)), None => None }) == Some(digest_model(d)),
            None => digest_spec(match t { Some(x) => Some(tab(x)), None => None }) is None,
        },
{
    let t = match t {
        None => {
            return Some(DigestKind::Raw);
        },
        Some(t) => t,
    };
    let kind = match get_str(t, "type") {
        Some(Some(k)) => k,
        _ => {
            return None;
        },
    };
    if str_eq(kind.as_str(), "none") {
        Some(DigestKind::Raw)
    } else if str_eq(kind.as_str(), "regex") {
        match get_str(t, "regex") {
            Some(Some(p)) => if pattern_is_valid(p.as_str()) {
                Some(DigestKind::Regex { regex: p })
            } else {
                None
            },
            _ => None,
        }
    } else if str_eq(kind.as_str(), "monitoring-plugin") {
        Some(DigestKind::MonitoringPlugin)
    } else {
        None
    }
}

/// One item, from its table.
fn item_of(v: &TomlValue) -> (r: Option<Item>)
    ensures
        match r {
            Some(i) => item_spec(*v) == Some(item_model(i)),
            None => item_spec(*v) is None,
        },
{
    let t = match v {
        TomlValue::Table(ks, vs) => (ks, vs),
        _ => {
            return None;
        },
    };
    let key = match get_str(t, "key") {
        Some(Some(k)) => k,
        _ => {
            return None;
        },
    };
    let n: i64 = match find(t, "interval") {
        Some(TomlValue::Int(n)) => *n,
        _ => {
            return None;
        },
    };
    let env: Vec<(String, String)> = match get_table(t, "env") {
        Some(None) => {
            let e: Vec<(String, String)> = Vec::new();
            assert(pair_views(e@) =~= Seq::<(Seq<char>, Seq<char>)>::empty());
            e
        },
        Some(Some(e)) => match env_all(e) {
            Some(env) => if env_names_distinct(&env) {
                env
            } else {
                return None;
            },
            None => {
                return None;
            },
        },
        None => {
            return None;
        },
    };
    let kind = match get_table(t, "input") {
        Some(Some(input)) => match source_of(input) {
            Some(k) => k,
            None => {
                return None;
            },
        },
        _ => {
            return None;
        },
    };
    let digest = match get_table(t, "digest") {
        Some(d) => match digest_of(d) {
            Some(x) => x,
            None => {
                return None;
            },
        },
        None => {
            return None;
        },
    };
    if n < 0 {
        return None;
    }
    Some(Item { interval: n as u64, key, env, kind, digest })
}

fn items_all(a: &Vec<TomlValue>) -> (r: Option<Vec<Item>>)
    ensures
        match r {
            Some(v) => all_of(a@, item_fn()) == Some(v@.map_values(|i: Item| item_model(i))),
            None => all_of(a@, item_fn()) is None,
        },
{
    let n = a.len();
    let mut out: Vec<Item> = Vec::new();
    let mut i: usize = 0;
    proof {
        lemma_all_of_ends(a@, item_fn(), out@.map_values(|i: Item| item_model(i)));
        assert(out@.map_values(|i: Item| item_model(i)) =~= Seq::<ItemModel>::empty());
    }
    while i < n
        invariant
            i <= n == a.len(),
            all_of(a@, item_fn()) == prepend(out@.map_values(|i: Item| item_model(i)), all_of(a@.subrange(i as int, n as int), item_fn())),
        decreases n - i,
    {
        proof {
            lemma_all_of_step(a@, item_fn(), out@.map_values(|i: Item| item_model(i)), i as int);
        }
        match item_of(&a[i]) {
            Some(it) => {
                let ghost before = out@.map_values(|i: Item| item_model(i));
                let ghost m = item_model(it);
                out.push(it);
                assert(out@.map_values(|i: Item| item_model(i)) =~= before.push(m));
            },
            None => {
                return None;
            },
        }
        i = i + 1;
    }
    proof {
        lemma_all_of_ends(a@, item_fn(), out@.map_values(|i: Item| item_model(i)));
    }
    Some(out)
}

/// One output, from its table.
fn output_of(v: &TomlValue) -> (r: Option<OutputKind>)
    ensures
        match r {
            Some(o) => output_spec(*v) == Some(output_model(o)),
            None => output_spec(*v) is None,
        },
{
    let t = match v {
        TomlValue::Table(ks, vs) => (ks, vs),
        _ => {
            return None;
        },
    };
    let kind = match get_str(t, "type") {
        Some(Some(k)) => k,
        _ => {
            return None;
        },
    };
    if str_eq(kind.as_str(), "file") {
        match (get_str(t, "base_path"), get_flag(t, "always_write_raw")) {
            (Some(Some(b)), Some(w)) => Some(OutputKind::File { base_path: b, always_write_raw: w }),
            _ => None,
        }
    } else if str_eq(kind.as_str(), "influxdb") {
        match (get_str(t, "url"), get_str(t, "database"), get_str(t, "username"), get_str(t, "password"), get_flag(t, "use_raw_as_fallback"), get_flag(t, "always_write_raw")) {
            (Some(u), Some(d), Some(user), Some(pass), Some(f), Some(w)) => {
                let url = match u {
                    Some(x) => x,
                    None => influx_url_default(),
                };
                let database = match d {
                    Some(x) => x,
                    None => influx_database_default(),
                };
                let auth = match (user, pass) {
                    (Some(username), Some(password)) => Some(InfluxDBAuth { username, password }),
                    _ => None,
                };
                Some(OutputKind::InfluxDB { url, database, auth, use_raw_as_fallback: f, always_write_raw: w })
            },
            _ => None,
        }
    } else {
        None
    }
}

fn outputs_all(a: &Vec<TomlValue>) -> (r: Option<Vec<OutputKind>>)
    ensures
        match r {
            Some(v) => all_of(a@, output_fn()) == Some(v@.map_values(|o: OutputKind| output_model(o))),
            None => all_of(a@, output_fn()) is None,
        },
{
    let n = a.len();
    let mut out: Vec<OutputKind> = Vec::new();
    let mut i: usize = 0;
    proof {
        lemma_all_of_ends(a@, output_fn(), out@.map_values(|o: OutputKind| output_model(o)));
        assert(out@.map_values(|o: OutputKind| output_model(o)) =~= Seq::<OutputModel>::empty());
    }
    while i < n
        invariant
            i <= n == a.len(),
            all_of(a@, output_fn()) == prepend(out@.map_values(|o: OutputKind| output_model(o)), all_of(a@.subrange(i as int, n as int), output_fn())),
        decreases n - i,
    {
        proof {
            lemma_all_of_step(a@, output_fn(), out@.map_values(|o: OutputKind| output_model(o)), i as int);
        }
        match output_of(&a[i]) {
            Some(o) => {
                let ghost before = out@.map_values(|o: OutputKind| output_model(o));
                let ghost m = output_model(o);
                out.push(o);
                assert(out@.map_values(|o: OutputKind| output_model(o)) =~= before.push(m));
            },
            None => {
                return None;
            },
        }
        i = i + 1;
    }
    proof {
        lemma_all_of_ends(a@, output_fn(), out@.map_values(|o: OutputKind| output_model(o)));
    }
    Some(out)
}

/// The configuration that a document describes, before its items are
/// checked against each other.
fn schema_of(doc: &TomlValue) -> (r: Option<Config>)
    ensures
        match r {
            Some(c) => schema(*doc) == Some(config_model(c)),
            None => schema(*doc) is None,
        },
{
    let t = match doc {
        TomlValue::Table(ks, vs) => (ks, vs),
        _ => {
            return None;
        },
    };
    let g = match get_table(t, "general") {
        Some(Some(g)) => g,
        _ => {
            return None;
        },
    };
    let shell = match get_str(g, "shell") {
        Some(Some(s)) => s,
        Some(None) => shell_default(),
        None => {
            return None;
        },
    };
    let output = match get_array(t, "output") {
        Some(None) => {
            let d = default_output();
            assert(d@.map_values(|o: OutputKind| output_model(o)) =~= seq![default_output_model()]);
            d
        },
        Some(Some(a)) => match outputs_all(a) {
            Some(o) => o,
            None => {
                return None;
            },
        },
        None => {
            return None;
        },
    };
    let items = match get_array(t, "items") {
        Some(Some(a)) => match items_all(a) {
            Some(i) => i,
            None => {
                return None;
            },
        },
        _ => {
            return None;
        },
    };
    Some(Config { general: General { shell }, output, items })
}

proof fn lemma_model_checks(items: Seq<Item>)
    ensures
        keys_unique(items) == model_keys_unique(items.map_values(|i: Item| item_model(i))),
        intervals_positive(items) == model_intervals_positive(items.map_values(|i: Item| item_model(i))),
{
    let m = items.map_values(|i: Item| item_model(i));
    if keys_unique(items) {
        assert forall|i: int, j: int| 0 <= i < j < m.len() implies (#[trigger] m[i]).key != (#[trigger] m[j]).key by {
            assert(m[i].key == items[i].key@ && m[j].key == items[j].key@);
        }
    }
    if model_keys_unique(m) {
        assert forall|i: int, j: int|
            0 <= i < items.len() && 0 <= j < items.len() && i != j implies items[i].key@ != items[j].key@ by {
            assert(m[i].key == items[i].key@ && m[j].key == items[j].key@);
        }
    }
    if intervals_positive(items) {
        assert forall|i: int| 0 <= i < m.len() implies (#[trigger] m[i]).interval > 0 by {
            assert(m[i].interval == items[i].interval);
        }
    }
    if model_intervals_positive(m) {
        assert forall|i: int| 0 <= i < items.len() implies items[i].interval > 0 by {
            assert(m[i].interval == items[i].interval);
        }
    }
}

/// Reads a configuration out of a parsed TOML document, and checks its items.
pub fn config_of(doc: &TomlValue) -> (r: Result<Config, ConfigError>)
    ensures
        read_outcome(*doc, r),
{
    let c = match schema_of(doc) {
        Some(c) => c,
        None => {
            return Err(invalid("document"));
        },
    };
    proof {
        lemma_model_checks(c.items@);
    }
    let ghost c0 = c;
    let r = validate(c);
    assert(r is Ok ==> r->Ok_0 == c0);
    r
}

/// Reads a configuration from the text of a TOML document and checks it:
/// `Syntax` where the text is no TOML document, and else what `config_of`
/// gives for it.
pub fn load(content: &str) -> (r: Result<Config, ConfigError>)
    ensures
        match toml_document(content@) {
            None => r matches Err(ConfigError::Syntax),
            Some(doc) => read_outcome(doc, r),
        },
{
    match parse_document(content) {
        Ok(doc) => config_of(&doc),
        Err(_) => Err(ConfigError::Syntax),
    }
}

} // verus!
