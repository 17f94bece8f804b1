//! Digesting: from the raw text of one collection to a set of samples.

use vstd::prelude::*;
use crate::number::{is_number, is_number_text};
use crate::plugin::{
    EntryModel, PerfEntry, opt_view, parse_performance, perf_entries, scale_of_unit,
    split_status_line, status_line_of, unit_scale,
};
use crate::sample::{SampleSet, SampleValue, ValueModel};
use crate::text::{chars_of, concat, string_of, trim_chars, trimmed};
use std::time::Duration;

verus! {

/// How the raw text of an item is turned into samples.
#[derive(Clone, Debug)]
pub enum DigestKind {
    /// Match a pattern with named groups; each group gives one sample.
    Regex { regex: String },
    /// Read the whole text as one number.
    Raw,
    /// Read the status and performance data of a monitoring plugin.
    MonitoringPlugin,
}

impl Default for DigestKind {
    fn default() -> (r: DigestKind)
        ensures
            r is Raw,
    {
        DigestKind::Raw
    }
}

/// One named group of a match: its name, and the text that it captured, if
/// it took part in the match.
#[derive(Clone, Debug)]
pub struct Capture {
    pub name: String,
    pub text: Option<String>,
}

pub open spec fn captures_view(c: Option<Vec<Capture>>) -> Option<Seq<(Seq<char>, Option<Seq<char>>)>> {
    match c {
        Some(v) => Some(v@.map_values(|x: Capture| (x.name@, opt_view(x.text)))),
        None => None,
    }
}

/// The named groups of the first match of `pattern` in `text`, in the order
/// in which the pattern names them; `None` where the pattern does not match
/// or is no valid pattern.
pub uninterp spec fn regex_captures(pattern: Seq<char>, text: Seq<char>) -> Option<
    Seq<(Seq<char>, Option<Seq<char>>)>,
>;

/// Relies on `regex::Regex::new`, `Regex::captures` and `Regex::capture_names`:
/// compiles `pattern` and reports the named groups of its first match in `text`.
#[verifier::external_body]
fn regex_named_captures(pattern: &str, text: &str) -> (r: Option<Vec<Capture>>)
    ensures
        captures_view(r) == regex_captures(pattern@, text@),
{
    let re = match regex::Regex::new(pattern) {
        Ok(re) => re,
        Err(_) => return None,
    };
    let caps = re.captures(text)?;
    Some(re.capture_names().flatten().map(|n| Capture {
        name: n.to_string(),
        text: caps.name(n).map(|m| m.as_str().to_string()),
    }).collect())
}

/// Whether `pattern` is a regular expression that can be compiled.
pub uninterp spec fn regex_valid(pattern: Seq<char>) -> bool;

/// Relies on `regex::Regex::new`: whether it accepts `pattern`.
#[verifier::external_body]
pub(crate) fn pattern_is_valid(pattern: &str) -> (r: bool)
    ensures
        r == regex_valid(pattern@),
{
    regex::Regex::new(pattern).is_ok()
}

/// Relies on `SystemTime::now` and `SystemTime::duration_since`: the time
/// since the Unix epoch (zero for a clock set before it).
#[verifier::external_body]
fn unix_time_now() -> (r: Duration) {
    std::time::SystemTime::now().duration_since(std::time::UNIX_EPOCH).unwrap_or_default()
}

/// Relies on `Duration`'s `Clone`, which copies the value.
pub assume_specification[ <Duration as Clone>::clone ](d: &Duration) -> (r: Duration)
    ensures
        r == *d,
;

/// The samples that one collection gave, with what they were made from.
#[derive(Clone, Debug)]
pub struct ItemResult {
    pub time: Duration,
    pub key: String,
    pub raw: String,
    pub values: SampleSet,
}

/// The map that a sequence of (name, value) emissions stands for: a later
/// emission of a name stands in for an earlier one.
pub open spec fn fold_map(e: Seq<(Seq<char>, ValueModel)>) -> Map<Seq<char>, ValueModel>
    decreases e.len(),
{
    if e.len() == 0 {
        Map::empty()
    } else {
        fold_map(e.drop_last()).insert(e.last().0, e.last().1)
    }
}

/// `key.suffix`
pub open spec fn metric(key: Seq<char>, suffix: Seq<char>) -> Seq<char> {
    key + seq!['.'] + suffix
}

/// The value of a captured text: its number, or not a number.
pub open spec fn text_value(t: Option<Seq<char>>, scale: u32) -> ValueModel {
    match t {
        Some(s) => if is_number(s) {
            ValueModel::Number { text: s, scale: scale as nat }
        } else {
            ValueModel::NotANumber
        },
        None => ValueModel::NotANumber,
    }
}

pub open spec fn raw_emissions(t: Seq<char>, key: Seq<char>) -> Seq<(Seq<char>, ValueModel)> {
    if is_number(t) {
        seq![(metric(key, seq!['p', 'a', 'r', 's', 'e', 'd']), ValueModel::Number { text: t, scale: 0 })]
    } else {
        seq![]
    }
}

/// One sample for each named group.
pub open spec fn capture_emissions(
    caps: Seq<(Seq<char>, Option<Seq<char>>)>,
    key: Seq<char>,
) -> Seq<(Seq<char>, ValueModel)> {
    caps.map_values(|c: (Seq<char>, Option<Seq<char>>)| (metric(key, c.0), text_value(c.1, 0)))
}

pub open spec fn regex_emissions(pattern: Seq<char>, t: Seq<char>, key: Seq<char>) -> Seq<
    (Seq<char>, ValueModel),
> {
    match regex_captures(pattern, t) {
        Some(caps) => capture_emissions(caps, key),
        None => seq![],
    }
}

/// The sample of an optional threshold or bound of an entry, when it is a number.
pub open spec fn field_emission(
    key: Seq<char>,
    label: Seq<char>,
    field: Seq<char>,
    t: Option<Seq<char>>,
    scale: u32,
) -> Seq<(Seq<char>, ValueModel)> {
    match t {
        Some(s) => if is_number(s) {
            seq![(metric(metric(key, label), field), ValueModel::Number { text: s, scale: scale as nat })]
        } else {
            seq![]
        },
        None => seq![],
    }
}

pub open spec fn entry_scale(m: EntryModel) -> u32 {
    match m.unit {
        Some(u) => match unit_scale(u) {
            Some(s) => s,
            None => 0,
        },
        None => 0,
    }
}

/// The samples of one performance entry: its value, then each of warn,
/// crit, min and max that is a number, all scaled by its unit.
pub open spec fn entry_emissions(key: Seq<char>, m: EntryModel) -> Seq<(Seq<char>, ValueModel)> {
    let sc = entry_scale(m);
    seq![(metric(key, m.label), ValueModel::Number { text: m.value, scale: sc as nat })]
        + field_emission(key, m.label, seq!['w', 'a', 'r', 'n'], m.warn, sc)
        + field_emission(key, m.label, seq!['c', 'r', 'i', 't'], m.crit, sc)
        + field_emission(key, m.label, seq!['m', 'i', 'n'], m.min, sc)
        + field_emission(key, m.label, seq!['m', 'a', 'x'], m.max, sc)
}

pub open spec fn entries_emissions(key: Seq<char>, es: Seq<EntryModel>) -> Seq<(Seq<char>, ValueModel)>
    decreases es.len(),
{
    if es.len() == 0 {
        seq![]
    } else {
        entries_emissions(key, es.drop_last()) + entry_emissions(key, es.last())
    }
}

pub open spec fn status_text(code: u32) -> Seq<char> {
    if code == 0 {
        seq!['0']
    } else if code == 1 {
        seq!['1']
    } else if code == 2 {
        seq!['2']
    } else {
        seq!['3']
    }
}

/// The status as a sample, then the samples of each performance entry.
pub open spec fn plugin_emissions(t: Seq<char>, key: Seq<char>) -> Seq<(Seq<char>, ValueModel)> {
    match status_line_of(t) {
        Some((code, perf)) => seq![
            (metric(key, seq!['s', 't', 'a', 't', 'u', 's']), ValueModel::Number {
                text: status_text(code),
                scale: 0,
            }),
        ] + entries_emissions(key, perf_entries(perf)),
        None => seq![],
    }
}

/// The samples that digesting the (trimmed) text `t` of item `key` gives.
pub open spec fn emissions(kind: DigestKind, t: Seq<char>, key: Seq<char>) -> Seq<
    (Seq<char>, ValueModel),
> {
    match kind {
        DigestKind::Raw => raw_emissions(t, key),
        DigestKind::Regex { regex } => regex_emissions(regex@, t, key),
        DigestKind::MonitoringPlugin => plugin_emissions(t, key),
    }
}

/// The sample set of digesting `raw` for item `key`.
pub open spec fn digest_values(kind: DigestKind, raw: Seq<char>, key: Seq<char>) -> Map<
    Seq<char>,
    ValueModel,
> {
    fold_map(emissions(kind, trimmed(raw), key))
}

proof fn lemma_fold_push(e: Seq<(Seq<char>, ValueModel)>, x: (Seq<char>, ValueModel))
    ensures
        fold_map(e.push(x)) == fold_map(e).insert(x.0, x.1),
{
    assert(e.push(x).drop_last() =~= e);
}

/// Adds `(name, value)` to `set`, which stands for `e`.
fn emit(
    set: &mut SampleSet,
    name: &Vec<char>,
    value: SampleValue,
    Ghost(e): Ghost<Seq<(Seq<char>, ValueModel)>>,
)
    requires
        old(set).wf(),
        old(set)@ == fold_map(e),
    ensures
        final(set).wf(),
        final(set)@ == fold_map(e.push((name@, value@))),
{
    let ghost v = value@;
    set.insert(string_of(name.as_slice()), value);
    proof {
        lemma_fold_push(e, (name@, v));
    }
}

/// `key.suffix` as characters.
fn metric_name(key: &Vec<char>, suffix: &Vec<char>) -> (r: Vec<char>)
    ensures
        r@ == metric(key@, suffix@),
{
    let dot = vec!['.'];
    let kd = concat(key, &dot);
    concat(&kd, suffix)
}

/// The sample set of one regex match: one sample per named group, whose
/// value is the number that the group captured, or not a number.
pub fn capture_samples(key: &str, caps: &Vec<Capture>) -> (r: SampleSet)
    ensures
        r.wf(),
        r@ == fold_map(capture_emissions(caps@.map_values(|x: Capture| (x.name@, opt_view(x.text))), key@)),
{
    let ghost cs = caps@.map_values(|x: Capture| (x.name@, opt_view(x.text)));
    let k = chars_of(key);
    let mut set = SampleSet::new();
    let mut i: usize = 0;
    while i < caps.len()
        invariant
            i <= caps.len(),
            k@ == key@,
            cs == caps@.map_values(|x: Capture| (x.name@, opt_view(x.text))),
            set.wf(),
            set@ == fold_map(capture_emissions(cs.subrange(0, i as int), key@)),
        decreases caps.len() - i,
    {
        let c = &caps[i];
        let name = metric_name(&k, &chars_of(c.name.as_str()));
        let value = match &c.text {
            Some(t) => {
                let tv = chars_of(t.as_str());
                if is_number_text(&tv) {
                    SampleValue::Number { text: t.clone(), scale: 0 }
                } else {
                    SampleValue::NotANumber
                }
            },
            None => SampleValue::NotANumber,
        };
        assert(capture_emissions(cs.subrange(0, i + 1), key@) =~= capture_emissions(
            cs.subrange(0, i as int),
            key@,
        ).push((name@, value@)));
        emit(&mut set, &name, value, Ghost(capture_emissions(cs.subrange(0, i as int), key@)));
        i = i + 1;
    }
    assert(cs.subrange(0, i as int) =~= cs);
    set
}

fn emit_field(
    set: &mut SampleSet,
    key: &Vec<char>,
    label: &Vec<char>,
    field: Vec<char>,
    t: &Option<String>,
    sc: u32,
    Ghost(e): Ghost<Seq<(Seq<char>, ValueModel)>>,
)
    requires
        old(set).wf(),
        old(set)@ == fold_map(e),
    ensures
        final(set).wf(),
        final(set)@ == fold_map(e + field_emission(key@, label@, field@, opt_view(*t), sc)),
{
    match t {
        Some(s) => {
            if is_number_text(&chars_of(s.as_str())) {
                let name = metric_name(&metric_name(key, label), &field);
                let ghost x = (name@, ValueModel::Number { text: s@, scale: sc as nat });
                assert(field_emission(key@, label@, field@, opt_view(*t), sc) == seq![x]);
                assert(e + seq![x] =~= e.push(x));
                emit(set, &name, SampleValue::Number { text: s.clone(), scale: sc }, Ghost(e));
            } else {
                assert(e + seq![] =~= e);
            }
        },
        None => {
            assert(e + seq![] =~= e);
        },
    }
}

/// Adds the samples of one performance entry to `set`, which stands for `e`.
fn emit_entry(
    set: &mut SampleSet,
    key: &Vec<char>,
    entry: &PerfEntry,
    Ghost(e): Ghost<Seq<(Seq<char>, ValueModel)>>,
)
    requires
        old(set).wf(),
        old(set)@ == fold_map(e),
    ensures
        final(set).wf(),
        final(set)@ == fold_map(e + entry_emissions(key@, entry@)),
{
    let m = Ghost(entry@);
    let sc: u32 = match &entry.unit {
        Some(u) => match scale_of_unit(&chars_of(u.as_str())) {
            Some(x) => x,
            None => 0,
        },
        None => 0,
    };
    assert(sc == entry_scale(m@));
    let label = chars_of(entry.label.as_str());
    let name = metric_name(key, &label);
    emit(set, &name, SampleValue::Number { text: entry.value.clone(), scale: sc }, Ghost(e));
    let ghost e1 = e.push((name@, ValueModel::Number { text: m@.value, scale: sc as nat }));
    emit_field(set, key, &label, vec!['w', 'a', 'r', 'n'], &entry.warn, sc, Ghost(e1));
    let ghost e2 = e1 + field_emission(key@, label@, seq!['w', 'a', 'r', 'n'], m@.warn, sc);
    emit_field(set, key, &label, vec!['c', 'r', 'i', 't'], &entry.crit, sc, Ghost(e2));
    let ghost e3 = e2 + field_emission(key@, label@, seq!['c', 'r', 'i', 't'], m@.crit, sc);
    emit_field(set, key, &label, vec!['m', 'i', 'n'], &entry.min, sc, Ghost(e3));
    let ghost e4 = e3 + field_emission(key@, label@, seq!['m', 'i', 'n'], m@.min, sc);
    emit_field(set, key, &label, vec!['m', 'a', 'x'], &entry.max, sc, Ghost(e4));
    assert(e4 + field_emission(key@, label@, seq!['m', 'a', 'x'], m@.max, sc) =~= e
        + entry_emissions(key@, m@));
}

/// The sample set of monitoring-plugin output `t` of item `key`.
pub fn plugin_samples(t: &str, key: &str) -> (r: SampleSet)
    ensures
        r.wf(),
        r@ == fold_map(plugin_emissions(t@, key@)),
{
    let mut set = SampleSet::new();
    let line = match split_status_line(t) {
        Some(l) => l,
        None => {
            return set;
        },
    };
    let k = chars_of(key);
    let code_text: Vec<char> = if line.code == 0 {
        vec!['0']
    } else if line.code == 1 {
        vec!['1']
    } else if line.code == 2 {
        vec!['2']
    } else {
        vec!['3']
    };
    let name = metric_name(&k, &vec!['s', 't', 'a', 't', 'u', 's']);
    emit(
        &mut set,
        &name,
        SampleValue::Number { text: string_of(code_text.as_slice()), scale: 0 },
        Ghost(Seq::<(Seq<char>, ValueModel)>::empty()),
    );
    let ghost head = seq![].push((name@, ValueModel::Number { text: status_text(line.code), scale: 0 }));
    assert(code_text@ == status_text(line.code));
    let entries = parse_performance(line.performance.as_str());
    let ghost es = perf_entries(line.performance@);
    let mut i: usize = 0;
    assert(head + entries_emissions(key@, es.subrange(0, 0)) =~= head);
    while i < entries.len()
        invariant
            i <= entries.len(),
            k@ == key@,
            entries@.map_values(|e: PerfEntry| e@) == es,
            set.wf(),
            set@ == fold_map(head + entries_emissions(key@, es.subrange(0, i as int))),
        decreases entries.len() - i,
    {
        let ghost before = head + entries_emissions(key@, es.subrange(0, i as int));
        emit_entry(&mut set, &k, &entries[i], Ghost(before));
        assert(es.subrange(0, i + 1).drop_last() =~= es.subrange(0, i as int));
        assert(es[i as int] == entries@[i as int]@);
        assert(before + entry_emissions(key@, es[i as int]) =~= head + entries_emissions(
            key@,
            es.subrange(0, i + 1),
        ));
        i = i + 1;
    }
    assert(es.subrange(0, i as int) =~= es);
    assert(head =~= seq![(metric(key@, seq!['s', 't', 'a', 't', 'u', 's']), ValueModel::Number {
        text: status_text(line.code),
        scale: 0,
    })]);
    set
}

/// The sample set of `t` read as one number.
pub fn raw_samples(t: &str, key: &str) -> (r: SampleSet)
    ensures
        r.wf(),
        r@ == fold_map(raw_emissions(t@, key@)),
{
    let mut set = SampleSet::new();
    if is_number_text(&chars_of(t)) {
        let name = metric_name(&chars_of(key), &vec!['p', 'a', 'r', 's', 'e', 'd']);
        emit(&mut set, &name, SampleValue::Number { text: string_of(chars_of(t).as_slice()), scale: 0 }, Ghost(Seq::<(Seq<char>, ValueModel)>::empty()));
        assert(seq![].push((name@, ValueModel::Number { text: t@, scale: 0 })) =~= raw_emissions(t@, key@));
    }
    set
}

/// The sample set of matching `pattern` against `t`.
pub fn regex_samples(pattern: &str, t: &str, key: &str) -> (r: SampleSet)
    ensures
        r.wf(),
        r@ == fold_map(regex_emissions(pattern@, t@, key@)),
{
    match regex_named_captures(pattern, t) {
        Some(caps) => capture_samples(key, &caps),
        None => SampleSet::new(),
    }
}

impl DigestKind {
    /// The samples of the raw text `result` of item `itemkey`, which is
    /// trimmed of surrounding whitespace first.
    pub fn samples(&self, result: &str, itemkey: &str) -> (r: SampleSet)
        ensures
            r.wf(),
            r@ == digest_values(*self, result@, itemkey@),
    {
        let t = string_of(trim_chars(&chars_of(result)).as_slice());
        match self {
            DigestKind::Raw => raw_samples(t.as_str(), itemkey),
            DigestKind::Regex { regex } => regex_samples(regex.as_str(), t.as_str(), itemkey),
            DigestKind::MonitoringPlugin => plugin_samples(t.as_str(), itemkey),
        }
    }

    /// Digests the raw text `result` of item `itemkey` into a result stamped
    /// with the time now. The raw text is kept trimmed.
    pub fn digest(&self, result: &str, itemkey: &str) -> (r: ItemResult)
        ensures
            r.key@ == itemkey@,
            r.raw@ == trimmed(result@),
            r.values.wf(),
            r.values@ == digest_values(*self, result@, itemkey@),
    {
        let values = self.samples(result, itemkey);
        ItemResult {
            time: unix_time_now(),
            key: string_of(chars_of(itemkey).as_slice()),
            raw: string_of(trim_chars(&chars_of(result)).as_slice()),
            values,
        }
    }
}

/// Digesting is deterministic: two results of digesting the same text under
/// the same mode for the same item hold the same samples.
pub proof fn lemma_digest_idempotent(
    kind: DigestKind,
    raw: Seq<char>,
    key: Seq<char>,
    a: ItemResult,
    b: ItemResult,
)
    requires
        a.values@ == digest_values(kind, raw, key),
        b.values@ == digest_values(kind, raw, key),
    ensures
        a.values@ == b.values@,
{
}

} // verus!
