//! What an output sink writes for one result.

use vstd::prelude::*;
use crate::digest::{ItemResult, metric};
use crate::sample::{Sample, SampleValue};
use crate::text::{chars_of, string_of};

verus! {

/// When a sink writes the raw text of a result.
#[derive(Clone, Copy, Debug)]
pub struct RawPolicy {
    /// Write the raw text of every result.
    pub always_write_raw: bool,
    /// Write the raw text of a result that has no sample.
    pub use_raw_as_fallback: bool,
}

/// Whether the raw text of a result is written.
pub open spec fn writes_raw(p: RawPolicy, no_samples: bool) -> bool {
    (no_samples && p.use_raw_as_fallback) || p.always_write_raw
}

/// A sink that appends to one file per metric under `base_path`.
#[derive(Clone, Debug)]
pub struct FileOutput {
    pub base_path: String,
    pub always_write_raw: bool,
}

impl FileOutput {
    /// A file sink writes the raw text where there is no sample, and always
    /// where it is asked to.
    pub fn policy(&self) -> (r: RawPolicy)
        ensures
            r.always_write_raw == self.always_write_raw,
            r.use_raw_as_fallback,
    {
        RawPolicy { always_write_raw: self.always_write_raw, use_raw_as_fallback: true }
    }
}

/// The name of the file of metric `key`: each `/` becomes `_`.
pub open spec fn file_name(key: Seq<char>) -> Seq<char> {
    key.map_values(|c: char| if c == '/' { '_' } else { c })
}

impl FileOutput {
    /// The name, under `base_path`, of the file that metric `key` is appended to.
    pub fn file_name_of(key: &str) -> (r: String)
        ensures
            r@ == file_name(key@),
    {
        let k = chars_of(key);
        let mut out: Vec<char> = Vec::new();
        let mut i: usize = 0;
        while i < k.len()
            invariant
                i <= k.len(),
                k@ == key@,
                out@ == file_name(k@.subrange(0, i as int)),
            decreases k.len() - i,
        {
            out.push(if k[i] == '/' { '_' } else { k[i] });
            assert(file_name(k@.subrange(0, i + 1)) =~= file_name(k@.subrange(0, i as int)).push(
                if k@[i as int] == '/' { '_' } else { k@[i as int] },
            ));
            i = i + 1;
        }
        assert(k@.subrange(0, i as int) =~= k@);
        string_of(out.as_slice())
    }
}

/// What a sink stores: a number under a metric name, or raw text.
#[derive(Clone, Debug)]
pub enum Record {
    Value { key: String, value: SampleValue },
    Raw { key: String, text: String },
}

pub ghost enum RecordModel {
    Value { key: Seq<char>, value: crate::sample::ValueModel },
    Raw { key: Seq<char>, text: Seq<char> },
}

impl View for Record {
    type V = RecordModel;

    open spec fn view(&self) -> RecordModel {
        match self {
            Record::Value { key, value } => RecordModel::Value { key: key@, value: value@ },
            Record::Raw { key, text } => RecordModel::Raw { key: key@, text: text@ },
        }
    }
}

pub open spec fn raw_word() -> Seq<char> {
    seq!['r', 'a', 'w']
}

/// The records of the samples of a result, one for each.
pub open spec fn sample_records(s: Seq<Sample>) -> Seq<RecordModel> {
    s.map_values(|x: Sample| RecordModel::Value { key: x.name@, value: x.value@ })
}

/// What a sink with policy `p` writes for `res`: the raw text under
/// `key.raw` where the policy asks for it, then every sample.
pub open spec fn records_of(p: RawPolicy, res: ItemResult) -> Seq<RecordModel> {
    let raw: Seq<RecordModel> = if writes_raw(p, res.values.entries().len() == 0) {
        seq![RecordModel::Raw { key: metric(res.key@, raw_word()), text: res.raw@ }]
    } else {
        seq![]
    };
    raw + sample_records(res.values.entries())
}

/// The records that a sink with policy `p` writes for `res`.
pub fn records(p: RawPolicy, res: &ItemResult) -> (r: Vec<Record>)
    ensures
        r@.map_values(|x: Record| x@) == records_of(p, *res),
{
    let mut out: Vec<Record> = Vec::new();
    let samples = res.values.samples();
    if (samples.len() == 0 && p.use_raw_as_fallback) || p.always_write_raw {
        let mut k = chars_of(res.key.as_str());
        k.push('.');
        k.push('r');
        k.push('a');
        k.push('w');
        assert(k@ =~= metric(res.key@, raw_word()));
        out.push(Record::Raw { key: string_of(k.as_slice()), text: res.raw.clone() });
    }
    let ghost head = out@.map_values(|x: Record| x@);
    let mut i: usize = 0;
    while i < samples.len()
        invariant
            i <= samples.len(),
            samples@ == res.values.entries(),
            out@.map_values(|x: Record| x@) == head + sample_records(samples@.subrange(0, i as int)),
        decreases samples.len() - i,
    {
        let s = &samples[i];
        let ghost before = out@.map_values(|x: Record| x@);
        let name = s.name.clone();
        let value = s.value.duplicate();
        out.push(Record::Value { key: name, value });
        assert(out@.map_values(|x: Record| x@) =~= before.push(
            RecordModel::Value { key: s.name@, value: s.value@ },
        ));
        assert(sample_records(samples@.subrange(0, i + 1)) =~= sample_records(
            samples@.subrange(0, i as int),
        ).push(RecordModel::Value { key: s.name@, value: s.value@ }));
        i = i + 1;
    }
    assert(samples@.subrange(0, i as int) =~= samples@);
    out
}

} // verus!
