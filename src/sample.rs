//! Sample values and sample sets: what digesting one output yields.

use vstd::prelude::*;
use crate::text::{chars_eq, chars_of};

verus! {

/// The value of one sample.
///
/// A number keeps the text it was read from, together with a power of 1024
/// by which that number is multiplied (0 for an unscaled value). A captured
/// text that is not a number is kept as `NotANumber`.
#[derive(Clone, Debug, PartialEq)]
pub enum SampleValue {
    Number { text: String, scale: u32 },
    NotANumber,
}

impl SampleValue {
    /// A copy of this value.
    pub fn duplicate(&self) -> (r: SampleValue)
        ensures
            r@ == self@,
    {
        match self {
            SampleValue::Number { text, scale } => SampleValue::Number { text: text.clone(), scale: *scale },
            SampleValue::NotANumber => SampleValue::NotANumber,
        }
    }
}

/// What a sample value stands for.
pub ghost enum ValueModel {
    Number { text: Seq<char>, scale: nat },
    NotANumber,
}

impl View for SampleValue {
    type V = ValueModel;

    open spec fn view(&self) -> ValueModel {
        match self {
            SampleValue::Number { text, scale } => ValueModel::Number {
                text: text@,
                scale: *scale as nat,
            },
            SampleValue::NotANumber => ValueModel::NotANumber,
        }
    }
}

/// One named sample.
#[derive(Clone, Debug)]
pub struct Sample {
    pub name: String,
    pub value: SampleValue,
}

/// The map that a sequence of samples stands for; a later sample of a name
/// stands in for an earlier one.
pub open spec fn entries_map(s: Seq<Sample>) -> Map<Seq<char>, ValueModel>
    decreases s.len(),
{
    if s.len() == 0 {
        Map::empty()
    } else {
        entries_map(s.drop_last()).insert(s.last().name@, s.last().value@)
    }
}

pub open spec fn names_unique(s: Seq<Sample>) -> bool {
    forall|i: int, j: int|
        0 <= i < s.len() && 0 <= j < s.len() && i != j ==> s[i].name@ != s[j].name@
}

/// With unique names, the map holds exactly the names of the samples, each
/// with its value.
pub proof fn lemma_entries_map(s: Seq<Sample>)
    requires
        names_unique(s),
    ensures
        forall|k: Seq<char>|
            entries_map(s).contains_key(k) <==> exists|j: int|
                0 <= j < s.len() && (#[trigger] s[j]).name@ == k,
        forall|j: int| 0 <= j < s.len() ==> entries_map(s)[(#[trigger] s[j]).name@] == s[j].value@,
    decreases s.len(),
{
    if s.len() > 0 {
        let t = s.drop_last();
        assert(names_unique(t));
        lemma_entries_map(t);
        assert(entries_map(s) == entries_map(t).insert(s.last().name@, s.last().value@));
        assert forall|k: Seq<char>|
            entries_map(s).contains_key(k) implies exists|j: int|
                0 <= j < s.len() && (#[trigger] s[j]).name@ == k by {
            if k != s.last().name@ {
                let j = choose|j: int| 0 <= j < t.len() && (#[trigger] t[j]).name@ == k;
                assert(s[j] == t[j]);
            } else {
                assert(s[s.len() - 1] == s.last());
            }
        }
        assert forall|j: int| 0 <= j < s.len() implies entries_map(s)[(#[trigger] s[j]).name@]
            == s[j].value@ by {
            if j < s.len() - 1 {
                assert(s[j] == t[j]);
                assert(s[j].name@ != s[s.len() - 1].name@);
            }
        }
        assert forall|k: Seq<char>|
            (exists|j: int| 0 <= j < s.len() && (#[trigger] s[j]).name@ == k) implies entries_map(
            s,
        ).contains_key(k) by {
            let j = choose|j: int| 0 <= j < s.len() && (#[trigger] s[j]).name@ == k;
            if j < s.len() - 1 {
                assert(s[j] == t[j]);
            }
        }
    }
}

/// Whether two strings hold the same characters.
pub fn str_eq(a: &str, b: &str) -> (r: bool)
    ensures
        r == (a@ == b@),
{
    let bc = chars_of(b);
    chars_eq(&chars_of(a), bc.as_slice())
}

/// A set of samples whose names are unique.
#[derive(Clone, Debug)]
pub struct SampleSet {
    samples: Vec<Sample>,
}

impl View for SampleSet {
    type V = Map<Seq<char>, ValueModel>;

    closed spec fn view(&self) -> Map<Seq<char>, ValueModel> {
        entries_map(self.samples@)
    }
}

impl SampleSet {
    pub closed spec fn wf(&self) -> bool {
        names_unique(self.samples@)
    }

    pub closed spec fn entries(&self) -> Seq<Sample> {
        self.samples@
    }

    /// The empty set.
    pub fn new() -> (r: SampleSet)
        ensures
            r.wf(),
            r@ == Map::<Seq<char>, ValueModel>::empty(),
    {
        SampleSet { samples: Vec::new() }
    }

    /// Sets the value of `name`, in place of any value that it had.
    pub fn insert(&mut self, name: String, value: SampleValue)
        requires
            old(self).wf(),
        ensures
            final(self).wf(),
            final(self)@ == old(self)@.insert(name@, value@),
    {
        let ghost s = self.samples@;
        let ghost nm = name@;
        let ghost vm = value@;
        assert(old(self)@ == entries_map(s));
        proof {
            lemma_entries_map(s);
        }
        let mut i: usize = 0;
        while i < self.samples.len()
            invariant
                self.samples@ == s,
                names_unique(s),
                nm == name@,
                vm == value@,
                old(self)@ == entries_map(s),
                i <= s.len(),
                forall|j: int| 0 <= j < i ==> s[j].name@ != name@,
            decreases s.len() - i,
        {
            if str_eq(self.samples[i].name.as_str(), name.as_str()) {
                let ghost v = value@;
                assert(v == vm);
                let smp = Sample { name, value };
                let ghost gs = smp;
                self.samples.set(i, smp);
                let ghost s2 = self.samples@;
                assert(s2 == s.update(i as int, gs));
                assert(gs.name@ == s[i as int].name@);
                assert(names_unique(s2)) by {
                    assert forall|a: int, b: int|
                        0 <= a < s2.len() && 0 <= b < s2.len() && a != b implies s2[a].name@
                        != s2[b].name@ by {
                        if a != i {
                            assert(s2[a] == s[a]);
                        }
                        if b != i {
                            assert(s2[b] == s[b]);
                        }
                        assert(s2[a].name@ == s[a].name@);
                        assert(s2[b].name@ == s[b].name@);
                    }
                }
                proof {
                    lemma_entries_map(s);
                    lemma_entries_map(s2);
                    let k = s[i as int].name@;
                    assert forall|x: Seq<char>|
                        entries_map(s2).contains_key(x) == entries_map(s).insert(k, v).contains_key(
                            x,
                        ) by {
                        if entries_map(s2).contains_key(x) {
                            let j = choose|j: int| 0 <= j < s2.len() && (#[trigger] s2[j]).name@ == x;
                            if j != i {
                                assert(s2[j] == s[j]);
                            }
                            assert(s[j].name@ == x);
                        }
                        if entries_map(s).contains_key(x) {
                            let j = choose|j: int| 0 <= j < s.len() && (#[trigger] s[j]).name@ == x;
                            if j != i {
                                assert(s2[j] == s[j]);
                            }
                            assert(s2[j].name@ == x);
                        }
                        if x == k {
                            assert(s2[i as int].name@ == x);
                        }
                    }
                    assert forall|x: Seq<char>| #[trigger]
                        entries_map(s2).contains_key(x) implies entries_map(s2)[x] == entries_map(
                            s,
                        ).insert(k, v)[x] by {
                        let j = choose|j: int| 0 <= j < s2.len() && (#[trigger] s2[j]).name@ == x;
                        if j != i {
                            assert(s2[j] == s[j]);
                        }
                    }
                    assert(entries_map(s2) =~= entries_map(s).insert(k, v));
                    assert(k == gs.name@);
                    assert(k == nm);
                    assert(v == gs.value@);
                    assert(self@ == entries_map(s2));
                }
                return;
            }
            i = i + 1;
        }
        let ghost old_samples = self.samples@;
        self.samples.push(Sample { name, value });
        proof {
            let s2 = self.samples@;
            assert(s2.drop_last() =~= old_samples);
            assert forall|a: int, b: int|
                0 <= a < s2.len() && 0 <= b < s2.len() && a != b implies s2[a].name@
                != s2[b].name@ by {
                if a < s.len() && b < s.len() {
                    assert(s2[a] == s[a] && s2[b] == s[b]);
                } else if a < s.len() {
                    assert(s2[a] == s[a]);
                } else {
                    assert(s2[b] == s[b]);
                }
            }
        }
    }

    /// The samples, in order, stand for the set: their names are unique and
    /// the map they give is the set's.
    pub proof fn lemma_entries_view(&self)
        requires
            self.wf(),
        ensures
            names_unique(self.entries()),
            entries_map(self.entries()) == self@,
    {
    }

    /// The number of samples.
    pub fn len(&self) -> (r: usize)
        requires
            self.wf(),
        ensures
            r == self@.len(),
    {
        proof {
            lemma_entries_map(self.samples@);
            lemma_map_size(self.samples@);
        }
        self.samples.len()
    }

    /// Whether the set holds no sample.
    pub fn is_empty(&self) -> (r: bool)
        requires
            self.wf(),
        ensures
            r == (self@ == Map::<Seq<char>, ValueModel>::empty()),
    {
        proof {
            lemma_entries_map(self.samples@);
        }
        if self.samples.len() == 0 {
            assert(self@ =~= Map::<Seq<char>, ValueModel>::empty());
            true
        } else {
            assert(self@.contains_key(self.samples@[0].name@));
            false
        }
    }

    /// The value of `name`, if the set has one.
    pub fn get(&self, name: &str) -> (r: Option<&SampleValue>)
        requires
            self.wf(),
        ensures
            match r {
                Some(v) => self@.contains_key(name@) && self@[name@] == v@,
                None => !self@.contains_key(name@),
            },
    {
        proof {
            lemma_entries_map(self.samples@);
        }
        let mut i: usize = 0;
        while i < self.samples.len()
            invariant
                i <= self.samples.len(),
                self.wf(),
                forall|j: int| 0 <= j < i ==> self.samples@[j].name@ != name@,
            decreases self.samples.len() - i,
        {
            if str_eq(self.samples[i].name.as_str(), name) {
                proof {
                    lemma_entries_map(self.samples@);
                }
                assert(self.samples@[i as int].name@ == name@);
                return Some(&self.samples[i].value);
            }
            i = i + 1;
        }
        None
    }

    /// The samples, in the order in which their names were first set.
    pub fn samples(&self) -> (r: &Vec<Sample>)
        ensures
            r@ == self.entries(),
    {
        &self.samples
    }
}

/// With unique names, the map has one key per sample.
proof fn lemma_map_size(s: Seq<Sample>)
    requires
        names_unique(s),
    ensures
        entries_map(s).len() == s.len(),
        entries_map(s).dom().finite(),
    decreases s.len(),
{
    if s.len() > 0 {
        let t = s.drop_last();
        assert(names_unique(t));
        lemma_map_size(t);
        lemma_entries_map(t);
        if entries_map(t).contains_key(s.last().name@) {
            let j = choose|j: int| 0 <= j < t.len() && (#[trigger] t[j]).name@ == s.last().name@;
            assert(s[j] == t[j]);
            assert(s[s.len() - 1] == s.last());
        }
    }
}

} // verus!
