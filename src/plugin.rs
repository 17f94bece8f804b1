//! The output format of monitoring plugins, restricted to one line:
//! a message holding a status word, a `|`, then performance data such as
//! `load1=0.31;10;15;0; mem=2MB`.

use vstd::prelude::*;
use crate::number::{is_number, is_number_text};
use crate::text::{chars_eq, chars_of, is_whitespace, is_ws, slice_of, string_of};

verus! {

/// The first index at or after `i` where `s` holds `c`, or `s.len()`.
pub open spec fn find_from(s: Seq<char>, i: int, c: char) -> int
    decreases s.len() - i,
{
    if i < 0 || i >= s.len() {
        s.len() as int
    } else if s[i] == c {
        i
    } else {
        find_from(s, i + 1, c)
    }
}

pub fn find_char(v: &Vec<char>, i: usize, c: char) -> (r: usize)
    requires
        i <= v.len(),
    ensures
        r == find_from(v@, i as int, c),
        i <= r <= v.len(),
{
    let mut k: usize = i;
    while k < v.len() && v[k] != c
        invariant
            i <= k <= v.len(),
            find_from(v@, i as int, c) == find_from(v@, k as int, c),
        decreases v.len() - k,
    {
        k = k + 1;
    }
    k
}

/// Whether `s` holds `tok` at `i`.
pub open spec fn token_at(s: Seq<char>, i: int, tok: Seq<char>) -> bool {
    0 <= i && i + tok.len() <= s.len() && s.subrange(i, i + tok.len()) == tok
}

pub open spec fn ok_word() -> Seq<char> {
    seq!['O', 'K']
}

pub open spec fn warning_word() -> Seq<char> {
    seq!['W', 'A', 'R', 'N', 'I', 'N', 'G']
}

pub open spec fn critical_word() -> Seq<char> {
    seq!['C', 'R', 'I', 'T', 'I', 'C', 'A', 'L']
}

pub open spec fn unknown_word() -> Seq<char> {
    seq!['U', 'N', 'K', 'N', 'O', 'W', 'N']
}

/// The status word at `i`, if there is one, as its code.
pub open spec fn status_at(s: Seq<char>, i: int) -> Option<u32> {
    if token_at(s, i, ok_word()) {
        Some(0)
    } else if token_at(s, i, warning_word()) {
        Some(1)
    } else if token_at(s, i, critical_word()) {
        Some(2)
    } else if token_at(s, i, unknown_word()) {
        Some(3)
    } else {
        None
    }
}

/// The code of the leftmost status word in `s` at or after `i`.
pub open spec fn first_status(s: Seq<char>, i: int) -> Option<u32>
    decreases s.len() - i,
{
    if i < 0 || i >= s.len() {
        None
    } else if status_at(s, i) is Some {
        status_at(s, i)
    } else {
        first_status(s, i + 1)
    }
}

/// The word of a status code.
pub open spec fn status_word(code: u32) -> Seq<char> {
    if code == 0 {
        ok_word()
    } else if code == 1 {
        warning_word()
    } else if code == 2 {
        critical_word()
    } else {
        unknown_word()
    }
}

/// A status line split at its `|`: the status and the performance data.
pub struct StatusLine {
    /// The status word: `OK`, `WARNING`, `CRITICAL` or `UNKNOWN`.
    pub status: String,
    /// 0, 1, 2 or 3 for the four status words.
    pub code: u32,
    /// What follows the `|`, up to the end of the line.
    pub performance: String,
}

/// The code and performance data of a status line, when it holds a `|`
/// with a status word before it.
pub open spec fn status_line_of(s: Seq<char>) -> Option<(u32, Seq<char>)> {
    let b = find_from(s, 0, '|');
    if b >= s.len() {
        None
    } else {
        match first_status(s.subrange(0, b), 0) {
            Some(code) => Some((code, s.subrange(b + 1, find_from(s, b + 1, '\n')))),
            None => None,
        }
    }
}

fn word_at(v: &Vec<char>, i: usize, w: &[char]) -> (r: bool)
    requires
        i <= v.len(),
    ensures
        r == token_at(v@, i as int, w@),
{
    if w.len() > v.len() - i {
        return false;
    }
    let part = slice_of(v, i, i + w.len());
    chars_eq(&part, w)
}

fn status_code_at(v: &Vec<char>, i: usize) -> (r: Option<u32>)
    requires
        i <= v.len(),
    ensures
        r == status_at(v@, i as int),
{
    let ok = ['O', 'K'];
    let warning = ['W', 'A', 'R', 'N', 'I', 'N', 'G'];
    let critical = ['C', 'R', 'I', 'T', 'I', 'C', 'A', 'L'];
    let unknown = ['U', 'N', 'K', 'N', 'O', 'W', 'N'];
    assert(ok@ == ok_word());
    assert(warning@ == warning_word());
    assert(critical@ == critical_word());
    assert(unknown@ == unknown_word());
    if word_at(v, i, &ok) {
        Some(0)
    } else if word_at(v, i, &warning) {
        Some(1)
    } else if word_at(v, i, &critical) {
        Some(2)
    } else if word_at(v, i, &unknown) {
        Some(3)
    } else {
        None
    }
}

fn status_word_of(code: u32) -> (r: String)
    ensures
        r@ == status_word(code),
{
    let w: Vec<char> = if code == 0 {
        vec!['O', 'K']
    } else if code == 1 {
        vec!['W', 'A', 'R', 'N', 'I', 'N', 'G']
    } else if code == 2 {
        vec!['C', 'R', 'I', 'T', 'I', 'C', 'A', 'L']
    } else {
        vec!['U', 'N', 'K', 'N', 'O', 'W', 'N']
    };
    assert(w@ == status_word(code));
    string_of(w.as_slice())
}

fn leftmost_status(head: &Vec<char>) -> (r: Option<u32>)
    ensures
        r == first_status(head@, 0),
{
    let mut i: usize = 0;
    while i < head.len()
        invariant
            i <= head.len(),
            first_status(head@, 0) == first_status(head@, i as int),
        decreases head.len() - i,
    {
        let c = status_code_at(head, i);
        if c.is_some() {
            return c;
        }
        i = i + 1;
    }
    None
}

/// Splits a status line at its `|`, when a status word stands before it.
pub fn split_status_line(line: &str) -> (r: Option<StatusLine>)
    ensures
        match r {
            Some(l) => status_line_of(line@) == Some((l.code, l.performance@))
                && l.status@ == status_word(l.code),
            None => status_line_of(line@) is None,
        },
{
    let v = chars_of(line);
    let b = find_char(&v, 0, '|');
    if b >= v.len() {
        return None;
    }
    let head = slice_of(&v, 0, b);
    match leftmost_status(&head) {
        None => None,
        Some(code) => {
            let e = find_char(&v, b + 1, '\n');
            let perf = slice_of(&v, b + 1, e);
            Some(StatusLine { status: status_word_of(code), code, performance: string_of(perf.as_slice()) })
        },
    }
}

/// Whether `c` may stand in the value of a performance entry.
pub open spec fn is_value_char(c: char) -> bool {
    ('0' <= c && c <= '9') || c == '.' || c == '-' || c == '+'
}

/// The number of consecutive value characters in `s` from `i` on.
pub open spec fn value_run(s: Seq<char>, i: int) -> int
    decreases s.len() - i,
{
    if 0 <= i < s.len() && is_value_char(s[i]) {
        1 + value_run(s, i + 1)
    } else {
        0
    }
}

/// The power of 1024 that a unit scales by; `None` for a text that is no unit.
pub open spec fn unit_scale(u: Seq<char>) -> Option<u32> {
    if u.len() == 0 || u == seq!['s'] || u == seq!['m', 's'] || u == seq!['n', 's'] || u == seq![
        'u',
        's',
    ] || u == seq!['B'] || u == seq!['%'] || u == seq!['c'] {
        Some(0)
    } else if u == seq!['K', 'B'] {
        Some(1)
    } else if u == seq!['M', 'B'] {
        Some(2)
    } else if u == seq!['G', 'B'] {
        Some(3)
    } else if u == seq!['T', 'B'] {
        Some(4)
    } else {
        None
    }
}

/// The piece of `s` after the `;` at `i`, up to the next `;`, skipping
/// `k` pieces first.
pub open spec fn piece_after(s: Seq<char>, i: int, k: nat) -> Option<Seq<char>>
    decreases k,
{
    if i < 0 || i >= s.len() {
        None
    } else if k == 0 {
        Some(s.subrange(i + 1, find_from(s, i + 1, ';')))
    } else {
        piece_after(s, find_from(s, i + 1, ';'), (k - 1) as nat)
    }
}

/// A piece that is present and not empty.
pub open spec fn non_empty(p: Option<Seq<char>>) -> Option<Seq<char>> {
    match p {
        Some(t) => if t.len() > 0 {
            Some(t)
        } else {
            None
        },
        None => None,
    }
}

/// One performance entry, as text.
pub struct PerfEntry {
    pub label: String,
    pub value: String,
    pub unit: Option<String>,
    pub warn: Option<String>,
    pub crit: Option<String>,
    pub min: Option<String>,
    pub max: Option<String>,
}

pub ghost struct EntryModel {
    pub label: Seq<char>,
    pub value: Seq<char>,
    pub unit: Option<Seq<char>>,
    pub warn: Option<Seq<char>>,
    pub crit: Option<Seq<char>>,
    pub min: Option<Seq<char>>,
    pub max: Option<Seq<char>>,
}

pub open spec fn opt_view(o: Option<String>) -> Option<Seq<char>> {
    match o {
        Some(s) => Some(s@),
        None => None,
    }
}

impl View for PerfEntry {
    type V = EntryModel;

    open spec fn view(&self) -> EntryModel {
        EntryModel {
            label: self.label@,
            value: self.value@,
            unit: opt_view(self.unit),
            warn: opt_view(self.warn),
            crit: opt_view(self.crit),
            min: opt_view(self.min),
            max: opt_view(self.max),
        }
    }
}

/// The entry that the token `t` (`label=value[unit][;warn][;crit][;min][;max]`)
/// holds: its label is what precedes the first `=` and is not empty; its
/// value is a number, followed by nothing or a unit, up to the first `;`.
pub open spec fn entry_of(t: Seq<char>) -> Option<EntryModel> {
    let q = find_from(t, 0, '=');
    let rest = t.subrange(q + 1, t.len() as int);
    let p = find_from(rest, 0, ';');
    let head = rest.subrange(0, p);
    let v = value_run(head, 0);
    let value = head.subrange(0, v);
    let unit = head.subrange(v, head.len() as int);
    if q == 0 || q >= t.len() || !is_number(value) || unit_scale(unit) is None {
        None
    } else {
        Some(
            EntryModel {
                label: t.subrange(0, q),
                value,
                unit: if unit.len() == 0 {
                    None
                } else {
                    Some(unit)
                },
                warn: non_empty(piece_after(rest, p, 0)),
                crit: non_empty(piece_after(rest, p, 1)),
                min: non_empty(piece_after(rest, p, 2)),
                max: non_empty(piece_after(rest, p, 3)),
            },
        )
    }
}

/// Where the run of non-whitespace characters of `s` that starts at `i` ends.
pub open spec fn token_end(s: Seq<char>, i: int) -> int
    decreases s.len() - i,
{
    if 0 <= i < s.len() && !is_ws(s[i]) {
        token_end(s, i + 1)
    } else {
        i
    }
}

/// The entries of the whitespace-separated tokens of `s` from `i` on;
/// tokens that hold no entry are passed over.
pub open spec fn entries_from(s: Seq<char>, i: int) -> Seq<EntryModel>
    decreases s.len() - i,
{
    if i < 0 || i >= s.len() {
        seq![]
    } else if is_ws(s[i]) {
        entries_from(s, i + 1)
    } else {
        let e = token_end(s, i);
        if i < e <= s.len() {
            match entry_of(s.subrange(i, e)) {
                Some(m) => seq![m] + entries_from(s, e),
                None => entries_from(s, e),
            }
        } else {
            seq![]
        }
    }
}

/// The entries of a performance segment.
pub open spec fn perf_entries(s: Seq<char>) -> Seq<EntryModel> {
    entries_from(s, 0)
}

proof fn lemma_token_end(s: Seq<char>, i: int)
    requires
        0 <= i < s.len(),
        !is_ws(s[i]),
    ensures
        i < token_end(s, i) <= s.len(),
    decreases s.len() - i,
{
    assert(token_end(s, i) == token_end(s, i + 1));
    if i + 1 < s.len() && !is_ws(s[i + 1]) {
        lemma_token_end(s, i + 1);
    } else {
        assert(token_end(s, i + 1) == i + 1);
    }
}

fn value_len(v: &Vec<char>, i: usize) -> (r: usize)
    requires
        i <= v.len(),
    ensures
        r == value_run(v@, i as int),
        i + r <= v.len(),
{
    let mut k: usize = i;
    while k < v.len() && (('0' <= v[k] && v[k] <= '9') || v[k] == '.' || v[k] == '-' || v[k]
        == '+')
        invariant
            i <= k <= v.len(),
            value_run(v@, i as int) == (k - i) + value_run(v@, k as int),
        decreases v.len() - k,
    {
        k = k + 1;
    }
    k - i
}

/// The power of 1024 that the unit `u` scales by, if `u` is a unit.
pub fn scale_of_unit(u: &Vec<char>) -> (r: Option<u32>)
    ensures
        r == unit_scale(u@),
{
    let s = ['s'];
    let ms = ['m', 's'];
    let ns = ['n', 's'];
    let us = ['u', 's'];
    let b = ['B'];
    let pc = ['%'];
    let c = ['c'];
    let kb = ['K', 'B'];
    let mb = ['M', 'B'];
    let gb = ['G', 'B'];
    let tb = ['T', 'B'];
    assert(s@ == seq!['s'] && ms@ == seq!['m', 's'] && ns@ == seq!['n', 's'] && us@ == seq!['u', 's']);
    assert(b@ == seq!['B'] && pc@ == seq!['%'] && c@ == seq!['c']);
    assert(kb@ == seq!['K', 'B'] && mb@ == seq!['M', 'B'] && gb@ == seq!['G', 'B'] && tb@ == seq![
        'T',
        'B',
    ]);
    if u.len() == 0 || chars_eq(u, &s) || chars_eq(u, &ms) || chars_eq(u, &ns) || chars_eq(u, &us)
        || chars_eq(u, &b) || chars_eq(u, &pc) || chars_eq(u, &c) {
        Some(0)
    } else if chars_eq(u, &kb) {
        Some(1)
    } else if chars_eq(u, &mb) {
        Some(2)
    } else if chars_eq(u, &gb) {
        Some(3)
    } else if chars_eq(u, &tb) {
        Some(4)
    } else {
        None
    }
}

fn piece(v: &Vec<char>, i: usize, k: usize) -> (r: Option<String>)
    requires
        i <= v.len(),
    ensures
        opt_view(r) == non_empty(piece_after(v@, i as int, k as nat)),
    decreases k,
{
    if i >= v.len() {
        None
    } else {
        let j = find_char(v, i + 1, ';');
        if k == 0 {
            if j == i + 1 {
                None
            } else {
                let t = slice_of(v, i + 1, j);
                Some(string_of(t.as_slice()))
            }
        } else {
            piece(v, j, k - 1)
        }
    }
}

fn parse_entry(t: &Vec<char>) -> (r: Option<PerfEntry>)
    ensures
        match r {
            Some(e) => entry_of(t@) == Some(e@),
            None => entry_of(t@) is None,
        },
{
    let q = find_char(t, 0, '=');
    if q == 0 || q >= t.len() {
        return None;
    }
    let rest = slice_of(t, q + 1, t.len());
    let p = find_char(&rest, 0, ';');
    let head = slice_of(&rest, 0, p);
    let vl = value_len(&head, 0);
    let value = slice_of(&head, 0, vl);
    let unit = slice_of(&head, vl, head.len());
    if !is_number_text(&value) || scale_of_unit(&unit).is_none() {
        return None;
    }
    Some(
        PerfEntry {
            label: string_of(slice_of(t, 0, q).as_slice()),
            value: string_of(value.as_slice()),
            unit: if unit.len() == 0 {
                None
            } else {
                Some(string_of(unit.as_slice()))
            },
            warn: piece(&rest, p, 0),
            crit: piece(&rest, p, 1),
            min: piece(&rest, p, 2),
            max: piece(&rest, p, 3),
        },
    )
}

/// The entries of a performance segment, in order.
pub fn parse_performance(perf: &str) -> (r: Vec<PerfEntry>)
    ensures
        r@.map_values(|e: PerfEntry| e@) == perf_entries(perf@),
{
    let v = chars_of(perf);
    let n = v.len();
    let mut out: Vec<PerfEntry> = Vec::new();
    let mut i: usize = 0;
    while i < n
        invariant
            i <= n == v.len(),
            perf_entries(v@) == out@.map_values(|e: PerfEntry| e@) + entries_from(v@, i as int),
        decreases n - i,
    {
        if is_whitespace(v[i]) {
            i = i + 1;
        } else {
            proof {
                lemma_token_end(v@, i as int);
            }
            let mut e: usize = i;
            while e < n && !is_whitespace(v[e])
                invariant
                    i <= e <= n == v.len(),
                    token_end(v@, i as int) == token_end(v@, e as int),
                decreases n - e,
            {
                e = e + 1;
            }
            let tok = slice_of(&v, i, e);
            let ghost before = out@.map_values(|x: PerfEntry| x@);
            match parse_entry(&tok) {
                Some(entry) => {
                    out.push(entry);
                    assert(out@.map_values(|x: PerfEntry| x@) =~= before.push(entry@));
                },
                None => {},
            }
            i = e;
        }
    }
    assert(out@.map_values(|e: PerfEntry| e@) + entries_from(v@, i as int) =~= out@.map_values(
        |e: PerfEntry| e@,
    ));
    out
}

} // verus!
