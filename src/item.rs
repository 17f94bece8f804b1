//! Items: what is collected, how often, and what one tick does with the
//! outcome.

use vstd::prelude::*;
use crate::digest::{DigestKind, ItemResult, digest_values};
use crate::text::trimmed;

verus! {

/// Where the raw text of an item comes from.
#[derive(Clone, Debug)]
pub enum ItemKind {
    /// Read the file at the given path.
    File { path: String },
    /// Run an executable with arguments; its standard output is the text.
    Command { path: String, args: Vec<String> },
    /// Run a script with the configured shell.
    Shell { script: String },
}

/// Why a source gave no text.
#[derive(Clone, Debug, PartialEq, Eq, Structural)]
pub enum ExecError {
    /// The executable could not be started.
    Spawn,
    /// The file could not be opened or read.
    Io,
    /// What was read is not valid UTF-8.
    Encoding,
}

/// One configured item.
#[derive(Clone, Debug)]
pub struct Item {
    /// Seconds between two ticks; positive.
    pub interval: u64,
    pub key: String,
    /// Extra environment variables for commands and scripts, by name.
    pub env: Vec<(String, String)>,
    pub kind: ItemKind,
    pub digest: DigestKind,
}

/// The views of a list of strings.
pub open spec fn views(v: Seq<String>) -> Seq<Seq<char>> {
    v.map_values(|s: String| s@)
}

impl ItemKind {
    /// The program and arguments to run: `None` for a file; a script runs as
    /// `shell -c script`.
    pub fn command_line(&self, shell: &str) -> (r: Option<(String, Vec<String>)>)
        ensures
            match self {
                ItemKind::File { .. } => r is None,
                ItemKind::Command { path, args } => match r {
                    Some((p, a)) => p@ == path@ && views(a@) == views(args@),
                    None => false,
                },
                ItemKind::Shell { script } => match r {
                    Some((p, a)) => p@ == shell@ && views(a@) == seq![seq!['-', 'c'], script@],
                    None => false,
                },
            },
    {
        match self {
            ItemKind::File { .. } => None,
            ItemKind::Command { path, args } => {
                let mut out: Vec<String> = Vec::new();
                let mut i: usize = 0;
                while i < args.len()
                    invariant
                        i <= args.len(),
                        views(out@) == views(args@.subrange(0, i as int)),
                    decreases args.len() - i,
                {
                    let c = args[i].clone();
                    assert(c@ == args@[i as int]@);
                    let ghost before = out@;
                    out.push(c);
                    assert(out@ == before.push(c));
                    assert(views(out@) =~= views(before).push(c@));
                    assert(views(args@.subrange(0, i + 1)) =~= views(args@.subrange(0, i as int)).push(
                        args@[i as int]@,
                    ));
                    i = i + 1;
                }
                assert(args@.subrange(0, i as int) =~= args@);
                Some((path.clone(), out))
            },
            ItemKind::Shell { script } => {
                let dash_c = "-c".to_owned();
                proof {
                    reveal_strlit("-c");
                }
                assert(dash_c@ =~= seq!['-', 'c']);
                let sc = script.clone();
                assert(sc@ == script@);
                let args = vec![dash_c, sc];
                assert(args@.len() == 2);
                assert(views(args@) =~= seq![seq!['-', 'c'], script@]);
                Some((shell.to_owned(), args))
            },
        }
    }
}

impl Item {
    /// What one tick publishes, given what its source gave: a failed
    /// collection publishes nothing, text is digested into a result.
    pub fn on_collected(&self, outcome: Result<String, ExecError>) -> (r: Option<ItemResult>)
        ensures
            match outcome {
                Err(_) => r is None,
                Ok(raw) => r is Some && r->0.key@ == self.key@ && r->0.raw@ == trimmed(raw@)
                    && r->0.values.wf() && r->0.values@ == digest_values(
                    self.digest,
                    raw@,
                    self.key@,
                ),
            },
    {
        match outcome {
            Err(_) => None,
            Ok(raw) => Some(self.digest.digest(raw.as_str(), self.key.as_str())),
        }
    }
}

/// The fixed-period schedule of one item, counted in whole seconds from its
/// start: tick `n` is due at `n * interval`, the first one after one interval.
#[derive(Clone, Copy, Debug)]
pub struct Schedule {
    pub interval: u64,
    /// The index of the next tick.
    pub next: u64,
}

/// The index of the tick that follows tick `n` when that tick's work ends at
/// `now`: the next one on time, or, when that one is already late, the last
/// tick due by `now`, run at once; missed ticks are not made up.
pub open spec fn next_tick(n: int, interval: int, now: int) -> int {
    if now / interval > n + 1 {
        now / interval
    } else {
        n + 1
    }
}

/// The tick reached from tick `n` when the work of each following tick ends
/// at the times `ends`, in order.
pub open spec fn ticks_after(n: int, interval: int, ends: Seq<int>) -> int
    decreases ends.len(),
{
    if ends.len() == 0 {
        n
    } else {
        ticks_after(next_tick(n, interval, ends[0]), interval, ends.drop_first())
    }
}

impl Schedule {
    pub fn new(interval: u64) -> (r: Schedule)
        requires
            interval > 0,
        ensures
            r.interval == interval,
            r.next == 1,
    {
        Schedule { interval, next: 1 }
    }

    /// When the next tick is due, in seconds from the start; `None` beyond
    /// what a `u64` holds.
    pub fn deadline(&self) -> (r: Option<u64>)
        ensures
            match r {
                Some(t) => t == self.next * self.interval,
                None => self.next * self.interval > u64::MAX,
            },
    {
        self.next.checked_mul(self.interval)
    }

    /// Moves on once the current tick's work has ended at `now`.
    pub fn complete(&mut self, now: u64)
        requires
            old(self).interval > 0,
            old(self).next < u64::MAX,
        ensures
            final(self).interval == old(self).interval,
            final(self).next == next_tick(old(self).next as int, old(self).interval as int, now as int),
    {
        let late = now / self.interval;
        if late > self.next + 1 {
            self.next = late;
        } else {
            self.next = self.next + 1;
        }
    }
}

/// Ticks never repeat: the tick after tick `n` has a larger index.
pub proof fn lemma_ticks_increase(n: int, interval: int, now: int)
    requires
        interval > 0,
        now >= 0,
    ensures
        next_tick(n, interval, now) > n,
{
}

/// A tick whose work ends before the next one is due is followed by that
/// next one.
pub proof fn lemma_on_time(n: int, interval: int, now: int)
    requires
        interval > 0,
        n >= 0,
        0 <= now < (n + 1) * interval,
    ensures
        next_tick(n, interval, now) == n + 1,
{
    vstd::arithmetic::div_mod::lemma_div_is_ordered(now, (n + 1) * interval, interval);
    vstd::arithmetic::div_mod::lemma_div_by_multiple(n + 1, interval);
}

/// One tick per interval: while the work of every tick ends before the next
/// tick is due, the ticks after tick `n` are `n + 1`, `n + 2`, ..., each due
/// one interval after the one before, none skipped and none repeated.
pub proof fn lemma_one_tick_per_interval(n: int, interval: int, ends: Seq<int>)
    requires
        interval > 0,
        n >= 0,
        forall|j: int| 0 <= j < ends.len() ==> 0 <= #[trigger] ends[j] < (n + j + 1) * interval,
    ensures
        ticks_after(n, interval, ends) == n + ends.len(),
    decreases ends.len(),
{
    if ends.len() > 0 {
        assert(0 <= ends[0] < (n + 0 + 1) * interval);
        lemma_on_time(n, interval, ends[0]);
        let rest = ends.drop_first();
        assert forall|j: int| 0 <= j < rest.len() implies 0 <= #[trigger] rest[j] < ((n + 1) + j + 1)
            * interval by {
            assert(rest[j] == ends[j + 1]);
            assert(0 <= ends[j + 1] < (n + (j + 1) + 1) * interval);
        }
        lemma_one_tick_per_interval(n + 1, interval, rest);
    }
}

} // verus!
