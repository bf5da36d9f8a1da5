//! Reachability probe results and how the machine list shows them.

use vstd::prelude::*;
use std::collections::HashMap;
use crate::machine::Machine;
use crate::text::{dec, push_dec, push_str, string_of};

verus! {

broadcast use vstd::std_specs::hash::group_hash_axioms;

/// Seconds a probe waits for the TCP connection.
pub const PROBE_TIMEOUT_SECS: u64 = 2;
/// Probes run at the same time by default.
pub const DEFAULT_WORKERS: usize = 8;
/// Number of dots in the probing animation.
pub const PROBE_DOTS: usize = 5;
/// Milliseconds each animation frame lasts.
pub const PROBE_FRAME_MS: u64 = 150;

/// Outcome of probing one machine.
#[derive(Debug, Clone, Copy, PartialEq, Eq, Structural)]
pub enum ProbeStatus {
    /// The login port accepted a TCP connection (OK).
    Reachable,
    /// The port could not be reached in time.
    Down,
    /// Not probed yet.
    Unknown,
}

/// A probe's outcome and, when it succeeded, how long the connection took.
#[derive(Debug, Clone, Copy, PartialEq, Eq, Structural)]
pub struct ProbeResult {
    pub status: ProbeStatus,
    pub latency_ms: Option<u64>,
}

impl ProbeResult {
    /// A successful probe that took `latency_ms` milliseconds.
    pub fn ok(latency_ms: u64) -> (r: ProbeResult)
        ensures
            r.status == ProbeStatus::Reachable,
            r.latency_ms == Some(latency_ms),
    {
        ProbeResult { status: ProbeStatus::Reachable, latency_ms: Some(latency_ms) }
    }

    /// An unreachable machine.
    pub fn down() -> (r: ProbeResult)
        ensures
            r.status == ProbeStatus::Down,
            r.latency_ms is None,
    {
        ProbeResult { status: ProbeStatus::Down, latency_ms: None }
    }

    /// A machine not probed yet.
    pub fn unknown() -> (r: ProbeResult)
        ensures
            r.status == ProbeStatus::Unknown,
            r.latency_ms is None,
    {
        ProbeResult { status: ProbeStatus::Unknown, latency_ms: None }
    }
}

/// Worker threads for probing `jobs` machines with `workers` requested:
/// at least one, and no more than there are machines.
pub open spec fn worker_count(workers: nat, jobs: nat) -> nat {
    let w: nat = if workers < 1 { 1 } else { workers };
    let j: nat = if jobs < 1 { 1 } else { jobs };
    if w < j { w } else { j }
}

/// The number of probe workers to start.
pub fn probe_workers(workers: usize, jobs: usize) -> (r: usize)
    ensures
        r as nat == worker_count(workers as nat, jobs as nat),
        r >= 1,
{
    let w = if workers < 1 { 1 } else { workers };
    let j = if jobs < 1 { 1 } else { jobs };
    if w < j { w } else { j }
}

/// Colour of a probe cell.
#[derive(Debug, Clone, Copy, PartialEq, Eq, Structural)]
pub enum CellColor {
    Green,
    Yellow,
    Red,
    DarkGray,
}

/// Text and colour of the status cell for a machine whose probe result is
/// `result`, while probing is `done` or not, in animation frame `phase`.
pub open spec fn cell_spec(result: Option<ProbeResult>, done: bool, phase: nat) -> (Seq<char>, CellColor) {
    match result {
        Some(r) => if r.status == ProbeStatus::Reachable {
            let ms: nat = match r.latency_ms { Some(m) => m as nat, None => 0 };
            let color = if ms < 100 { CellColor::Green } else if ms < 500 { CellColor::Yellow } else { CellColor::Red };
            ("● "@ + dec(ms) + "ms"@, color)
        } else {
            ("● down"@, CellColor::Red)
        },
        None => if !done {
            (Seq::new(PROBE_DOTS as nat, |i: int| if i == phase % (PROBE_DOTS as nat) { '▪' } else { '▫' }), CellColor::DarkGray)
        } else {
            ("·"@, CellColor::DarkGray)
        },
    }
}

/// Coarse result of a whole probe round, for choosing the summary's style.
#[derive(Debug, Clone, Copy, PartialEq, Eq, Structural)]
pub enum SummaryLevel {
    Probing,
    Empty,
    AllOk,
    Partial,
    /// Probing finished and no machine was reachable.
    NoneReachable,
}

/// Machines among `ms` whose result in `results` has status `st`.
pub open spec fn count_status(ms: Seq<Machine>, results: Map<i64, ProbeResult>, st: ProbeStatus) -> nat
    decreases ms.len(),
{
    if ms.len() == 0 {
        0
    } else {
        count_status(ms.drop_last(), results, st) + if results.contains_key(ms.last().id)
            && results[ms.last().id].status == st { 1nat } else { 0nat }
    }
}

/// The bottom-bar summary of a probe round over `ms`.
pub open spec fn summary_spec(ms: Seq<Machine>, results: Map<i64, ProbeResult>, done: bool) -> (Seq<char>, SummaryLevel) {
    let total = ms.len();
    let ok = count_status(ms, results, ProbeStatus::Reachable);
    let down = count_status(ms, results, ProbeStatus::Down);
    if !done {
        ("探测中…"@, SummaryLevel::Probing)
    } else if total == 0 {
        ("0/0 可达"@, SummaryLevel::Empty)
    } else {
        (dec(ok) + seq!['/'] + dec(total) + " 可达 · "@ + dec(down) + " 不可达 · "@
            + dec((total - ok - down) as nat) + " 未测"@,
        if ok == total { SummaryLevel::AllOk } else if ok > 0 { SummaryLevel::Partial } else { SummaryLevel::NoneReachable })
    }
}

/// The machines counted as reachable and those counted as down never
/// outnumber the machines, so the summary's unprobed count is what remains.
pub proof fn law_probe_counts_fit(ms: Seq<Machine>, results: Map<i64, ProbeResult>)
    ensures
        count_status(ms, results, ProbeStatus::Reachable) + count_status(ms, results, ProbeStatus::Down) <= ms.len(),
    decreases ms.len(),
{
    if ms.len() > 0 {
        law_probe_counts_fit(ms.drop_last(), results);
    }
}

/// Probe results collected so far, by machine id.
pub struct ProbeResults {
    pub results: HashMap<i64, ProbeResult>,
}

impl ProbeResults {
    /// No results yet.
    pub fn new() -> (r: ProbeResults)
        ensures
            r.results@ == Map::<i64, ProbeResult>::empty(),
    {
        ProbeResults { results: HashMap::new() }
    }

    /// Forgets every result.
    pub fn clear(&mut self)
        ensures
            final(self).results@ == Map::<i64, ProbeResult>::empty(),
    {
        self.results.clear();
    }

    /// Records the result for machine `id`, replacing any earlier one.
    pub fn record(&mut self, id: i64, result: ProbeResult)
        ensures
            final(self).results@ == old(self).results@.insert(id, result),
    {
        self.results.insert(id, result);
    }

    /// The status cell for machine `id`.
    pub fn cell_for(&self, id: i64, done: bool, phase: usize) -> (r: (String, CellColor))
        ensures
            (r.0@, r.1) == cell_spec(if self.results@.contains_key(id) { Some(self.results@[id]) } else { None },
                done, phase as nat),
    {
        let mut out: Vec<char> = Vec::new();
        match self.results.get(&id) {
            Some(r) => {
                if r.status == ProbeStatus::Reachable {
                    let ms: u64 = match r.latency_ms { Some(m) => m, None => 0 };
                    let color = if ms < 100 { CellColor::Green } else if ms < 500 { CellColor::Yellow } else { CellColor::Red };
                    push_str(&mut out, "● ");
                    push_dec(&mut out, ms as u128);
                    push_str(&mut out, "ms");
                    (string_of(&out), color)
                } else {
                    push_str(&mut out, "● down");
                    (string_of(&out), CellColor::Red)
                }
            },
            None => {
                if !done {
                    let lit = phase % PROBE_DOTS;
                    let mut i: usize = 0;
                    while i < PROBE_DOTS
                        invariant
                            i <= PROBE_DOTS,
                            lit == phase % PROBE_DOTS,
                            out@ == Seq::new(i as nat, |j: int| if j == (phase as nat) % (PROBE_DOTS as nat) { '▪' } else { '▫' }),
                        decreases PROBE_DOTS - i,
                    {
                        out.push(if i == lit { '▪' } else { '▫' });
                        i = i + 1;
                        assert(out@ =~= Seq::new(i as nat, |j: int| if j == (phase as nat) % (PROBE_DOTS as nat) { '▪' } else { '▫' }));
                    }
                    (string_of(&out), CellColor::DarkGray)
                } else {
                    push_str(&mut out, "·");
                    (string_of(&out), CellColor::DarkGray)
                }
            },
        }
    }

    fn count(&self, ms: &Vec<Machine>, st: ProbeStatus) -> (r: usize)
        ensures
            r as nat == count_status(ms@, self.results@, st),
    {
        let mut n: usize = 0;
        let mut i: usize = 0;
        while i < ms.len()
            invariant
                i <= ms@.len(),
                n as nat == count_status(ms@.take(i as int), self.results@, st),
                n <= i,
            decreases ms@.len() - i,
        {
            assert(ms@.take(i as int + 1).drop_last() =~= ms@.take(i as int));
            match self.results.get(&ms[i].id) {
                Some(r) => {
                    if r.status == st {
                        n = n + 1;
                    }
                },
                None => {},
            }
            i = i + 1;
        }
        assert(ms@.take(ms@.len() as int) =~= ms@);
        n
    }

    /// The bottom-bar summary for the machines `ms`: reachable, unreachable
    /// and unprobed counts once probing is done.
    pub fn summary(&self, ms: &Vec<Machine>, done: bool) -> (r: (String, SummaryLevel))
        ensures
            (r.0@, r.1) == summary_spec(ms@, self.results@, done),
    {
        let mut out: Vec<char> = Vec::new();
        let total = ms.len();
        if !done {
            push_str(&mut out, "探测中…");
            return (string_of(&out), SummaryLevel::Probing);
        }
        if total == 0 {
            push_str(&mut out, "0/0 可达");
            return (string_of(&out), SummaryLevel::Empty);
        }
        let ok = self.count(ms, ProbeStatus::Reachable);
        let down = self.count(ms, ProbeStatus::Down);
        proof { law_probe_counts_fit(ms@, self.results@); }
        let unprobed = total - ok - down;
        push_dec(&mut out, ok as u128);
        out.push('/');
        push_dec(&mut out, total as u128);
        push_str(&mut out, " 可达 · ");
        push_dec(&mut out, down as u128);
        push_str(&mut out, " 不可达 · ");
        push_dec(&mut out, unprobed as u128);
        push_str(&mut out, " 未测");
        let level = if ok == total { SummaryLevel::AllOk } else if ok > 0 { SummaryLevel::Partial } else { SummaryLevel::NoneReachable };
        (string_of(&out), level)
    }
}

} // verus!
