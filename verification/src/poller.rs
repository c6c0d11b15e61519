use vstd::prelude::*;
use vstd::string::*;

use crate::node::Node;
use crate::params::ConnectionParameters;
use crate::status::ExecutionAttempt;
use crate::status::format_status;
use crate::status::spec_status_line;

verus! {

/// Relies on chrono's `Local::now` and `DateTime::to_rfc3339_opts`: the
/// current local time rendered in RFC3339 form with seconds precision. The
/// writer always emits the 19-character `YYYY-MM-DDTHH:MM:SS` date-time and
/// an offset of at least one character (`Z` or `+HH:MM`), drawn from digits
/// and `-T:+Z` only — so the result has at least 20 characters and holds no
/// newline and no carriage return. `Local::now` aborts the process if the
/// machine clock is set before the Unix epoch.
#[verifier::external_body]
fn current_timestamp() -> (r: String)
    ensures
        r@.len() >= 20,
        forall|i: int| 0 <= i < r@.len() ==> r@[i] != '\n' && r@[i] != '\r',
{
    chrono::Local::now().to_rfc3339_opts(chrono::SecondsFormat::Secs, true)
}

/// Drives one target's polling lifecycle: each tick classifies one attempt
/// outcome into a status line and advances the attempt counter. A poller
/// owns its parameters exclusively; no two pollers share any state.
#[derive(Debug)]
pub struct Poller {
    pub target: Node,
    pub command: String,
    pub params: ConnectionParameters,
    pub interval_secs: u64,
    pub ticks: u64,
}

impl Poller {
    /// A poller only ever exists for a pollable target.
    pub open spec fn well_formed(self) -> bool {
        self.params.well_formed()
    }

    /// A fresh poller for one target, with its attempt counter at zero.
    pub fn new(
        target: Node,
        command: String,
        params: ConnectionParameters,
        interval_secs: u64,
    ) -> (r: Poller)
        requires
            params.well_formed(),
        ensures
            r.target == target,
            r.command == command,
            r.params == params,
            r.interval_secs == interval_secs,
            r.ticks == 0,
            r.well_formed(),
    {
        Poller { target, command, params, interval_secs, ticks: 0 }
    }

    /// One tick: produces exactly one status line from the attempt outcome
    /// and the timestamp captured at tick start, and advances the attempt
    /// counter by exactly one — for a failed attempt exactly as for a
    /// successful one. Nothing else about the poller changes.
    pub fn process_tick(&mut self, timestamp: &str, attempt: &ExecutionAttempt) -> (line: String)
        requires
            old(self).ticks < u64::MAX,
        ensures
            line@ == spec_status_line(timestamp@, *attempt),
            final(self).ticks == old(self).ticks + 1,
            final(self).target == old(self).target,
            final(self).command == old(self).command,
            final(self).params == old(self).params,
            final(self).interval_secs == old(self).interval_secs,
    {
        let line = format_status(timestamp, attempt);
        self.ticks = self.ticks + 1;
        line
    }

}

/// Captures the wall-clock timestamp at a tick boundary, before the attempt
/// begins, so that every line reported for the tick carries the same prefix
/// however long the attempt takes. Whatever moment the clock reads, the
/// rendered timestamp carries at least the full 20-character RFC3339
/// date-time and never spans more than one line.
pub fn capture_tick_timestamp() -> (r: String)
    ensures
        r@.len() >= 20,
        forall|i: int| 0 <= i < r@.len() ==> r@[i] != '\n' && r@[i] != '\r',
{
    current_timestamp()
}

/// Fans out one poller per target, in order: each poller owns its own
/// parameters, starts at tick zero, and runs the same command at the same
/// interval. No target shares a poller with another.
pub fn make_pollers(
    command: &String,
    entries: Vec<(Node, ConnectionParameters)>,
    interval_secs: u64,
) -> (r: Vec<Poller>)
    requires
        forall|i: int| 0 <= i < entries@.len() ==> (#[trigger] entries@[i]).1.well_formed(),
    ensures
        r@.len() == entries@.len(),
        forall|i: int|
            0 <= i < entries@.len() ==> {
                &&& (#[trigger] r@[i]).target == entries@[i].0
                &&& r@[i].params == entries@[i].1
                &&& r@[i].command == *command
                &&& r@[i].interval_secs == interval_secs
                &&& r@[i].ticks == 0
                &&& r@[i].well_formed()
            },
{
    let ghost orig = entries@;
    let mut entries = entries;
    let mut r: Vec<Poller> = Vec::new();
    while entries.len() > 0
        invariant
            orig.len() == r@.len() + entries@.len(),
            entries@ == orig.subrange(r@.len() as int, orig.len() as int),
            forall|i: int| 0 <= i < orig.len() ==> (#[trigger] orig[i]).1.well_formed(),
            forall|i: int|
                0 <= i < r@.len() ==> {
                    &&& (#[trigger] r@[i]).target == orig[i].0
                    &&& r@[i].params == orig[i].1
                    &&& r@[i].command == *command
                    &&& r@[i].interval_secs == interval_secs
                    &&& r@[i].ticks == 0
                    &&& r@[i].well_formed()
                },
        decreases entries@.len(),
    {
        proof {
            assert(entries@[0] == orig[r@.len() as int]);
        }
        let (target, params) = entries.remove(0);
        let p = Poller::new(target, command.clone(), params, interval_secs);
        r.push(p);
        proof {
            assert(entries@ =~= orig.subrange(r@.len() as int, orig.len() as int));
        }
    }
    r
}

} // verus!
