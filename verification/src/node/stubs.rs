//! Components with nothing to do: there is no leader schedule and no PoH
//! timing; any node that mines or mints a valid block produces it.

use vstd::prelude::*;

verus! {

/// Leader notifications: there are no leader slots, so nothing is notified.
#[derive(Clone, Copy, Debug)]
pub struct LeaderBankNotifier;

impl LeaderBankNotifier {
    /// A notifier.
    pub fn new() -> (n: Self) {
        LeaderBankNotifier
    }

    /// No-op: there is no leader slot.
    pub fn set_in_leader_slot(&self, _in_leader: bool) {
    }

    /// Always false: there is no concept of a leader.
    pub fn is_in_leader_slot(&self) -> (r: bool)
        ensures
            !r,
    {
        false
    }
}

/// The PoH service: nothing runs.
#[derive(Debug)]
pub struct PohService;

impl PohService {
    /// Does nothing; all arguments are ignored.
    pub fn new<T>(_poh_recorder: T, _hashes_per_batch: u64) -> (s: Self) {
        PohService
    }
}

/// The PoH timing reporter: nothing is reported.
#[derive(Debug)]
pub struct PohTimingReporter;

impl PohTimingReporter {
    /// A reporter.
    pub fn new() -> (r: Self) {
        PohTimingReporter
    }

    /// No-op; always false: PoH timing is not tracked.
    pub fn process_poh_timing_point(&mut self, _slot: u64, _poh_timing_point: ()) -> (r: bool)
        ensures
            !r,
    {
        false
    }
}

/// No-op PoH timing report service.
#[derive(Debug)]
pub struct PohTimingReportService;

impl PohTimingReportService {
    /// Does nothing.
    pub fn new() -> (s: Self) {
        PohTimingReportService
    }
}

/// What to do with a buffered packet.
#[derive(Clone, Copy, Debug, PartialEq, Eq)]
pub enum BufferedPacketsDecision {
    Consume,
    Forward,
    Drop,
}

/// Packet decisions: every node may produce blocks.
#[derive(Debug)]
pub struct DecisionMaker;

/// Validation unit settings.
#[derive(Clone, Copy, Debug)]
pub struct TvuConfig {
    pub max_ledger_shreds: Option<u64>,
    pub shred_version: u16,
}

impl TvuConfig {
    /// No shred limit, shred version zero.
    pub fn new() -> (c: Self)
        ensures
            c.max_ledger_shreds is None,
            c.shred_version == 0,
    {
        TvuConfig { max_ledger_shreds: None, shred_version: 0 }
    }
}

} // verus!
