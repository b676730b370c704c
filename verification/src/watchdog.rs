//! The watchdog's state machine: from what one poll observed to what it does.

use vstd::prelude::*;
use crate::config::Config;
use crate::cups::PrinterState;
use vstd::string::StringExecFns;

verus! {

/// What the watchdog believes of the printer between two polls.
#[derive(Debug, PartialEq, Eq, Structural, Clone, Copy)]
pub enum WatchState {
    Online,
    Offline,
    Recovering,
}

/// What one poll saw; `None` where a query could not be made.
#[derive(Debug)]
pub struct Observation {
    /// Whether the printer answered on mDNS
    pub online: Option<bool>,
    /// The queue state that `lpstat -p` reported
    pub cups_state: Option<PrinterState>,
    /// Whether `lpstat -a` reported that the queue accepts jobs
    pub accepting: Option<bool>,
}

/// What the watchdog does after one poll.
#[derive(Debug, PartialEq, Eq, Structural, Clone, Copy)]
pub struct TickPlan {
    /// The state for the next poll
    pub next: WatchState,
    /// Whether to run `cupsenable`
    pub enable: bool,
    /// Whether to run `cupsaccept`
    pub accept: bool,
    /// Seconds to wait before running the commands, if any
    pub enable_delay_secs: u64,
    /// Seconds to sleep before the next poll
    pub poll_secs: u64,
}

/// The printer is on the network; a failed check counts as not.
pub open spec fn is_online(obs: &Observation) -> bool {
    obs.online == Some(true)
}

/// The queue is disabled and needs `cupsenable`; a failed query counts as a
/// missing queue, which needs nothing.
pub open spec fn needs_enable(obs: &Observation) -> bool {
    obs.cups_state matches Some(PrinterState::Disabled { .. })
}

/// The queue rejects jobs and needs `cupsaccept`; a failed query counts as
/// rejecting.
pub open spec fn needs_accept(obs: &Observation) -> bool {
    obs.accepting != Some(true)
}

/// The state machine of the watchdog:
/// the printer on the network with a healthy queue is `Online`, with a queue
/// that needs repair `Recovering`, and off the network `Offline`.
pub open spec fn next_watch_state(
    state: WatchState,
    online: bool,
    enable: bool,
    accept: bool,
) -> WatchState {
    match (state, online) {
        (_, true) => if enable || accept {
            WatchState::Recovering
        } else {
            WatchState::Online
        },
        (WatchState::Online, false) => WatchState::Offline,
        (_, false) => WatchState::Offline,
    }
}

/// A poll that observed `obs` runs `cupsenable` exactly when `enable` and
/// `cupsaccept` exactly when `accept`.
pub open spec fn tick_runs(obs: &Observation, enable: bool, accept: bool) -> bool {
    &&& enable == (is_online(obs) && needs_enable(obs))
    &&& accept == (is_online(obs) && (needs_enable(obs) || needs_accept(obs)))
}

/// One poll of the watchdog: from the state before it and what it observed,
/// the commands to run and the state after it.
pub fn watch_tick(state: WatchState, obs: &Observation, config: &Config) -> (plan: TickPlan)
    ensures
        plan.next == next_watch_state(state, is_online(obs), needs_enable(obs), needs_accept(obs)),
        tick_runs(obs, plan.enable, plan.accept),
        plan.enable_delay_secs == config.enable_delay_secs,
        plan.poll_secs == config.poll_interval_secs,
{
    let online = match obs.online {
        Some(b) => b,
        None => false,
    };
    let enable = match &obs.cups_state {
        Some(PrinterState::Disabled { .. }) => true,
        _ => false,
    };
    let accept = match obs.accepting {
        Some(b) => !b,
        None => true,
    };
    let (next, run_enable, run_accept) = if online {
        if enable || accept {
            (WatchState::Recovering, enable, true)
        } else {
            (WatchState::Online, false, false)
        }
    } else {
        match state {
            WatchState::Online => (WatchState::Offline, false, false),
            _ => (WatchState::Offline, false, false),
        }
    };
    TickPlan {
        next,
        enable: run_enable,
        accept: run_accept,
        enable_delay_secs: config.enable_delay_secs,
        poll_secs: config.poll_interval_secs,
    }
}

/// Seconds one mDNS presence check of the watchdog may take.
pub const MDNS_CHECK_TIMEOUT_SECS: u64 = 8;

/// The mDNS service types under which the printer is looked for, in the
/// order they are tried: the printer's raw-print service first, IPP second.
pub open spec fn printer_service_type_views() -> Seq<Seq<char>> {
    seq!["_pdl-datastream._tcp.local."@, "_ipp._tcp.local."@]
}

/// The mDNS service types under which the printer is looked for.
pub fn printer_service_types() -> (r: Vec<String>)
    ensures
        r@.map_values(|s: String| s@) == printer_service_type_views(),
{
    let mut r: Vec<String> = Vec::new();
    r.push(String::from_str("_pdl-datastream._tcp.local."));
    r.push(String::from_str("_ipp._tcp.local."));
    assert(r@.map_values(|s: String| s@) == printer_service_type_views());
    r
}

// ───────────────────────────── laws ─────────────────────────────

/// The state before a poll never changes the outcome of the poll: the next
/// state depends only on what was observed.
pub proof fn lemma_next_state_ignores_previous(
    s1: WatchState,
    s2: WatchState,
    online: bool,
    enable: bool,
    accept: bool,
)
    ensures
        next_watch_state(s1, online, enable, accept) == next_watch_state(s2, online, enable, accept),
{
}

/// Whenever the printer is not seen on the network the watchdog is
/// `Offline`, whatever it believed before, and it runs no command.
pub proof fn lemma_offline_when_unseen(state: WatchState, obs: &Observation)
    requires
        !is_online(obs),
    ensures
        next_watch_state(state, is_online(obs), needs_enable(obs), needs_accept(obs))
            == WatchState::Offline,
{
}

/// A printer on the network whose queue is disabled or rejects jobs is
/// repaired: the watchdog enters `Recovering`, a disabled queue gets both
/// `cupsenable` and `cupsaccept`, a queue that only rejects jobs gets
/// `cupsaccept`; a healthy queue is `Online` with no command.
pub proof fn lemma_repair_disabled_queue(state: WatchState, obs: &Observation)
    requires
        is_online(obs),
    ensures
        needs_enable(obs) ==> tick_runs(obs, true, true),
        (!needs_enable(obs) && needs_accept(obs)) ==> tick_runs(obs, false, true),
        !(needs_enable(obs) || needs_accept(obs)) ==> tick_runs(obs, false, false),
        (needs_enable(obs) || needs_accept(obs)) ==> next_watch_state(
            state,
            true,
            needs_enable(obs),
            needs_accept(obs),
        ) == WatchState::Recovering,
        !(needs_enable(obs) || needs_accept(obs)) ==> next_watch_state(
            state,
            true,
            needs_enable(obs),
            needs_accept(obs),
        ) == WatchState::Online,
{
}

} // verus!
