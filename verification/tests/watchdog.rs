use epson_watchdog::config::Config;
use epson_watchdog::cups::PrinterState;
use epson_watchdog::watchdog::{printer_service_types, watch_tick, Observation, WatchState};

fn obs(online: bool, state: PrinterState, accepting: bool) -> Observation {
    Observation { online: Some(online), cups_state: Some(state), accepting: Some(accepting) }
}

fn disabled() -> PrinterState {
    PrinterState::Disabled { reason: "reason unknown".to_string() }
}

#[test]
fn healthy_printer_is_online_without_commands() {
    let c = Config::default();
    let p = watch_tick(WatchState::Offline, &obs(true, PrinterState::EnabledIdle, true), &c);
    assert_eq!(p.next, WatchState::Online);
    assert!(!p.enable && !p.accept);
    assert_eq!(p.poll_secs, 30);
}

#[test]
fn disabled_queue_is_enabled_and_accepted() {
    let c = Config::default();
    let p = watch_tick(WatchState::Online, &obs(true, disabled(), false), &c);
    assert_eq!(p.next, WatchState::Recovering);
    assert!(p.enable && p.accept);
    assert_eq!(p.enable_delay_secs, 3);
}

#[test]
fn disabled_queue_gets_both_commands_even_when_accepting() {
    let c = Config::default();
    let p = watch_tick(WatchState::Offline, &obs(true, disabled(), true), &c);
    assert!(p.enable && p.accept);
    assert_eq!(p.next, WatchState::Recovering);
}

#[test]
fn rejecting_queue_gets_only_cupsaccept() {
    let c = Config::default();
    let p = watch_tick(WatchState::Offline, &obs(true, PrinterState::EnabledPrinting, false), &c);
    assert!(!p.enable && p.accept);
    assert_eq!(p.next, WatchState::Recovering);
}

#[test]
fn unseen_printer_is_offline_from_every_state() {
    let c = Config::default();
    for s in [WatchState::Online, WatchState::Offline, WatchState::Recovering] {
        let p = watch_tick(s, &obs(false, disabled(), false), &c);
        assert_eq!(p.next, WatchState::Offline);
        assert!(!p.enable && !p.accept);
    }
}

#[test]
fn failed_queries_count_as_missing_queue_and_rejecting() {
    let c = Config::default();
    let o = Observation { online: Some(true), cups_state: None, accepting: None };
    let p = watch_tick(WatchState::Online, &o, &c);
    assert!(!p.enable && p.accept);
    let o = Observation { online: None, cups_state: None, accepting: None };
    assert_eq!(watch_tick(WatchState::Online, &o, &c).next, WatchState::Offline);
}

#[test]
fn previous_state_does_not_change_outcome() {
    let c = Config::default();
    let a = watch_tick(WatchState::Online, &obs(true, disabled(), true), &c);
    let b = watch_tick(WatchState::Recovering, &obs(true, disabled(), true), &c);
    assert_eq!(a, b);
}

#[test]
fn configured_delays_are_used() {
    let mut c = Config::default();
    c.poll_interval_secs = 5;
    c.enable_delay_secs = 11;
    let p = watch_tick(WatchState::Online, &obs(true, disabled(), true), &c);
    assert_eq!(p.poll_secs, 5);
    assert_eq!(p.enable_delay_secs, 11);
}

#[test]
fn service_types_in_order() {
    assert_eq!(
        printer_service_types(),
        vec!["_pdl-datastream._tcp.local.".to_string(), "_ipp._tcp.local.".to_string()]
    );
}
