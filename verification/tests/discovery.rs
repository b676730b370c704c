use epson_watchdog::discovery::{
    browse_failed_message, not_found_message,
    extract_addresses, instance_from_fullname, PrinterInfo, PrinterSearch, SearchAction,
    SearchEvent, SearchMode, SearchOutcome, ServiceRecord,
};

fn types() -> Vec<String> {
    vec!["_pdl-datastream._tcp.local.".to_string(), "_ipp._tcp.local.".to_string()]
}

fn record(fullname: &str) -> ServiceRecord {
    ServiceRecord {
        fullname: fullname.to_string(),
        hostname: "EPSON-L3150-Series.local.".to_string(),
        port: 9100,
        addresses: vec![0xC0A8_0105],
    }
}

fn browse_of(a: &SearchAction) -> Option<String> {
    match a {
        SearchAction::Browse(t) => Some(t.clone()),
        _ => None,
    }
}

#[test]
fn instance_name_from_fullname() {
    assert_eq!(
        instance_from_fullname("EPSON L3150 Series._pdl-datastream._tcp.local."),
        "EPSON L3150 Series"
    );
    assert_eq!(instance_from_fullname("host.local."), "host");
    assert_eq!(instance_from_fullname("plain"), "plain");
    assert_eq!(instance_from_fullname("a.b._ipp._tcp"), "a.b");
}

#[test]
fn dnssd_uri_encodes_spaces() {
    let info = PrinterInfo {
        instance_name: "EPSON L3150 Series".to_string(),
        hostname: String::new(),
        port: 0,
        addresses: vec![],
        service_type: String::new(),
    };
    assert_eq!(
        info.dnssd_uri(),
        "dnssd://EPSON%20L3150%20Series._pdl-datastream._tcp.local./?bidi"
    );
}

#[test]
fn addresses_are_sorted() {
    assert_eq!(extract_addresses(vec![3, 1, 2, 1]), vec![1, 1, 2, 3]);
    assert_eq!(extract_addresses(vec![]), Vec::<u32>::new());
    assert_eq!(
        extract_addresses(vec![0xC0A8_0105, 0x0A00_0001]),
        vec![0x0A00_0001, 0xC0A8_0105]
    );
}

#[test]
fn discover_finds_matching_service_ignoring_case() {
    let (mut s, a) = PrinterSearch::new(types(), "epson", SearchMode::Discover);
    assert_eq!(browse_of(&a), Some("_pdl-datastream._tcp.local.".to_string()));
    assert!(matches!(s.step(SearchEvent::BrowseStarted), SearchAction::Receive));
    assert!(matches!(
        s.step(SearchEvent::Resolved(record("Brother HL._pdl-datastream._tcp.local."))),
        SearchAction::Receive
    ));
    assert!(matches!(s.step(SearchEvent::OtherEvent), SearchAction::Receive));
    match s.step(SearchEvent::Resolved(record("EPSON L3150 Series._pdl-datastream._tcp.local."))) {
        SearchAction::StopBrowse(t) => assert_eq!(t, "_pdl-datastream._tcp.local."),
        other => panic!("unexpected {:?}", other),
    }
    match s.step(SearchEvent::Stopped) {
        SearchAction::Finish(SearchOutcome::Found(info)) => {
            assert_eq!(info.instance_name, "EPSON L3150 Series");
            assert_eq!(info.hostname, "EPSON-L3150-Series.local.");
            assert_eq!(info.port, 9100);
            assert_eq!(info.addresses, vec![0xC0A8_0105]);
            assert_eq!(info.service_type, "_pdl-datastream._tcp.local.");
        }
        other => panic!("unexpected {:?}", other),
    }
}

#[test]
fn discover_moves_on_then_gives_up() {
    let (mut s, _) = PrinterSearch::new(types(), "EPSON", SearchMode::Discover);
    s.step(SearchEvent::BrowseStarted);
    assert!(matches!(s.step(SearchEvent::Ended), SearchAction::StopBrowse(_)));
    let a = s.step(SearchEvent::Stopped);
    assert_eq!(browse_of(&a), Some("_ipp._tcp.local.".to_string()));
    s.step(SearchEvent::BrowseStarted);
    s.step(SearchEvent::Ended);
    assert!(matches!(
        s.step(SearchEvent::Stopped),
        SearchAction::Finish(SearchOutcome::NotFound)
    ));
}

#[test]
fn discover_fails_when_browse_fails() {
    let (mut s, _) = PrinterSearch::new(types(), "EPSON", SearchMode::Discover);
    match s.step(SearchEvent::BrowseFailed) {
        SearchAction::Finish(SearchOutcome::BrowseFailed(t)) => {
            assert_eq!(t, "_pdl-datastream._tcp.local.")
        }
        other => panic!("unexpected {:?}", other),
    }
}

#[test]
fn presence_skips_type_that_cannot_be_browsed() {
    let (mut s, _) = PrinterSearch::new(types(), "EPSON L3150 Series", SearchMode::Presence);
    let a = s.step(SearchEvent::BrowseFailed);
    assert_eq!(browse_of(&a), Some("_ipp._tcp.local.".to_string()));
    s.step(SearchEvent::BrowseStarted);
    s.step(SearchEvent::Resolved(record("EPSON L3150 Series._ipp._tcp.local.")));
    match s.step(SearchEvent::Stopped) {
        SearchAction::Finish(SearchOutcome::Found(info)) => {
            assert_eq!(info.service_type, "_ipp._tcp.local.")
        }
        other => panic!("unexpected {:?}", other),
    }
}

#[test]
fn presence_with_every_type_failing_is_not_found() {
    let (mut s, _) = PrinterSearch::new(types(), "EPSON", SearchMode::Presence);
    s.step(SearchEvent::BrowseFailed);
    assert!(matches!(
        s.step(SearchEvent::BrowseFailed),
        SearchAction::Finish(SearchOutcome::NotFound)
    ));
}

#[test]
fn search_without_types_is_not_found() {
    let (_, a) = PrinterSearch::new(vec![], "EPSON", SearchMode::Discover);
    assert!(matches!(a, SearchAction::Finish(SearchOutcome::NotFound)));
}

#[test]
fn out_of_step_events_are_ignored() {
    let (mut s, _) = PrinterSearch::new(types(), "EPSON", SearchMode::Discover);
    assert!(matches!(s.step(SearchEvent::Stopped), SearchAction::Ignored));
    assert!(matches!(s.step(SearchEvent::BrowseStarted), SearchAction::Receive));
}

#[test]
fn empty_filter_matches_any_service() {
    let (mut s, _) = PrinterSearch::new(types(), "", SearchMode::Presence);
    s.step(SearchEvent::BrowseStarted);
    assert!(matches!(
        s.step(SearchEvent::Resolved(record("anything._ipp._tcp.local."))),
        SearchAction::StopBrowse(_)
    ));
}

#[test]
fn discovery_error_texts() {
    assert_eq!(
        not_found_message("EPSON", 20),
        "Printer matching 'EPSON' not found after 20s. Is it powered on and on Wi-Fi?"
    );
    assert_eq!(
        not_found_message("x", 0),
        "Printer matching 'x' not found after 0s. Is it powered on and on Wi-Fi?"
    );
    assert_eq!(
        browse_failed_message("_ipp._tcp.local.", "socket error"),
        "Failed to browse _ipp._tcp.local.: socket error"
    );
}

fn run_events(mode: SearchMode) -> Vec<String> {
    let (mut s, first) = PrinterSearch::new(types(), "EPSON", mode);
    let mut seen = vec![format!("{:?}", first)];
    let events = vec![
        SearchEvent::BrowseStarted,
        SearchEvent::Resolved(record("Other._pdl-datastream._tcp.local.")),
        SearchEvent::Ended,
        SearchEvent::Stopped,
        SearchEvent::BrowseStarted,
        SearchEvent::Resolved(record("EPSON L3150 Series._ipp._tcp.local.")),
        SearchEvent::Stopped,
    ];
    for e in events {
        seen.push(format!("{:?}", s.step(e)));
    }
    seen
}

#[test]
fn presence_and_discovery_agree_when_browses_start() {
    let d = run_events(SearchMode::Discover);
    assert_eq!(d, run_events(SearchMode::Presence));
    assert!(d.last().unwrap().contains("Found"));
}
