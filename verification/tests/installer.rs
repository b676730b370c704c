use epson_watchdog::cups::PrinterState;
use epson_watchdog::discovery::PrinterInfo;
use epson_watchdog::installer::{
    extract_instance_from_dnssd_uri, generate_plist, launch_agents_dir, launchd_plist_path,
    log_dir_path, InstallAction, InstallError, InstallEvent, Installer, UninstallAction,
    UninstallEvent, Uninstaller,
};

fn original_plist(binary_path: &str, log_dir: &str) -> String {
    format!(
        r#"<?xml version="1.0" encoding="UTF-8"?>
<!DOCTYPE plist PUBLIC "-//Apple//DTD PLIST 1.0//EN" "http://www.apple.com/DTDs/PropertyList-1.0.dtd">
<plist version="1.0">
<dict>
    <key>Label</key>
    <string>com.epson.l3150.watchdog</string>

    <key>ProgramArguments</key>
    <array>
        <string>{binary_path}</string>
        <string>run</string>
    </array>

    <key>RunAtLoad</key>
    <true/>

    <key>KeepAlive</key>
    <dict>
        <key>SuccessfulExit</key>
        <false/>
    </dict>

    <key>ThrottleInterval</key>
    <integer>30</integer>

    <key>StandardOutPath</key>
    <string>{log_dir}/epson-watchdog.log</string>

    <key>StandardErrorPath</key>
    <string>{log_dir}/epson-watchdog.log</string>

    <key>EnvironmentVariables</key>
    <dict>
        <key>RUST_LOG</key>
        <string>info</string>
    </dict>
</dict>
</plist>
"#,
        binary_path = binary_path,
        log_dir = log_dir
    )
}

#[test]
fn plist_matches_template() {
    let b = "/Users/anna/.cargo/bin/epson-watchdog";
    let l = "/Users/anna/Library/Logs/epson-watchdog";
    assert_eq!(generate_plist(b, l), original_plist(b, l));
    assert_eq!(generate_plist("", ""), original_plist("", ""));
}

#[test]
fn paths_under_home() {
    assert_eq!(
        launchd_plist_path("/Users/anna"),
        "/Users/anna/Library/LaunchAgents/com.epson.l3150.watchdog.plist"
    );
    assert_eq!(log_dir_path("/Users/anna"), "/Users/anna/Library/Logs/epson-watchdog");
    assert_eq!(launch_agents_dir("/Users/anna/"), "/Users/anna/Library/LaunchAgents");
}

#[test]
fn instance_from_dnssd_uri() {
    assert_eq!(
        extract_instance_from_dnssd_uri(
            "dnssd://EPSON%20L3150%20Series._pdl-datastream._tcp.local./?bidi"
        ),
        Some("EPSON L3150 Series".to_string())
    );
    assert_eq!(extract_instance_from_dnssd_uri("ipp://10.0.0.5/ipp/print"), None);
    assert_eq!(
        extract_instance_from_dnssd_uri("dnssd://Printer.local"),
        Some("Printer".to_string())
    );
    assert_eq!(extract_instance_from_dnssd_uri("dnssd://"), Some(String::new()));
}

#[test]
fn dnssd_uri_round_trip() {
    for name in ["EPSON L3150 Series", "plain", " lead and trail ", "a.b", "100% sure"] {
        let info = PrinterInfo {
            instance_name: name.to_string(),
            hostname: String::new(),
            port: 0,
            addresses: vec![],
            service_type: String::new(),
        };
        assert_eq!(extract_instance_from_dnssd_uri(&info.dnssd_uri()), Some(name.to_string()));
    }
}

fn info() -> PrinterInfo {
    PrinterInfo {
        instance_name: "EPSON L3150 Series".to_string(),
        hostname: "EPSON-L3150-Series.local.".to_string(),
        port: 9100,
        addresses: vec![0xC0A8_0105],
        service_type: "_pdl-datastream._tcp.local.".to_string(),
    }
}

#[test]
fn install_by_discovery_registers_missing_queue() {
    let (mut i, a) = Installer::new("Q", 20, false);
    assert!(matches!(a, InstallAction::LocateBinary));
    match i.step(InstallEvent::BinaryLocated("/bin/w".to_string())) {
        InstallAction::Discover { service_types, filter, timeout_secs } => {
            assert_eq!(service_types.len(), 2);
            assert_eq!(filter, "EPSON");
            assert_eq!(timeout_secs, 20);
        }
        other => panic!("unexpected {:?}", other),
    }
    assert!(matches!(i.step(InstallEvent::Discovered(info())), InstallAction::QueryPrinterState(_)));
    match i.step(InstallEvent::PrinterStateIs(PrinterState::NotFound)) {
        InstallAction::FindPpd(m) => assert_eq!(m, "EPSON L3150"),
        other => panic!("unexpected {:?}", other),
    }
    match i.step(InstallEvent::PpdModel(None)) {
        InstallAction::AddPrinter { printer_name, device_uri, ppd_model, display_name } => {
            assert_eq!(printer_name, "Q");
            assert_eq!(
                device_uri,
                "dnssd://EPSON%20L3150%20Series._pdl-datastream._tcp.local./?bidi"
            );
            assert_eq!(ppd_model, "everywhere");
            assert_eq!(display_name, "EPSON L3150 Series");
        }
        other => panic!("unexpected {:?}", other),
    }
    assert!(matches!(i.step(InstallEvent::Completed), InstallAction::SetDefault(_)));
    assert!(matches!(i.step(InstallEvent::Completed), InstallAction::LocateHome));
    match i.step(InstallEvent::HomeIs("/Users/anna".to_string())) {
        InstallAction::SaveConfig { config, path } => {
            assert_eq!(path, "/Users/anna/.config/epson-watchdog/config.toml");
            assert_eq!(config.printer_name, "Q");
            assert_eq!(config.mdns_instance_name, "EPSON L3150 Series");
            assert_eq!(config.mdns_hostname, "EPSON-L3150-Series.local.");
            assert_eq!(config.poll_interval_secs, 30);
            assert_eq!(config.enable_delay_secs, 3);
            assert_eq!(
                config.plist_path,
                "/Users/anna/Library/LaunchAgents/com.epson.l3150.watchdog.plist"
            );
        }
        other => panic!("unexpected {:?}", other),
    }
    match i.step(InstallEvent::Completed) {
        InstallAction::WriteAgent { log_dir, agents_dir, plist_path, plist } => {
            assert_eq!(log_dir, "/Users/anna/Library/Logs/epson-watchdog");
            assert_eq!(agents_dir, "/Users/anna/Library/LaunchAgents");
            assert_eq!(plist_path, "/Users/anna/Library/LaunchAgents/com.epson.l3150.watchdog.plist");
            assert_eq!(plist, original_plist("/bin/w", "/Users/anna/Library/Logs/epson-watchdog"));
        }
        other => panic!("unexpected {:?}", other),
    }
    assert!(matches!(i.step(InstallEvent::Completed), InstallAction::LoadAgent(_)));
    match i.step(InstallEvent::AgentLoaded(true)) {
        InstallAction::Done(d) => assert_eq!(d, "/Users/anna/Library/Logs/epson-watchdog"),
        other => panic!("unexpected {:?}", other),
    }
}

#[test]
fn install_keeps_queue_already_in_cups() {
    let (mut i, _) = Installer::new("Q", 20, false);
    i.step(InstallEvent::BinaryLocated("/bin/w".to_string()));
    i.step(InstallEvent::Discovered(info()));
    assert!(matches!(
        i.step(InstallEvent::PrinterStateIs(PrinterState::EnabledIdle)),
        InstallAction::LocateHome
    ));
}

#[test]
fn install_uses_offered_ppd() {
    let (mut i, _) = Installer::new("Q", 20, false);
    i.step(InstallEvent::BinaryLocated("/bin/w".to_string()));
    i.step(InstallEvent::Discovered(info()));
    i.step(InstallEvent::PrinterStateIs(PrinterState::NotFound));
    match i.step(InstallEvent::PpdModel(Some("epson.ppd".to_string()))) {
        InstallAction::AddPrinter { ppd_model, .. } => assert_eq!(ppd_model, "epson.ppd"),
        other => panic!("unexpected {:?}", other),
    }
}

#[test]
fn install_existing_reads_instance_from_uri() {
    let (mut i, _) = Installer::new("Q", 20, true);
    match i.step(InstallEvent::BinaryLocated("/bin/w".to_string())) {
        InstallAction::QueryDeviceUri(p) => assert_eq!(p, "Q"),
        other => panic!("unexpected {:?}", other),
    }
    let uri = "dnssd://My%20Printer._ipp._tcp.local./?bidi".to_string();
    assert!(matches!(i.step(InstallEvent::DeviceUri(Some(uri))), InstallAction::LocateHome));
    match i.step(InstallEvent::HomeIs("/h".to_string())) {
        InstallAction::SaveConfig { config, .. } => {
            assert_eq!(config.mdns_instance_name, "My Printer");
            assert_eq!(config.mdns_hostname, "");
        }
        other => panic!("unexpected {:?}", other),
    }
}

#[test]
fn install_existing_falls_back_for_other_uri() {
    let (mut i, _) = Installer::new("Q", 20, true);
    i.step(InstallEvent::BinaryLocated("/bin/w".to_string()));
    i.step(InstallEvent::DeviceUri(Some("usb://EPSON/L3150".to_string())));
    match i.step(InstallEvent::HomeIs("/h".to_string())) {
        InstallAction::SaveConfig { config, .. } => {
            assert_eq!(config.mdns_instance_name, "EPSON L3150 Series")
        }
        other => panic!("unexpected {:?}", other),
    }
}

#[test]
fn install_existing_fails_without_queue() {
    let (mut i, _) = Installer::new("Q", 20, true);
    i.step(InstallEvent::BinaryLocated("/bin/w".to_string()));
    match i.step(InstallEvent::DeviceUri(None)) {
        InstallAction::Fail(e) => assert_eq!(
            e.message(),
            "Printer 'Q' not found in CUPS. Remove --use-existing flag."
        ),
        other => panic!("unexpected {:?}", other),
    }
}

#[test]
fn install_fails_when_launchctl_fails() {
    let (mut i, _) = Installer::new("Q", 20, true);
    i.step(InstallEvent::BinaryLocated("/bin/w".to_string()));
    i.step(InstallEvent::DeviceUri(Some("dnssd://P._ipp._tcp.local.".to_string())));
    i.step(InstallEvent::HomeIs("/h".to_string()));
    i.step(InstallEvent::Completed);
    i.step(InstallEvent::Completed);
    match i.step(InstallEvent::AgentLoaded(false)) {
        InstallAction::Fail(e) => {
            assert!(matches!(e, InstallError::LoadFailed(_)));
            assert_eq!(
                e.message(),
                "launchctl load failed. Try manually:\n  launchctl load -w /h/Library/LaunchAgents/com.epson.l3150.watchdog.plist"
            );
        }
        other => panic!("unexpected {:?}", other),
    }
}

#[test]
fn install_ignores_out_of_step_events() {
    let (mut i, _) = Installer::new("Q", 20, true);
    assert!(matches!(i.step(InstallEvent::Completed), InstallAction::Ignored));
}

#[test]
fn uninstall_with_queue_removal() {
    let (mut u, a) = Uninstaller::new(true);
    assert!(matches!(a, UninstallAction::LocateHome));
    match u.step(UninstallEvent::HomeIs("/h".to_string())) {
        UninstallAction::CheckAgent(p) => {
            assert_eq!(p, "/h/Library/LaunchAgents/com.epson.l3150.watchdog.plist")
        }
        other => panic!("unexpected {:?}", other),
    }
    assert!(matches!(u.step(UninstallEvent::AgentPresent(true)), UninstallAction::UnloadAgent(_)));
    assert!(matches!(u.step(UninstallEvent::Completed), UninstallAction::RemoveAgent(_)));
    assert!(matches!(u.step(UninstallEvent::Completed), UninstallAction::LoadConfig));
    match u.step(UninstallEvent::ConfigLoaded(Some("Q".to_string()))) {
        UninstallAction::RemovePrinter(n) => assert_eq!(n, "Q"),
        other => panic!("unexpected {:?}", other),
    }
    match u.step(UninstallEvent::Completed) {
        UninstallAction::CheckConfig(p) => {
            assert_eq!(p, "/h/.config/epson-watchdog/config.toml")
        }
        other => panic!("unexpected {:?}", other),
    }
    assert!(matches!(u.step(UninstallEvent::ConfigPresent(true)), UninstallAction::RemoveConfig(_)));
    assert!(matches!(u.step(UninstallEvent::Completed), UninstallAction::Done));
}

#[test]
fn uninstall_keeps_queue_by_default() {
    let (mut u, _) = Uninstaller::new(false);
    u.step(UninstallEvent::HomeIs("/h".to_string()));
    assert!(matches!(u.step(UninstallEvent::AgentPresent(false)), UninstallAction::CheckConfig(_)));
    assert!(matches!(u.step(UninstallEvent::ConfigPresent(false)), UninstallAction::Done));
}

#[test]
fn uninstall_skips_queue_without_settings() {
    let (mut u, _) = Uninstaller::new(true);
    u.step(UninstallEvent::HomeIs("/h".to_string()));
    u.step(UninstallEvent::AgentPresent(false));
    assert!(matches!(
        u.step(UninstallEvent::ConfigLoaded(None)),
        UninstallAction::CheckConfig(_)
    ));
}

#[test]
fn uninstall_without_agent_runs_no_tool() {
    let (mut u, first) = Uninstaller::new(false);
    let mut actions = vec![format!("{:?}", first)];
    for e in [
        UninstallEvent::HomeIs("/h".to_string()),
        UninstallEvent::AgentPresent(false),
        UninstallEvent::ConfigPresent(false),
    ] {
        actions.push(format!("{:?}", u.step(e)));
    }
    assert!(actions.iter().all(|a| !a.contains("UnloadAgent")
        && !a.contains("RemoveAgent")
        && !a.contains("LoadConfig")
        && !a.contains("RemovePrinter")));
    assert!(actions.last().unwrap().contains("Done"));
}
