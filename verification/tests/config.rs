use epson_watchdog::config::Config;

#[test]
fn default_settings() {
    let c = Config::default();
    assert_eq!(c.printer_name, "EPSON_L3150_Series");
    assert_eq!(c.mdns_instance_name, "EPSON L3150 Series");
    assert_eq!(c.mdns_hostname, "");
    assert_eq!(c.poll_interval_secs, 30);
    assert_eq!(c.enable_delay_secs, 3);
    assert_eq!(c.plist_path, "");
}

#[test]
fn config_path_under_home() {
    assert_eq!(
        Config::config_path("/Users/anna"),
        "/Users/anna/.config/epson-watchdog/config.toml"
    );
    assert_eq!(
        Config::config_path("/Users/anna/"),
        "/Users/anna/.config/epson-watchdog/config.toml"
    );
    assert_eq!(Config::config_path(""), ".config/epson-watchdog/config.toml");
}

#[test]
fn status_report_lists_settings() {
    let c = Config {
        printer_name: "Q".to_string(),
        mdns_instance_name: "EPSON L3150 Series".to_string(),
        mdns_hostname: "h.local.".to_string(),
        poll_interval_secs: 1205,
        enable_delay_secs: 3,
        plist_path: "/p".to_string(),
    };
    assert_eq!(
        c.status_report(),
        "Watchdog config:\n  printer_name:       Q\n  mdns_instance_name: EPSON L3150 Series\n  mdns_hostname:      h.local.\n  poll_interval_secs: 1205\n  plist_path:         /p\n"
    );
}

#[test]
fn status_report_prints_numbers_in_decimal() {
    let mut c = Config::default();
    for n in [0u64, 7, 10, 30, 99, 100, u64::MAX] {
        c.poll_interval_secs = n;
        assert!(c.status_report().contains(&format!("  poll_interval_secs: {}\n", n)));
    }
}
