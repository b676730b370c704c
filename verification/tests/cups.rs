use epson_watchdog::cups::{
    accepting_from_lpstat, device_uri_from_lpstat, parse_lpstat_output, ppd_model_from_lpinfo,
    printer_state_from_lpstat, CupsCommand, PrinterState,
};

#[test]
fn test_parse_enabled_idle() {
    let output = "printer EPSON_L3150_Series is idle.  enabled since Wed Mar  4 10:26:09 2026\n";
    assert_eq!(
        parse_lpstat_output(output, "EPSON_L3150_Series"),
        PrinterState::EnabledIdle
    );
}

#[test]
fn test_parse_disabled() {
    let output =
        "printer EPSON_L3150_Series disabled since Wed Mar  4 10:00:00 2026 -\n\treason unknown\n";
    let state = parse_lpstat_output(output, "EPSON_L3150_Series");
    assert!(matches!(state, PrinterState::Disabled { .. }));
}

#[test]
fn test_parse_printing() {
    let output = "printer EPSON_L3150_Series is printing.  enabled since Wed Mar  4 10:00:00 2026\n";
    assert_eq!(
        parse_lpstat_output(output, "EPSON_L3150_Series"),
        PrinterState::EnabledPrinting
    );
}

#[test]
fn test_parse_not_found() {
    let output = "printer OTHER_PRINTER is idle.\n";
    assert_eq!(
        parse_lpstat_output(output, "EPSON_L3150_Series"),
        PrinterState::NotFound
    );
}

#[test]
fn parse_disabled_reads_reason_after_tab() {
    let output = "printer EPSON_L3150_Series disabled since Wed Mar  4 10:00:00 2026 -\n\tPaused by user\n";
    assert_eq!(
        parse_lpstat_output(output, "EPSON_L3150_Series"),
        PrinterState::Disabled { reason: "Paused by user".to_string() }
    );
}

#[test]
fn parse_disabled_without_tab_has_unknown_reason() {
    let output = "printer EPSON_L3150_Series disabled since Wed Mar  4 10:00:00 2026 -\nno tab here\n";
    assert_eq!(
        parse_lpstat_output(output, "EPSON_L3150_Series"),
        PrinterState::Disabled { reason: "reason unknown".to_string() }
    );
}

#[test]
fn parse_disabled_as_last_line_has_unknown_reason() {
    let output = "printer EPSON_L3150_Series disabled since Wed Mar  4 10:00:00 2026 -";
    assert_eq!(
        parse_lpstat_output(output, "EPSON_L3150_Series"),
        PrinterState::Disabled { reason: "reason unknown".to_string() }
    );
}

#[test]
fn parse_stopped_queue_is_disabled() {
    let output = "printer EPSON_L3150_Series is stopped.\n\tUnplugged\n";
    assert_eq!(
        parse_lpstat_output(output, "EPSON_L3150_Series"),
        PrinterState::Disabled { reason: "Unplugged".to_string() }
    );
}

#[test]
fn parse_reason_comes_from_first_stopped_line_of_output() {
    let output = "printer OTHER is stopped.\n\tOther reason\nprinter EPSON_L3150_Series disabled since x -\n\tMine\n";
    assert_eq!(
        parse_lpstat_output(output, "EPSON_L3150_Series"),
        PrinterState::Disabled { reason: "Other reason".to_string() }
    );
}

#[test]
fn parse_handles_crlf_lines() {
    let output = "printer OTHER is idle.\r\nprinter EPSON_L3150_Series is printing.\r\n";
    assert_eq!(
        parse_lpstat_output(output, "EPSON_L3150_Series"),
        PrinterState::EnabledPrinting
    );
}

#[test]
fn parse_uses_first_matching_line() {
    let output = "printer EPSON_L3150_Series is idle.\nprinter EPSON_L3150_Series is printing.\n";
    assert_eq!(
        parse_lpstat_output(output, "EPSON_L3150_Series"),
        PrinterState::EnabledIdle
    );
}

#[test]
fn parse_empty_output_is_not_found() {
    assert_eq!(parse_lpstat_output("", "EPSON_L3150_Series"), PrinterState::NotFound);
}

#[test]
fn failed_lpstat_means_not_found() {
    let output = "printer EPSON_L3150_Series is idle.\n";
    assert_eq!(
        printer_state_from_lpstat(false, output, "EPSON_L3150_Series"),
        PrinterState::NotFound
    );
    assert_eq!(
        printer_state_from_lpstat(true, output, "EPSON_L3150_Series"),
        PrinterState::EnabledIdle
    );
}

#[test]
fn accepting_requires_phrase() {
    assert!(accepting_from_lpstat(
        "EPSON_L3150_Series accepting requests since Wed Mar  4 10:26:09 2026\n"
    ));
    // the phrase also occurs in "not accepting requests", which counts as accepting
    assert!(accepting_from_lpstat(
        "EPSON_L3150_Series not accepting requests since Wed Mar  4 10:26:09 2026 -\n"
    ));
    assert!(!accepting_from_lpstat("EPSON_L3150_Series rejecting\n"));
    assert!(!accepting_from_lpstat(""));
}

#[test]
fn device_uri_is_read_and_trimmed() {
    let out = "device for OTHER: ipp://x\ndevice for EPSON_L3150_Series: dnssd://EPSON%20L3150%20Series._pdl-datastream._tcp.local./?bidi  \n";
    assert_eq!(
        device_uri_from_lpstat(true, out, "EPSON_L3150_Series"),
        Some("dnssd://EPSON%20L3150%20Series._pdl-datastream._tcp.local./?bidi".to_string())
    );
}

#[test]
fn device_uri_missing_or_failed() {
    let out = "device for OTHER: ipp://x\n";
    assert_eq!(device_uri_from_lpstat(true, out, "EPSON_L3150_Series"), None);
    let out = "device for EPSON_L3150_Series: usb://x\n";
    assert_eq!(device_uri_from_lpstat(false, out, "EPSON_L3150_Series"), None);
}

#[test]
fn device_uri_skips_line_without_separator() {
    let out = "device for EPSON_L3150_Series:nothing\ndevice for EPSON_L3150_Series: usb://y\n";
    assert_eq!(
        device_uri_from_lpstat(true, out, "EPSON_L3150_Series"),
        Some("usb://y".to_string())
    );
}

#[test]
fn device_uri_keeps_later_separators() {
    let out = "device for P: socket://10.0.0.5: 9100\n";
    assert_eq!(device_uri_from_lpstat(true, out, "P"), Some("socket://10.0.0.5: 9100".to_string()));
}

#[test]
fn ppd_model_skips_everywhere() {
    let out = "everywhere IPP Everywhere\nepson-l3150.ppd EPSON L3150 Series\n";
    assert_eq!(ppd_model_from_lpinfo(out), Some("epson-l3150.ppd".to_string()));
}

#[test]
fn ppd_model_none_when_nothing_specific() {
    assert_eq!(ppd_model_from_lpinfo("everywhere IPP Everywhere\n"), None);
    assert_eq!(ppd_model_from_lpinfo("noseparator\n"), None);
    assert_eq!(ppd_model_from_lpinfo(""), None);
    assert_eq!(ppd_model_from_lpinfo(" leading space\n"), None);
}

#[test]
fn ppd_model_is_trimmed() {
    assert_eq!(ppd_model_from_lpinfo("\tdrv:///x.ppd Some model\n"), Some("drv:///x.ppd".to_string()));
}

#[test]
fn command_lines_match_cups_tools() {
    assert_eq!(
        CupsCommand::Enable("Q".to_string()).command_line(),
        vec!["cupsenable", "Q"]
    );
    assert_eq!(
        CupsCommand::AddPrinter {
            printer_name: "Q".to_string(),
            device_uri: "dnssd://x".to_string(),
            ppd_model: "everywhere".to_string(),
            display_name: "EPSON L3150 Series".to_string(),
        }
        .command_line(),
        vec!["lpadmin", "-p", "Q", "-E", "-v", "dnssd://x", "-m", "everywhere", "-D", "EPSON L3150 Series"]
    );
    assert_eq!(CupsCommand::QueryState("Q".to_string()).command_line(), vec!["lpstat", "-p", "Q"]);
    assert_eq!(CupsCommand::QueryAccepting("Q".to_string()).command_line(), vec!["lpstat", "-a", "Q"]);
    assert_eq!(CupsCommand::QueryDeviceUri("Q".to_string()).command_line(), vec!["lpstat", "-v", "Q"]);
    assert_eq!(
        CupsCommand::FindPpd("EPSON L3150".to_string()).command_line(),
        vec!["lpinfo", "--make-and-model", "EPSON L3150", "-m"]
    );
    assert_eq!(CupsCommand::Accept("Q".to_string()).command_line(), vec!["cupsaccept", "Q"]);
    assert_eq!(CupsCommand::RemovePrinter("Q".to_string()).command_line(), vec!["lpadmin", "-x", "Q"]);
    assert_eq!(CupsCommand::SetDefault("Q".to_string()).command_line(), vec!["lpadmin", "-d", "Q"]);
    assert_eq!(CupsCommand::Status.command_line(), vec!["lpstat", "-p", "-d", "-v", "-a"]);
}

#[test]
fn change_commands_fail_exactly_on_failed_exit() {
    assert_eq!(
        CupsCommand::Enable("Q".to_string()).outcome(false, "no such queue"),
        Err("cupsenable failed: no such queue".to_string())
    );
    assert_eq!(CupsCommand::Enable("Q".to_string()).outcome(true, "ignored"), Ok(()));
    assert_eq!(
        CupsCommand::Accept("Q".to_string()).outcome(false, "e"),
        Err("cupsaccept failed: e".to_string())
    );
    let add = CupsCommand::AddPrinter {
        printer_name: "Q".to_string(),
        device_uri: "u".to_string(),
        ppd_model: "m".to_string(),
        display_name: "d".to_string(),
    };
    assert_eq!(add.outcome(false, "bad ppd"), Err("lpadmin add failed: bad ppd".to_string()));
    assert_eq!(add.outcome(true, ""), Ok(()));
    assert_eq!(
        CupsCommand::RemovePrinter("Q".to_string()).outcome(false, "x"),
        Err("lpadmin remove failed: x".to_string())
    );
    assert_eq!(
        CupsCommand::SetDefault("Q".to_string()).outcome(false, "x"),
        Err("lpadmin set-default failed: x".to_string())
    );
    assert_eq!(CupsCommand::QueryState("Q".to_string()).outcome(false, "x"), Ok(()));
}

#[test]
fn run_contexts_name_the_tool() {
    assert_eq!(CupsCommand::QueryState("Q".to_string()).run_context(), "Failed to run lpstat");
    assert_eq!(CupsCommand::QueryAccepting("Q".to_string()).run_context(), "Failed to run lpstat -a");
    assert_eq!(CupsCommand::QueryDeviceUri("Q".to_string()).run_context(), "Failed to run lpstat -v");
    assert_eq!(CupsCommand::FindPpd("M".to_string()).run_context(), "Failed to run lpinfo");
    assert_eq!(CupsCommand::Enable("Q".to_string()).run_context(), "Failed to run cupsenable");
    assert_eq!(CupsCommand::Accept("Q".to_string()).run_context(), "Failed to run cupsaccept");
    assert_eq!(CupsCommand::RemovePrinter("Q".to_string()).run_context(), "Failed to run lpadmin -x");
    assert_eq!(CupsCommand::SetDefault("Q".to_string()).run_context(), "Failed to run lpadmin -d");
    assert_eq!(CupsCommand::Status.run_context(), "Failed to run lpstat");
}
