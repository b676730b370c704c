//! The installer: where its files go, what it writes, and the plans of
//! installing and uninstalling the watchdog.

use vstd::prelude::*;
use vstd::string::StringExecFns;
use crate::config::{join_path, join_path_exec, Config, ConfigView, config_path_of};
use crate::cups::{PrinterState, PrinterStateView};
use crate::discovery::{
    dnssd_uri_of, instance_part, instance_part_len, PrinterInfo, PrinterInfoView,
};
use crate::watchdog::{printer_service_types, printer_service_type_views};
use crate::text::{
    chars_between, chars_of, contains, find, find_from, occurs_at, opt_view, replace, replace_exec,
    starts_with, starts_with_exec,
};

verus! {

/// Where launchd agents live under the home directory `home`.
pub open spec fn launch_agents_dir_of(home: Seq<char>) -> Seq<char> {
    join_path(join_path(home, "Library"@), "LaunchAgents"@)
}

/// Where the watchdog's launchd plist lives under the home directory `home`.
pub open spec fn launchd_plist_path_of(home: Seq<char>) -> Seq<char> {
    join_path(launch_agents_dir_of(home), "com.epson.l3150.watchdog.plist"@)
}

/// Where the watchdog writes its log under the home directory `home`.
pub open spec fn log_dir_path_of(home: Seq<char>) -> Seq<char> {
    join_path(join_path(join_path(home, "Library"@), "Logs"@), "epson-watchdog"@)
}

/// The directory of launchd agents under the home directory `home`.
pub fn launch_agents_dir(home: &str) -> (r: String)
    ensures
        r@ == launch_agents_dir_of(home@),
{
    let a = join_path_exec(home, "Library");
    join_path_exec(a.as_str(), "LaunchAgents")
}

/// The path of the watchdog's launchd plist under the home directory `home`.
pub fn launchd_plist_path(home: &str) -> (r: String)
    ensures
        r@ == launchd_plist_path_of(home@),
{
    let d = launch_agents_dir(home);
    join_path_exec(d.as_str(), "com.epson.l3150.watchdog.plist")
}

/// The watchdog's log directory under the home directory `home`.
pub fn log_dir_path(home: &str) -> (r: String)
    ensures
        r@ == log_dir_path_of(home@),
{
    let a = join_path_exec(home, "Library");
    let b = join_path_exec(a.as_str(), "Logs");
    join_path_exec(b.as_str(), "epson-watchdog")
}

/// The launchd agent definition that runs `<binary_path> run` at login,
/// restarts it when it fails, and logs to `<log_dir>/epson-watchdog.log`.
pub open spec fn plist_text(binary_path: Seq<char>, log_dir: Seq<char>) -> Seq<char> {
    "<?xml version=\"1.0\" encoding=\"UTF-8\"?>\n<!DOCTYPE plist PUBLIC \"-//Apple//DTD PLIST 1.0//EN\" \"http://www.apple.com/DTDs/PropertyList-1.0.dtd\">\n<plist version=\"1.0\">\n<dict>\n    <key>Label</key>\n    <string>com.epson.l3150.watchdog</string>\n\n    <key>ProgramArguments</key>\n    <array>\n        <string>"@ + binary_path
        + "</string>\n        <string>run</string>\n    </array>\n\n    <key>RunAtLoad</key>\n    <true/>\n\n    <key>KeepAlive</key>\n    <dict>\n        <key>SuccessfulExit</key>\n        <false/>\n    </dict>\n\n    <key>ThrottleInterval</key>\n    <integer>30</integer>\n\n    <key>StandardOutPath</key>\n    <string>"@ + log_dir
        + "/epson-watchdog.log</string>\n\n    <key>StandardErrorPath</key>\n    <string>"@ + log_dir
        + "/epson-watchdog.log</string>\n\n    <key>EnvironmentVariables</key>\n    <dict>\n        <key>RUST_LOG</key>\n        <string>info</string>\n    </dict>\n</dict>\n</plist>\n"@
}

/// The launchd plist for the watchdog binary at `binary_path` logging into
/// `log_dir`.
pub fn generate_plist(binary_path: &str, log_dir: &str) -> (r: String)
    ensures
        r@ == plist_text(binary_path@, log_dir@),
{
    let mut r = String::from_str("<?xml version=\"1.0\" encoding=\"UTF-8\"?>\n<!DOCTYPE plist PUBLIC \"-//Apple//DTD PLIST 1.0//EN\" \"http://www.apple.com/DTDs/PropertyList-1.0.dtd\">\n<plist version=\"1.0\">\n<dict>\n    <key>Label</key>\n    <string>com.epson.l3150.watchdog</string>\n\n    <key>ProgramArguments</key>\n    <array>\n        <string>");
    r.append(binary_path);
    r.append("</string>\n        <string>run</string>\n    </array>\n\n    <key>RunAtLoad</key>\n    <true/>\n\n    <key>KeepAlive</key>\n    <dict>\n        <key>SuccessfulExit</key>\n        <false/>\n    </dict>\n\n    <key>ThrottleInterval</key>\n    <integer>30</integer>\n\n    <key>StandardOutPath</key>\n    <string>");
    r.append(log_dir);
    r.append("/epson-watchdog.log</string>\n\n    <key>StandardErrorPath</key>\n    <string>");
    r.append(log_dir);
    r.append("/epson-watchdog.log</string>\n\n    <key>EnvironmentVariables</key>\n    <dict>\n        <key>RUST_LOG</key>\n        <string>info</string>\n    </dict>\n</dict>\n</plist>\n");
    r
}

/// The instance name encoded in a `dnssd://` URI: the instance part after
/// the scheme, with "%20" decoded to spaces; `None` without that scheme.
pub open spec fn instance_of_dnssd_uri(uri: Seq<char>) -> Option<Seq<char>> {
    if starts_with_scheme(uri) {
        Some(replace(instance_part(uri.skip(8)), "%20"@, " "@))
    } else {
        None
    }
}

/// `uri` begins with "dnssd://".
pub open spec fn starts_with_scheme(uri: Seq<char>) -> bool {
    starts_with(uri, "dnssd://"@)
}

/// The mDNS instance name from a CUPS `dnssd://` device URI.
/// "dnssd://EPSON%20L3150%20Series._pdl-datastream._tcp.local./?bidi" →
/// "EPSON L3150 Series"
pub fn extract_instance_from_dnssd_uri(uri: &str) -> (r: Option<String>)
    ensures
        opt_view(r) == instance_of_dnssd_uri(uri@),
{
    let s = chars_of(uri);
    let scheme = chars_of("dnssd://");
    proof {
        reveal_strlit("dnssd://");
    }
    if !starts_with_exec(&s, &scheme) {
        return None;
    }
    let rest = chars_between(&s, 8, s.len());
    assert(rest@ == uri@.skip(8));
    let n = instance_part_len(&rest);
    let part = chars_between(&rest, 0, n);
    assert(part@ == rest@.take(n as int));
    let pct = chars_of("%20");
    proof {
        reveal_strlit("%20");
    }
    Some(replace_exec(&part, &pct, " "))
}





// ───────────────────────────── the device URI round trip ─────────────────────────────

/// The URI-encoding of an instance name: spaces become "%20".
pub open spec fn encode_instance(n: Seq<char>) -> Seq<char> {
    replace(n, seq![' '], "%20"@)
}

/// The decoding of an encoded instance name: "%20" becomes a space.
pub open spec fn decode_instance(s: Seq<char>) -> Seq<char> {
    replace(s, "%20"@, " "@)
}

proof fn lemma_literals()
    ensures
        "%20"@ == seq!['%', '2', '0'],
        " "@ == seq![' '],
        "._"@ == seq!['.', '_'],
        "dnssd://"@.len() == 8,
        "._pdl-datastream._tcp.local./?bidi"@.len() >= 2,
        "._pdl-datastream._tcp.local./?bidi"@[0] == '.',
        "._pdl-datastream._tcp.local./?bidi"@[1] == '_',
{
    reveal_strlit("%20");
    reveal_strlit(" ");
    reveal_strlit("._");
    reveal_strlit("dnssd://");
    reveal_strlit("._pdl-datastream._tcp.local./?bidi");
    assert("%20"@ == seq!['%', '2', '0']);
    assert(" "@ == seq![' ']);
    assert("._"@ == seq!['.', '_']);
}

/// One step of encoding: the first character, then the rest.
proof fn lemma_encode_first(n: Seq<char>)
    requires
        n.len() > 0,
    ensures
        encode_instance(n) == (if n[0] == ' ' {
            "%20"@
        } else {
            seq![n[0]]
        }) + encode_instance(n.drop_first()),
        encode_instance(n).len() > 0,
        encode_instance(n)[0] == (if n[0] == ' ' {
            '%'
        } else {
            n[0]
        }),
{
    lemma_literals();
    if n[0] == ' ' {
        assert(n.take(1) == seq![' ']);
        assert(n.skip(1) == n.drop_first());
    } else {
        assert(n.take(1) != seq![' ']) by {
            assert(n.take(1)[0] == n[0]);
        }
    }
}

/// The encoding of the empty name is empty.
proof fn lemma_encode_empty(n: Seq<char>)
    requires
        n.len() == 0,
    ensures
        encode_instance(n).len() == 0,
{
}

/// A pattern in the tail of a sequence is in the sequence.
proof fn lemma_contains_tail(n: Seq<char>, p: Seq<char>)
    requires
        n.len() > 0,
        contains(n.drop_first(), p),
    ensures
        contains(n, p),
{
    let k = choose|k: int| occurs_at(n.drop_first(), p, k);
    assert(n.subrange(k + 1, k + 1 + p.len()) == n.drop_first().subrange(k, k + p.len()));
    assert(occurs_at(n, p, k + 1));
}

/// Encoding creates no "._".
proof fn lemma_encode_keeps_marker_out(n: Seq<char>)
    requires
        !contains(n, "._"@),
    ensures
        !contains(encode_instance(n), "._"@),
    decreases n.len(),
{
    lemma_literals();
    if n.len() == 0 {
        lemma_encode_empty(n);
    } else {
        let rest = n.drop_first();
        if contains(rest, "._"@) {
            lemma_contains_tail(n, "._"@);
        }
        lemma_encode_keeps_marker_out(rest);
        lemma_encode_first(n);
        let e = encode_instance(n);
        let h = if n[0] == ' ' {
            "%20"@
        } else {
            seq![n[0]]
        };
        assert(e == h + encode_instance(rest));
        if contains(e, "._"@) {
            let k = choose|k: int| occurs_at(e, "._"@, k);
            assert(e[k] == '.' && e[k + 1] == '_') by {
                assert(e.subrange(k, k + 2)[0] == e[k]);
                assert(e.subrange(k, k + 2)[1] == e[k + 1]);
            }
            if k >= h.len() {
                assert(e.subrange(k, k + 2) == encode_instance(rest).subrange(
                    k - h.len(),
                    k - h.len() + 2,
                ));
                assert(occurs_at(encode_instance(rest), "._"@, k - h.len()));
            } else if n[0] == ' ' {
                assert(e[k] == h[k]);
            } else {
                assert(k == 0);
                assert(e[1] == encode_instance(rest)[0]);
                if rest.len() == 0 {
                    lemma_encode_empty(rest);
                } else {
                    lemma_encode_first(rest);
                    assert(rest[0] == '_');
                    assert(n.subrange(0, 2) == "._"@) by {
                        assert(n[1] == rest[0]);
                    }
                    assert(occurs_at(n, "._"@, 0));
                }
            }
        }
    }
}

/// Decoding undoes encoding for a name without "%20".
proof fn lemma_decode_encode(n: Seq<char>)
    requires
        !contains(n, "%20"@),
    ensures
        decode_instance(encode_instance(n)) == n,
    decreases n.len(),
{
    lemma_literals();
    if n.len() == 0 {
        lemma_encode_empty(n);
    } else {
        let rest = n.drop_first();
        if contains(rest, "%20"@) {
            lemma_contains_tail(n, "%20"@);
        }
        lemma_decode_encode(rest);
        lemma_encode_first(n);
        let e = encode_instance(n);
        if n[0] == ' ' {
            assert(e == "%20"@ + encode_instance(rest));
            assert(e.take(3) == "%20"@);
            assert(e.skip(3) == encode_instance(rest));
            assert(decode_instance(e) == " "@ + decode_instance(encode_instance(rest)));
            assert(n == seq![n[0]] + rest);
        } else {
            assert(e == seq![n[0]] + encode_instance(rest));
            if starts_with(e, "%20"@) {
                assert(e[0] == '%' && e[1] == '2' && e[2] == '0') by {
                    assert(e.take(3)[0] == e[0]);
                    assert(e.take(3)[1] == e[1]);
                    assert(e.take(3)[2] == e[2]);
                }
                assert(encode_instance(rest)[0] == '2');
                assert(rest.len() > 0) by {
                    if rest.len() == 0 {
                        lemma_encode_empty(rest);
                    }
                }
                lemma_encode_first(rest);
                let rest2 = rest.drop_first();
                assert(encode_instance(rest) == seq![rest[0]] + encode_instance(rest2));
                assert(encode_instance(rest2)[0] == '0');
                assert(rest2.len() > 0) by {
                    if rest2.len() == 0 {
                        lemma_encode_empty(rest2);
                    }
                }
                lemma_encode_first(rest2);
                assert(n.subrange(0, 3) == "%20"@) by {
                    assert(n[1] == rest[0]);
                    assert(n[2] == rest2[0]);
                }
                assert(occurs_at(n, "%20"@, 0));
            }
            assert(e.drop_first() == encode_instance(rest));
            assert(decode_instance(e) == seq![e[0]] + decode_instance(encode_instance(rest)));
            assert(n == seq![n[0]] + rest);
        }
    }
}

/// The search from `k` finds `m` when `m` is the first occurrence from `k`.
proof fn lemma_find_first_at(s: Seq<char>, pat: Seq<char>, k: int, m: int)
    requires
        pat.len() > 0,
        0 <= k <= m,
        occurs_at(s, pat, m),
        forall|i: int| k <= i < m ==> !occurs_at(s, pat, i),
    ensures
        find_from(s, pat, k) == Some(m),
    decreases m - k,
{
    if k < m {
        lemma_find_first_at(s, pat, k + 1, m);
    }
}

/// The CUPS device URI that an install writes for a printer gives that
/// printer's instance name back when the queue is taken over later, for
/// every name that holds neither "._" nor "%20".
pub proof fn lemma_dnssd_uri_round_trip(name: Seq<char>)
    requires
        !contains(name, "._"@),
        !contains(name, "%20"@),
    ensures
        instance_of_dnssd_uri(dnssd_uri_of(name)) == Some(name),
{
    lemma_literals();
    let e = encode_instance(name);
    let tail = "._pdl-datastream._tcp.local./?bidi"@;
    let uri = dnssd_uri_of(name);
    assert(uri == "dnssd://"@ + (e + tail));
    assert(uri.take(8) == "dnssd://"@);
    assert(uri.skip(8) == e + tail);
    let x = e + tail;
    lemma_encode_keeps_marker_out(name);
    assert(occurs_at(x, "._"@, e.len() as int)) by {
        assert(x.subrange(e.len() as int, e.len() as int + 2) == "._"@);
    }
    assert forall|i: int| 0 <= i < e.len() implies !occurs_at(x, "._"@, i) by {
        if occurs_at(x, "._"@, i) {
            if i + 2 <= e.len() {
                assert(x.subrange(i, i + 2) == e.subrange(i, i + 2));
                assert(occurs_at(e, "._"@, i));
            } else {
                assert(x.subrange(i, i + 2)[1] == x[i + 1]);
                assert(x[i + 1] == tail[0]);
            }
        }
    }
    lemma_find_first_at(x, "._"@, 0, e.len() as int);
    assert(find(x, "._"@) == Some(e.len() as int));
    assert(x.take(e.len() as int) == e);
    lemma_decode_encode(name);
}

// ───────────────────────────── install ─────────────────────────────

/// Why an install stops.
#[derive(Debug)]
pub enum InstallError {
    /// The queue to take over has no device in CUPS
    NotInCups(String),
    /// `launchctl load` failed for this plist
    LoadFailed(String),
}

/// Mathematical model of [`InstallError`].
pub enum InstallErrorView {
    NotInCups(Seq<char>),
    LoadFailed(Seq<char>),
}

impl View for InstallError {
    type V = InstallErrorView;

    open spec fn view(&self) -> InstallErrorView {
        match self {
            InstallError::NotInCups(p) => InstallErrorView::NotInCups(p@),
            InstallError::LoadFailed(p) => InstallErrorView::LoadFailed(p@),
        }
    }
}

/// The text that explains an install error to the user.
pub open spec fn install_error_message(e: InstallErrorView) -> Seq<char> {
    match e {
        InstallErrorView::NotInCups(p) => "Printer '"@ + p
            + "' not found in CUPS. Remove --use-existing flag."@,
        InstallErrorView::LoadFailed(path) => "launchctl load failed. Try manually:\n  launchctl load -w "@
            + path,
    }
}

impl InstallError {
    /// The text that explains the error to the user.
    pub fn message(&self) -> (r: String)
        ensures
            r@ == install_error_message(self@),
    {
        match self {
            InstallError::NotInCups(p) => {
                let mut r = String::from_str("Printer '");
                r.append(p.as_str());
                r.append("' not found in CUPS. Remove --use-existing flag.");
                r
            },
            InstallError::LoadFailed(path) => {
                let mut r = String::from_str("launchctl load failed. Try manually:\n  launchctl load -w ");
                r.append(path.as_str());
                r
            },
        }
    }
}

/// What the outside world reports to an install after its last action.
#[derive(Debug)]
pub enum InstallEvent {
    /// The path of the running executable
    BinaryLocated(String),
    /// The device URI that CUPS has for the queue, if any
    DeviceUri(Option<String>),
    /// The printer that mDNS discovery found
    Discovered(PrinterInfo),
    /// The state of the queue in CUPS
    PrinterStateIs(PrinterState),
    /// The PPD model that `lpinfo` offers, if any
    PpdModel(Option<String>),
    /// The requested change was made
    Completed,
    /// The home directory
    HomeIs(String),
    /// Whether `launchctl load` succeeded
    AgentLoaded(bool),
}

/// Mathematical model of [`InstallEvent`].
pub enum InstallEventView {
    BinaryLocated(Seq<char>),
    DeviceUri(Option<Seq<char>>),
    Discovered(PrinterInfoView),
    PrinterStateIs(PrinterStateView),
    PpdModel(Option<Seq<char>>),
    Completed,
    HomeIs(Seq<char>),
    AgentLoaded(bool),
}

impl View for InstallEvent {
    type V = InstallEventView;

    open spec fn view(&self) -> InstallEventView {
        match self {
            InstallEvent::BinaryLocated(b) => InstallEventView::BinaryLocated(b@),
            InstallEvent::DeviceUri(u) => InstallEventView::DeviceUri(opt_view(*u)),
            InstallEvent::Discovered(i) => InstallEventView::Discovered(i@),
            InstallEvent::PrinterStateIs(s) => InstallEventView::PrinterStateIs(s@),
            InstallEvent::PpdModel(m) => InstallEventView::PpdModel(opt_view(*m)),
            InstallEvent::Completed => InstallEventView::Completed,
            InstallEvent::HomeIs(h) => InstallEventView::HomeIs(h@),
            InstallEvent::AgentLoaded(ok) => InstallEventView::AgentLoaded(*ok),
        }
    }
}

/// What an install asks the outside world to do next.
#[derive(Debug)]
pub enum InstallAction {
    /// Find the path of the running executable
    LocateBinary,
    /// Ask CUPS for the device URI of this queue
    QueryDeviceUri(String),
    /// Search mDNS for the printer
    Discover { service_types: Vec<String>, filter: String, timeout_secs: u64 },
    /// Ask CUPS for the state of this queue
    QueryPrinterState(String),
    /// Ask `lpinfo` for a PPD model of this make and model
    FindPpd(String),
    /// Add the queue with `lpadmin`
    AddPrinter { printer_name: String, device_uri: String, ppd_model: String, display_name: String },
    /// Make this queue the default
    SetDefault(String),
    /// Find the home directory
    LocateHome,
    /// Save these settings at this path
    SaveConfig { config: Config, path: String },
    /// Create the log and agent directories and write the plist
    WriteAgent { log_dir: String, agents_dir: String, plist_path: String, plist: String },
    /// Load the agent with `launchctl load -w`
    LoadAgent(String),
    /// The install is complete; logs go to this directory
    Done(String),
    /// The install stops with this error
    Fail(InstallError),
    /// The event did not fit what the install waited for; nothing to do
    Ignored,
}

/// Mathematical model of [`InstallAction`].
pub enum InstallActionView {
    LocateBinary,
    QueryDeviceUri(Seq<char>),
    Discover { service_types: Seq<Seq<char>>, filter: Seq<char>, timeout_secs: u64 },
    QueryPrinterState(Seq<char>),
    FindPpd(Seq<char>),
    AddPrinter {
        printer_name: Seq<char>,
        device_uri: Seq<char>,
        ppd_model: Seq<char>,
        display_name: Seq<char>,
    },
    SetDefault(Seq<char>),
    LocateHome,
    SaveConfig { config: ConfigView, path: Seq<char> },
    WriteAgent { log_dir: Seq<char>, agents_dir: Seq<char>, plist_path: Seq<char>, plist: Seq<char> },
    LoadAgent(Seq<char>),
    Done(Seq<char>),
    Fail(InstallErrorView),
    Ignored,
}

impl View for InstallAction {
    type V = InstallActionView;

    open spec fn view(&self) -> InstallActionView {
        match self {
            InstallAction::LocateBinary => InstallActionView::LocateBinary,
            InstallAction::QueryDeviceUri(p) => InstallActionView::QueryDeviceUri(p@),
            InstallAction::Discover { service_types, filter, timeout_secs } => InstallActionView::Discover {
                service_types: service_types@.map_values(|t: String| t@),
                filter: filter@,
                timeout_secs: *timeout_secs,
            },
            InstallAction::QueryPrinterState(p) => InstallActionView::QueryPrinterState(p@),
            InstallAction::FindPpd(m) => InstallActionView::FindPpd(m@),
            InstallAction::AddPrinter { printer_name, device_uri, ppd_model, display_name } =>
                InstallActionView::AddPrinter {
                printer_name: printer_name@,
                device_uri: device_uri@,
                ppd_model: ppd_model@,
                display_name: display_name@,
            },
            InstallAction::SetDefault(p) => InstallActionView::SetDefault(p@),
            InstallAction::LocateHome => InstallActionView::LocateHome,
            InstallAction::SaveConfig { config, path } => InstallActionView::SaveConfig {
                config: config@,
                path: path@,
            },
            InstallAction::WriteAgent { log_dir, agents_dir, plist_path, plist } =>
                InstallActionView::WriteAgent {
                log_dir: log_dir@,
                agents_dir: agents_dir@,
                plist_path: plist_path@,
                plist: plist@,
            },
            InstallAction::LoadAgent(p) => InstallActionView::LoadAgent(p@),
            InstallAction::Done(d) => InstallActionView::Done(d@),
            InstallAction::Fail(e) => InstallActionView::Fail(e@),
            InstallAction::Ignored => InstallActionView::Ignored,
        }
    }
}

/// Where an install stands: what it waits to hear.
#[derive(Debug, PartialEq, Eq, Structural, Clone, Copy)]
pub enum InstallPhase {
    LocatingBinary,
    QueryingUri,
    Discovering,
    QueryingState,
    FindingPpd,
    AddingPrinter,
    SettingDefault,
    LocatingHome,
    SavingConfig,
    WritingAgent,
    LoadingAgent,
    Finished,
}

/// An install of the watchdog for one CUPS queue.
#[derive(Debug)]
pub struct Installer {
    printer_name: String,
    discovery_timeout: u64,
    use_existing: bool,
    phase: InstallPhase,
    binary_path: String,
    instance_name: String,
    hostname: String,
    device_uri: String,
    home: String,
    plist_path: String,
    log_dir: String,
}

/// Mathematical model of [`Installer`].
pub struct InstallModel {
    pub printer_name: Seq<char>,
    pub discovery_timeout: u64,
    pub use_existing: bool,
    pub phase: InstallPhase,
    pub binary_path: Seq<char>,
    pub instance_name: Seq<char>,
    pub hostname: Seq<char>,
    pub device_uri: Seq<char>,
    pub home: Seq<char>,
    pub plist_path: Seq<char>,
    pub log_dir: Seq<char>,
}

impl View for Installer {
    type V = InstallModel;

    closed spec fn view(&self) -> InstallModel {
        InstallModel {
            printer_name: self.printer_name@,
            discovery_timeout: self.discovery_timeout,
            use_existing: self.use_existing,
            phase: self.phase,
            binary_path: self.binary_path@,
            instance_name: self.instance_name@,
            hostname: self.hostname@,
            device_uri: self.device_uri@,
            home: self.home@,
            plist_path: self.plist_path@,
            log_dir: self.log_dir@,
        }
    }
}

/// The instance name assumed for a taken-over queue whose URI names none.
pub open spec fn fallback_instance_name() -> Seq<char> {
    "EPSON L3150 Series"@
}

/// The settings an install saves.
pub open spec fn installed_config(m: InstallModel, plist_path: Seq<char>) -> ConfigView {
    ConfigView {
        printer_name: m.printer_name,
        mdns_instance_name: m.instance_name,
        mdns_hostname: m.hostname,
        poll_interval_secs: 30,
        enable_delay_secs: 3,
        plist_path,
    }
}

/// The first step of installing the watchdog for queue `printer_name`.
pub open spec fn install_start(printer_name: Seq<char>, discovery_timeout: u64, use_existing: bool) -> (
    InstallModel,
    InstallActionView,
) {
    (
        InstallModel {
            printer_name,
            discovery_timeout,
            use_existing,
            phase: InstallPhase::LocatingBinary,
            binary_path: Seq::empty(),
            instance_name: Seq::empty(),
            hostname: Seq::empty(),
            device_uri: Seq::empty(),
            home: Seq::empty(),
            plist_path: Seq::empty(),
            log_dir: Seq::empty(),
        },
        InstallActionView::LocateBinary,
    )
}

/// One step of an install: from where it stands and what was reported,
/// where it stands next and what it asks for.
pub open spec fn install_next(m: InstallModel, e: InstallEventView) -> (InstallModel, InstallActionView) {
    match (m.phase, e) {
        (InstallPhase::LocatingBinary, InstallEventView::BinaryLocated(b)) => if m.use_existing {
            (
                InstallModel { binary_path: b, phase: InstallPhase::QueryingUri, ..m },
                InstallActionView::QueryDeviceUri(m.printer_name),
            )
        } else {
            (
                InstallModel { binary_path: b, phase: InstallPhase::Discovering, ..m },
                InstallActionView::Discover {
                    service_types: printer_service_type_views(),
                    filter: "EPSON"@,
                    timeout_secs: m.discovery_timeout,
                },
            )
        },
        (InstallPhase::QueryingUri, InstallEventView::DeviceUri(u)) => match u {
            None => (
                InstallModel { phase: InstallPhase::Finished, ..m },
                InstallActionView::Fail(InstallErrorView::NotInCups(m.printer_name)),
            ),
            Some(uri) => (
                InstallModel {
                    instance_name: match instance_of_dnssd_uri(uri) {
                        Some(n) => n,
                        None => fallback_instance_name(),
                    },
                    hostname: Seq::empty(),
                    phase: InstallPhase::LocatingHome,
                    ..m
                },
                InstallActionView::LocateHome,
            ),
        },
        (InstallPhase::Discovering, InstallEventView::Discovered(info)) => (
            InstallModel {
                instance_name: info.instance_name,
                hostname: info.hostname,
                device_uri: dnssd_uri_of(info.instance_name),
                phase: InstallPhase::QueryingState,
                ..m
            },
            InstallActionView::QueryPrinterState(m.printer_name),
        ),
        (InstallPhase::QueryingState, InstallEventView::PrinterStateIs(s)) => if s
            is NotFound {
            (
                InstallModel { phase: InstallPhase::FindingPpd, ..m },
                InstallActionView::FindPpd("EPSON L3150"@),
            )
        } else {
            (InstallModel { phase: InstallPhase::LocatingHome, ..m }, InstallActionView::LocateHome)
        },
        (InstallPhase::FindingPpd, InstallEventView::PpdModel(p)) => (
            InstallModel { phase: InstallPhase::AddingPrinter, ..m },
            InstallActionView::AddPrinter {
                printer_name: m.printer_name,
                device_uri: m.device_uri,
                ppd_model: match p {
                    Some(x) => x,
                    None => "everywhere"@,
                },
                display_name: m.instance_name,
            },
        ),
        (InstallPhase::AddingPrinter, InstallEventView::Completed) => (
            InstallModel { phase: InstallPhase::SettingDefault, ..m },
            InstallActionView::SetDefault(m.printer_name),
        ),
        (InstallPhase::SettingDefault, InstallEventView::Completed) => (
            InstallModel { phase: InstallPhase::LocatingHome, ..m },
            InstallActionView::LocateHome,
        ),
        (InstallPhase::LocatingHome, InstallEventView::HomeIs(h)) => (
            InstallModel {
                home: h,
                plist_path: launchd_plist_path_of(h),
                phase: InstallPhase::SavingConfig,
                ..m
            },
            InstallActionView::SaveConfig {
                config: installed_config(m, launchd_plist_path_of(h)),
                path: config_path_of(h),
            },
        ),
        (InstallPhase::SavingConfig, InstallEventView::Completed) => (
            InstallModel {
                log_dir: log_dir_path_of(m.home),
                phase: InstallPhase::WritingAgent,
                ..m
            },
            InstallActionView::WriteAgent {
                log_dir: log_dir_path_of(m.home),
                agents_dir: launch_agents_dir_of(m.home),
                plist_path: m.plist_path,
                plist: plist_text(m.binary_path, log_dir_path_of(m.home)),
            },
        ),
        (InstallPhase::WritingAgent, InstallEventView::Completed) => (
            InstallModel { phase: InstallPhase::LoadingAgent, ..m },
            InstallActionView::LoadAgent(m.plist_path),
        ),
        (InstallPhase::LoadingAgent, InstallEventView::AgentLoaded(ok)) => (
            InstallModel { phase: InstallPhase::Finished, ..m },
            if ok {
                InstallActionView::Done(m.log_dir)
            } else {
                InstallActionView::Fail(InstallErrorView::LoadFailed(m.plist_path))
            },
        ),
        _ => (m, InstallActionView::Ignored),
    }
}

impl Installer {
    /// Begins installing the watchdog for queue `printer_name`: taking over
    /// the queue CUPS already has if `use_existing`, else discovering the
    /// printer on mDNS within `discovery_timeout` seconds.
    pub fn new(printer_name: &str, discovery_timeout: u64, use_existing: bool) -> (r: (
        Installer,
        InstallAction,
    ))
        ensures
            (r.0@, r.1@) == install_start(printer_name@, discovery_timeout, use_existing),
    {
        let inst = Installer {
            printer_name: String::from_str(printer_name),
            discovery_timeout,
            use_existing,
            phase: InstallPhase::LocatingBinary,
            binary_path: String::new(),
            instance_name: String::new(),
            hostname: String::new(),
            device_uri: String::new(),
            home: String::new(),
            plist_path: String::new(),
            log_dir: String::new(),
        };
        (inst, InstallAction::LocateBinary)
    }

    /// One step of the install: takes what the outside world reported after
    /// the last action and returns the next action.
    pub fn step(&mut self, event: InstallEvent) -> (action: InstallAction)
        ensures
            (final(self)@, action@) == install_next(old(self)@, event@),
    {
        match (self.phase, event) {
            (InstallPhase::LocatingBinary, InstallEvent::BinaryLocated(b)) => {
                self.binary_path = b;
                if self.use_existing {
                    self.phase = InstallPhase::QueryingUri;
                    InstallAction::QueryDeviceUri(self.printer_name.clone())
                } else {
                    self.phase = InstallPhase::Discovering;
                    InstallAction::Discover {
                        service_types: printer_service_types(),
                        filter: String::from_str("EPSON"),
                        timeout_secs: self.discovery_timeout,
                    }
                }
            },
            (InstallPhase::QueryingUri, InstallEvent::DeviceUri(u)) => match u {
                None => {
                    self.phase = InstallPhase::Finished;
                    InstallAction::Fail(InstallError::NotInCups(self.printer_name.clone()))
                },
                Some(uri) => {
                    self.instance_name = match extract_instance_from_dnssd_uri(uri.as_str()) {
                        Some(n) => n,
                        None => String::from_str("EPSON L3150 Series"),
                    };
                    self.hostname = String::new();
                    self.phase = InstallPhase::LocatingHome;
                    InstallAction::LocateHome
                },
            },
            (InstallPhase::Discovering, InstallEvent::Discovered(info)) => {
                self.device_uri = info.dnssd_uri();
                self.instance_name = info.instance_name;
                self.hostname = info.hostname;
                self.phase = InstallPhase::QueryingState;
                InstallAction::QueryPrinterState(self.printer_name.clone())
            },
            (InstallPhase::QueryingState, InstallEvent::PrinterStateIs(s)) => match s {
                PrinterState::NotFound => {
                    self.phase = InstallPhase::FindingPpd;
                    InstallAction::FindPpd(String::from_str("EPSON L3150"))
                },
                _ => {
                    self.phase = InstallPhase::LocatingHome;
                    InstallAction::LocateHome
                },
            },
            (InstallPhase::FindingPpd, InstallEvent::PpdModel(p)) => {
                self.phase = InstallPhase::AddingPrinter;
                let ppd_model = match p {
                    Some(x) => x,
                    None => String::from_str("everywhere"),
                };
                InstallAction::AddPrinter {
                    printer_name: self.printer_name.clone(),
                    device_uri: self.device_uri.clone(),
                    ppd_model,
                    display_name: self.instance_name.clone(),
                }
            },
            (InstallPhase::AddingPrinter, InstallEvent::Completed) => {
                self.phase = InstallPhase::SettingDefault;
                InstallAction::SetDefault(self.printer_name.clone())
            },
            (InstallPhase::SettingDefault, InstallEvent::Completed) => {
                self.phase = InstallPhase::LocatingHome;
                InstallAction::LocateHome
            },
            (InstallPhase::LocatingHome, InstallEvent::HomeIs(h)) => {
                let plist_path = launchd_plist_path(h.as_str());
                let path = Config::config_path(h.as_str());
                let config = Config {
                    printer_name: self.printer_name.clone(),
                    mdns_instance_name: self.instance_name.clone(),
                    mdns_hostname: self.hostname.clone(),
                    poll_interval_secs: crate::config::DEFAULT_POLL_INTERVAL_SECS,
                    enable_delay_secs: crate::config::DEFAULT_ENABLE_DELAY_SECS,
                    plist_path: plist_path.clone(),
                };
                self.home = h;
                self.plist_path = plist_path;
                self.phase = InstallPhase::SavingConfig;
                InstallAction::SaveConfig { config, path }
            },
            (InstallPhase::SavingConfig, InstallEvent::Completed) => {
                let log_dir = log_dir_path(self.home.as_str());
                let plist = generate_plist(self.binary_path.as_str(), log_dir.as_str());
                let agents_dir = launch_agents_dir(self.home.as_str());
                self.log_dir = log_dir.clone();
                self.phase = InstallPhase::WritingAgent;
                InstallAction::WriteAgent {
                    log_dir,
                    agents_dir,
                    plist_path: self.plist_path.clone(),
                    plist,
                }
            },
            (InstallPhase::WritingAgent, InstallEvent::Completed) => {
                self.phase = InstallPhase::LoadingAgent;
                InstallAction::LoadAgent(self.plist_path.clone())
            },
            (InstallPhase::LoadingAgent, InstallEvent::AgentLoaded(ok)) => {
                self.phase = InstallPhase::Finished;
                if ok {
                    InstallAction::Done(self.log_dir.clone())
                } else {
                    InstallAction::Fail(InstallError::LoadFailed(self.plist_path.clone()))
                }
            },
            _ => InstallAction::Ignored,
        }
    }
}


// ───────────────────────────── laws of the install ─────────────────────────────

/// What every reachable install satisfies: taking over an existing queue
/// never enters the discovery or registration phases, and discovering never
/// asks CUPS for a device URI.
pub open spec fn install_wf(m: InstallModel) -> bool {
    &&& m.use_existing ==> !(m.phase == InstallPhase::Discovering || m.phase
        == InstallPhase::QueryingState || m.phase == InstallPhase::FindingPpd || m.phase
        == InstallPhase::AddingPrinter || m.phase == InstallPhase::SettingDefault)
    &&& !m.use_existing ==> m.phase != InstallPhase::QueryingUri
}

/// A new install satisfies [`install_wf`].
pub proof fn lemma_install_start_wf(printer_name: Seq<char>, discovery_timeout: u64, use_existing: bool)
    ensures
        install_wf(install_start(printer_name, discovery_timeout, use_existing).0),
{
}

/// Every step keeps [`install_wf`].
pub proof fn lemma_install_step_wf(m: InstallModel, e: InstallEventView)
    requires
        install_wf(m),
    ensures
        install_wf(install_next(m, e).0),
{
}

/// Taking over a queue that CUPS already has touches neither the network nor
/// the CUPS configuration: no step asks for mDNS discovery, a queue state,
/// a PPD, `lpadmin` or a new default printer.
pub proof fn lemma_existing_queue_left_alone(m: InstallModel, e: InstallEventView)
    requires
        install_wf(m),
        m.use_existing,
    ensures
        !(install_next(m, e).1 is Discover),
        !(install_next(m, e).1 is QueryPrinterState),
        !(install_next(m, e).1 is FindPpd),
        !(install_next(m, e).1 is AddPrinter),
        !(install_next(m, e).1 is SetDefault),
{
}

/// The queue is registered in CUPS only when CUPS reported it missing: the
/// PPD lookup that begins a registration follows only a `NotFound` state,
/// `lpadmin` adds the queue only after that lookup, and the queue becomes
/// the default only after it was added.
pub proof fn lemma_queue_registered_only_when_missing(m: InstallModel, e: InstallEventView)
    ensures
        install_next(m, e).1 is FindPpd ==> e == InstallEventView::PrinterStateIs(
            PrinterStateView::NotFound,
        ),
        install_next(m, e).1 is AddPrinter ==> m.phase == InstallPhase::FindingPpd,
        install_next(m, e).1 is SetDefault ==> m.phase == InstallPhase::AddingPrinter,
{
}

/// The settings an install saves hold the queue it was asked for, the
/// defaults of 30 s between polls and 3 s before re-enabling, and the plist
/// path under the home directory; they are saved in that home's
/// `.config/epson-watchdog/config.toml`.
pub proof fn lemma_saved_settings(m: InstallModel, e: InstallEventView)
    requires
        install_next(m, e).1 is SaveConfig,
    ensures
        e is HomeIs,
        install_next(m, e).1 matches InstallActionView::SaveConfig { config, path } && {
            &&& config.printer_name == m.printer_name
            &&& config.poll_interval_secs == 30
            &&& config.enable_delay_secs == 3
            &&& config.plist_path == launchd_plist_path_of(e->HomeIs_0)
            &&& path == config_path_of(e->HomeIs_0)
        },
{
}

/// The agent is loaded only after its plist was written, and it is the
/// plist that was written.
pub proof fn lemma_agent_loaded_after_written(m: InstallModel, e: InstallEventView)
    requires
        install_next(m, e).1 is LoadAgent,
    ensures
        m.phase == InstallPhase::WritingAgent,
        e == InstallEventView::Completed,
        install_next(m, e).1 == InstallActionView::LoadAgent(m.plist_path),
{
}


// ───────────────────────────── uninstall ─────────────────────────────

/// What the outside world reports to an uninstall after its last action.
#[derive(Debug)]
pub enum UninstallEvent {
    /// The home directory
    HomeIs(String),
    /// Whether the agent's plist exists
    AgentPresent(bool),
    /// The requested change was made (or, for unloading, attempted)
    Completed,
    /// The queue name in the saved settings, if they could be loaded
    ConfigLoaded(Option<String>),
    /// Whether the settings file exists
    ConfigPresent(bool),
}

/// Mathematical model of [`UninstallEvent`].
pub enum UninstallEventView {
    HomeIs(Seq<char>),
    AgentPresent(bool),
    Completed,
    ConfigLoaded(Option<Seq<char>>),
    ConfigPresent(bool),
}

impl View for UninstallEvent {
    type V = UninstallEventView;

    open spec fn view(&self) -> UninstallEventView {
        match self {
            UninstallEvent::HomeIs(h) => UninstallEventView::HomeIs(h@),
            UninstallEvent::AgentPresent(b) => UninstallEventView::AgentPresent(*b),
            UninstallEvent::Completed => UninstallEventView::Completed,
            UninstallEvent::ConfigLoaded(n) => UninstallEventView::ConfigLoaded(opt_view(*n)),
            UninstallEvent::ConfigPresent(b) => UninstallEventView::ConfigPresent(*b),
        }
    }
}

/// What an uninstall asks the outside world to do next.
#[derive(Debug)]
pub enum UninstallAction {
    /// Find the home directory
    LocateHome,
    /// Tell whether the agent's plist exists at this path
    CheckAgent(String),
    /// Run `launchctl unload -w` on this plist; its outcome does not matter
    UnloadAgent(String),
    /// Delete this plist
    RemoveAgent(String),
    /// Load the saved settings
    LoadConfig,
    /// Remove this CUPS queue with `lpadmin -x`
    RemovePrinter(String),
    /// Tell whether the settings file exists at this path
    CheckConfig(String),
    /// Delete this settings file; its outcome does not matter
    RemoveConfig(String),
    /// The uninstall is complete
    Done,
    /// The event did not fit what the uninstall waited for; nothing to do
    Ignored,
}

/// Mathematical model of [`UninstallAction`].
pub enum UninstallActionView {
    LocateHome,
    CheckAgent(Seq<char>),
    UnloadAgent(Seq<char>),
    RemoveAgent(Seq<char>),
    LoadConfig,
    RemovePrinter(Seq<char>),
    CheckConfig(Seq<char>),
    RemoveConfig(Seq<char>),
    Done,
    Ignored,
}

impl View for UninstallAction {
    type V = UninstallActionView;

    open spec fn view(&self) -> UninstallActionView {
        match self {
            UninstallAction::LocateHome => UninstallActionView::LocateHome,
            UninstallAction::CheckAgent(p) => UninstallActionView::CheckAgent(p@),
            UninstallAction::UnloadAgent(p) => UninstallActionView::UnloadAgent(p@),
            UninstallAction::RemoveAgent(p) => UninstallActionView::RemoveAgent(p@),
            UninstallAction::LoadConfig => UninstallActionView::LoadConfig,
            UninstallAction::RemovePrinter(n) => UninstallActionView::RemovePrinter(n@),
            UninstallAction::CheckConfig(p) => UninstallActionView::CheckConfig(p@),
            UninstallAction::RemoveConfig(p) => UninstallActionView::RemoveConfig(p@),
            UninstallAction::Done => UninstallActionView::Done,
            UninstallAction::Ignored => UninstallActionView::Ignored,
        }
    }
}

/// Where an uninstall stands: what it waits to hear.
#[derive(Debug, PartialEq, Eq, Structural, Clone, Copy)]
pub enum UninstallPhase {
    LocatingHome,
    CheckingAgent,
    UnloadingAgent,
    RemovingAgent,
    LoadingConfig,
    RemovingPrinter,
    CheckingConfig,
    RemovingConfig,
    Finished,
}

/// An uninstall of the watchdog.
#[derive(Debug)]
pub struct Uninstaller {
    remove_printer_queue: bool,
    phase: UninstallPhase,
    home: String,
    plist_path: String,
}

/// Mathematical model of [`Uninstaller`].
pub struct UninstallModel {
    pub remove_printer_queue: bool,
    pub phase: UninstallPhase,
    pub home: Seq<char>,
    pub plist_path: Seq<char>,
}

impl View for Uninstaller {
    type V = UninstallModel;

    closed spec fn view(&self) -> UninstallModel {
        UninstallModel {
            remove_printer_queue: self.remove_printer_queue,
            phase: self.phase,
            home: self.home@,
            plist_path: self.plist_path@,
        }
    }
}

/// The first step of an uninstall.
pub open spec fn uninstall_start(remove_printer_queue: bool) -> (UninstallModel, UninstallActionView) {
    (
        UninstallModel {
            remove_printer_queue,
            phase: UninstallPhase::LocatingHome,
            home: Seq::empty(),
            plist_path: Seq::empty(),
        },
        UninstallActionView::LocateHome,
    )
}

/// After the agent: the queue, if it is to go, else the settings file.
pub open spec fn uninstall_after_agent(m: UninstallModel) -> (UninstallModel, UninstallActionView) {
    if m.remove_printer_queue {
        (UninstallModel { phase: UninstallPhase::LoadingConfig, ..m }, UninstallActionView::LoadConfig)
    } else {
        uninstall_check_config(m)
    }
}

/// On to the settings file.
pub open spec fn uninstall_check_config(m: UninstallModel) -> (UninstallModel, UninstallActionView) {
    (
        UninstallModel { phase: UninstallPhase::CheckingConfig, ..m },
        UninstallActionView::CheckConfig(config_path_of(m.home)),
    )
}

/// One step of an uninstall: from where it stands and what was reported,
/// where it stands next and what it asks for.
pub open spec fn uninstall_next(m: UninstallModel, e: UninstallEventView) -> (
    UninstallModel,
    UninstallActionView,
) {
    match (m.phase, e) {
        (UninstallPhase::LocatingHome, UninstallEventView::HomeIs(h)) => (
            UninstallModel {
                home: h,
                plist_path: launchd_plist_path_of(h),
                phase: UninstallPhase::CheckingAgent,
                ..m
            },
            UninstallActionView::CheckAgent(launchd_plist_path_of(h)),
        ),
        (UninstallPhase::CheckingAgent, UninstallEventView::AgentPresent(present)) => if present {
            (
                UninstallModel { phase: UninstallPhase::UnloadingAgent, ..m },
                UninstallActionView::UnloadAgent(m.plist_path),
            )
        } else {
            uninstall_after_agent(m)
        },
        (UninstallPhase::UnloadingAgent, UninstallEventView::Completed) => (
            UninstallModel { phase: UninstallPhase::RemovingAgent, ..m },
            UninstallActionView::RemoveAgent(m.plist_path),
        ),
        (UninstallPhase::RemovingAgent, UninstallEventView::Completed) => uninstall_after_agent(m),
        (UninstallPhase::LoadingConfig, UninstallEventView::ConfigLoaded(n)) => match n {
            Some(name) => (
                UninstallModel { phase: UninstallPhase::RemovingPrinter, ..m },
                UninstallActionView::RemovePrinter(name),
            ),
            None => uninstall_check_config(m),
        },
        (UninstallPhase::RemovingPrinter, UninstallEventView::Completed) => uninstall_check_config(m),
        (UninstallPhase::CheckingConfig, UninstallEventView::ConfigPresent(present)) => if present {
            (
                UninstallModel { phase: UninstallPhase::RemovingConfig, ..m },
                UninstallActionView::RemoveConfig(config_path_of(m.home)),
            )
        } else {
            (UninstallModel { phase: UninstallPhase::Finished, ..m }, UninstallActionView::Done)
        },
        (UninstallPhase::RemovingConfig, UninstallEventView::Completed) => (
            UninstallModel { phase: UninstallPhase::Finished, ..m },
            UninstallActionView::Done,
        ),
        _ => (m, UninstallActionView::Ignored),
    }
}

impl Uninstaller {
    /// Begins removing the watchdog, and its CUPS queue too if
    /// `remove_printer_queue`.
    pub fn new(remove_printer_queue: bool) -> (r: (Uninstaller, UninstallAction))
        ensures
            (r.0@, r.1@) == uninstall_start(remove_printer_queue),
    {
        (
            Uninstaller {
                remove_printer_queue,
                phase: UninstallPhase::LocatingHome,
                home: String::new(),
                plist_path: String::new(),
            },
            UninstallAction::LocateHome,
        )
    }

    fn after_agent(&mut self) -> (action: UninstallAction)
        ensures
            (final(self)@, action@) == uninstall_after_agent(old(self)@),
    {
        if self.remove_printer_queue {
            self.phase = UninstallPhase::LoadingConfig;
            UninstallAction::LoadConfig
        } else {
            self.check_config()
        }
    }

    fn check_config(&mut self) -> (action: UninstallAction)
        ensures
            (final(self)@, action@) == uninstall_check_config(old(self)@),
    {
        self.phase = UninstallPhase::CheckingConfig;
        UninstallAction::CheckConfig(Config::config_path(self.home.as_str()))
    }

    /// One step of the uninstall: takes what the outside world reported
    /// after the last action and returns the next action.
    pub fn step(&mut self, event: UninstallEvent) -> (action: UninstallAction)
        ensures
            (final(self)@, action@) == uninstall_next(old(self)@, event@),
    {
        match (self.phase, event) {
            (UninstallPhase::LocatingHome, UninstallEvent::HomeIs(h)) => {
                self.plist_path = launchd_plist_path(h.as_str());
                self.home = h;
                self.phase = UninstallPhase::CheckingAgent;
                UninstallAction::CheckAgent(self.plist_path.clone())
            },
            (UninstallPhase::CheckingAgent, UninstallEvent::AgentPresent(present)) => if present {
                self.phase = UninstallPhase::UnloadingAgent;
                UninstallAction::UnloadAgent(self.plist_path.clone())
            } else {
                self.after_agent()
            },
            (UninstallPhase::UnloadingAgent, UninstallEvent::Completed) => {
                self.phase = UninstallPhase::RemovingAgent;
                UninstallAction::RemoveAgent(self.plist_path.clone())
            },
            (UninstallPhase::RemovingAgent, UninstallEvent::Completed) => self.after_agent(),
            (UninstallPhase::LoadingConfig, UninstallEvent::ConfigLoaded(n)) => match n {
                Some(name) => {
                    self.phase = UninstallPhase::RemovingPrinter;
                    UninstallAction::RemovePrinter(name)
                },
                None => self.check_config(),
            },
            (UninstallPhase::RemovingPrinter, UninstallEvent::Completed) => self.check_config(),
            (UninstallPhase::CheckingConfig, UninstallEvent::ConfigPresent(present)) => if present {
                self.phase = UninstallPhase::RemovingConfig;
                UninstallAction::RemoveConfig(Config::config_path(self.home.as_str()))
            } else {
                self.phase = UninstallPhase::Finished;
                UninstallAction::Done
            },
            (UninstallPhase::RemovingConfig, UninstallEvent::Completed) => {
                self.phase = UninstallPhase::Finished;
                UninstallAction::Done
            },
            _ => UninstallAction::Ignored,
        }
    }
}

// ───────────────────────────── laws of the uninstall ─────────────────────────────

/// What every reachable uninstall satisfies: without `--remove-printer` it
/// never enters the phases that load the settings or remove the queue.
pub open spec fn uninstall_wf(m: UninstallModel) -> bool {
    !m.remove_printer_queue ==> !(m.phase == UninstallPhase::LoadingConfig || m.phase
        == UninstallPhase::RemovingPrinter)
}

/// A new uninstall satisfies [`uninstall_wf`].
pub proof fn lemma_uninstall_start_wf(remove_printer_queue: bool)
    ensures
        uninstall_wf(uninstall_start(remove_printer_queue).0),
{
}

/// Every step keeps [`uninstall_wf`].
pub proof fn lemma_uninstall_step_wf(m: UninstallModel, e: UninstallEventView)
    requires
        uninstall_wf(m),
    ensures
        uninstall_wf(uninstall_next(m, e).0),
{
}

/// The CUPS queue is removed only when that was asked for, and it is the
/// queue named in the saved settings.
pub proof fn lemma_queue_removed_only_on_request(m: UninstallModel, e: UninstallEventView)
    requires
        uninstall_wf(m),
        uninstall_next(m, e).1 is RemovePrinter,
    ensures
        m.remove_printer_queue,
        e == UninstallEventView::ConfigLoaded(Some(uninstall_next(m, e).1->RemovePrinter_0)),
{
}

/// The agent's plist is deleted only after the agent was unloaded, and the
/// agent is unloaded only when its plist exists.
pub proof fn lemma_agent_unloaded_before_removal(m: UninstallModel, e: UninstallEventView)
    ensures
        uninstall_next(m, e).1 is RemoveAgent ==> m.phase == UninstallPhase::UnloadingAgent,
        uninstall_next(m, e).1 is UnloadAgent ==> e == UninstallEventView::AgentPresent(true),
{
}


/// Where an uninstall stands after the events `es`, and the actions it
/// asked for along the way, one per event.
pub open spec fn uninstall_run(m: UninstallModel, es: Seq<UninstallEventView>) -> (
    UninstallModel,
    Seq<UninstallActionView>,
)
    decreases es.len(),
{
    if es.len() == 0 {
        (m, Seq::empty())
    } else {
        let (m1, a) = uninstall_next(m, es[0]);
        let (m2, rest) = uninstall_run(m1, es.drop_first());
        (m2, seq![a] + rest)
    }
}

/// An action that runs `launchctl` or `lpadmin`, or touches the agent or
/// the queue.
pub open spec fn touches_agent_or_queue(a: UninstallActionView) -> bool {
    a is UnloadAgent || a is RemoveAgent || a is LoadConfig || a is RemovePrinter
}

/// An uninstall without `--remove-printer` that has not begun on the agent.
pub open spec fn quiet_uninstall(m: UninstallModel) -> bool {
    &&& !m.remove_printer_queue
    &&& !(m.phase == UninstallPhase::UnloadingAgent || m.phase == UninstallPhase::RemovingAgent
        || m.phase == UninstallPhase::LoadingConfig || m.phase == UninstallPhase::RemovingPrinter)
}

proof fn lemma_quiet_run(m: UninstallModel, es: Seq<UninstallEventView>)
    requires
        quiet_uninstall(m),
        forall|i: int| 0 <= i < es.len() ==> #[trigger] es[i] != UninstallEventView::AgentPresent(true),
    ensures
        forall|i: int|
            0 <= i < uninstall_run(m, es).1.len() ==> !touches_agent_or_queue(
                #[trigger] uninstall_run(m, es).1[i],
            ),
    decreases es.len(),
{
    if es.len() > 0 {
        assert(es[0] != UninstallEventView::AgentPresent(true));
        let (m1, a) = uninstall_next(m, es[0]);
        assert(!touches_agent_or_queue(a));
        assert(quiet_uninstall(m1));
        let rest = es.drop_first();
        assert forall|i: int| 0 <= i < rest.len() implies #[trigger] rest[i]
            != UninstallEventView::AgentPresent(true) by {
            assert(rest[i] == es[i + 1]);
        }
        lemma_quiet_run(m1, rest);
        let acts = uninstall_run(m, es).1;
        let tail = uninstall_run(m1, rest).1;
        assert(acts == seq![a] + tail);
        assert forall|i: int| 0 <= i < acts.len() implies !touches_agent_or_queue(
            #[trigger] acts[i],
        ) by {
            if i > 0 {
                assert(acts[i] == tail[i - 1]);
            }
        }
    }
}

/// An uninstall without `--remove-printer` that finds no agent plist (as
/// after an earlier uninstall removed it) runs neither `launchctl` nor
/// `lpadmin`: over any events that never report the plist present, it asks
/// neither to unload nor to remove the agent, nor to load the settings, nor
/// to remove the queue.
pub proof fn lemma_uninstall_without_agent_is_quiet(es: Seq<UninstallEventView>)
    requires
        forall|i: int| 0 <= i < es.len() ==> #[trigger] es[i] != UninstallEventView::AgentPresent(true),
    ensures
        forall|i: int|
            0 <= i < uninstall_run(uninstall_start(false).0, es).1.len() ==> !touches_agent_or_queue(
                #[trigger] uninstall_run(uninstall_start(false).0, es).1[i],
            ),
{
    lemma_quiet_run(uninstall_start(false).0, es);
}


// ───────────────────────────── laws over runs ─────────────────────────────

/// Where an install stands after the events `es`, and the actions it asked
/// for along the way, one per event.
pub open spec fn install_run(m: InstallModel, es: Seq<InstallEventView>) -> (
    InstallModel,
    Seq<InstallActionView>,
)
    decreases es.len(),
{
    if es.len() == 0 {
        (m, Seq::empty())
    } else {
        let (m1, a) = install_next(m, es[0]);
        let (m2, rest) = install_run(m1, es.drop_first());
        (m2, seq![a] + rest)
    }
}

/// Every queue that action `a` names is the queue `n`.
pub open spec fn names_only_queue(a: InstallActionView, n: Seq<char>) -> bool {
    match a {
        InstallActionView::QueryDeviceUri(q) => q == n,
        InstallActionView::QueryPrinterState(q) => q == n,
        InstallActionView::AddPrinter { printer_name, .. } => printer_name == n,
        InstallActionView::SetDefault(q) => q == n,
        InstallActionView::SaveConfig { config, .. } => config.printer_name == n,
        InstallActionView::Fail(InstallErrorView::NotInCups(q)) => q == n,
        _ => true,
    }
}

proof fn lemma_install_run_names(m: InstallModel, es: Seq<InstallEventView>)
    ensures
        forall|i: int|
            0 <= i < install_run(m, es).1.len() ==> names_only_queue(
                #[trigger] install_run(m, es).1[i],
                m.printer_name,
            ),
    decreases es.len(),
{
    if es.len() > 0 {
        let (m1, a) = install_next(m, es[0]);
        assert(names_only_queue(a, m.printer_name));
        assert(m1.printer_name == m.printer_name);
        let rest = es.drop_first();
        lemma_install_run_names(m1, rest);
        let acts = install_run(m, es).1;
        let tail = install_run(m1, rest).1;
        assert(acts == seq![a] + tail);
        assert forall|i: int| 0 <= i < acts.len() implies names_only_queue(
            #[trigger] acts[i],
            m.printer_name,
        ) by {
            if i > 0 {
                assert(acts[i] == tail[i - 1]);
            }
        }
    }
}

/// Every queue that an install names is the one it was started for: the
/// queue whose device URI and state it asks for, that it adds, that it makes
/// the default, that it saves in the settings and that it reports missing.
pub proof fn lemma_install_names_only_its_queue(
    printer_name: Seq<char>,
    discovery_timeout: u64,
    use_existing: bool,
    es: Seq<InstallEventView>,
)
    ensures
        forall|i: int|
            0 <= i < install_run(install_start(printer_name, discovery_timeout, use_existing).0, es).1.len()
                ==> names_only_queue(
                #[trigger] install_run(
                    install_start(printer_name, discovery_timeout, use_existing).0,
                    es,
                ).1[i],
                printer_name,
            ),
{
    lemma_install_run_names(install_start(printer_name, discovery_timeout, use_existing).0, es);
}

/// The event that an install in phase `p` waits for.
pub open spec fn install_awaits(p: InstallPhase, e: InstallEventView) -> bool {
    match p {
        InstallPhase::LocatingBinary => e is BinaryLocated,
        InstallPhase::QueryingUri => e is DeviceUri,
        InstallPhase::Discovering => e is Discovered,
        InstallPhase::QueryingState => e is PrinterStateIs,
        InstallPhase::FindingPpd => e is PpdModel,
        InstallPhase::AddingPrinter => e is Completed,
        InstallPhase::SettingDefault => e is Completed,
        InstallPhase::LocatingHome => e is HomeIs,
        InstallPhase::SavingConfig => e is Completed,
        InstallPhase::WritingAgent => e is Completed,
        InstallPhase::LoadingAgent => e is AgentLoaded,
        InstallPhase::Finished => false,
    }
}

/// An install never ignores the report it waits for, whatever that report
/// says; any other report changes nothing and is answered `Ignored`.
pub proof fn lemma_install_answers_awaited(m: InstallModel, e: InstallEventView)
    ensures
        install_awaits(m.phase, e) ==> !(install_next(m, e).1 is Ignored),
        !install_awaits(m.phase, e) ==> install_next(m, e) == (m, InstallActionView::Ignored),
{
}

/// A queue that CUPS already has, in whatever state, is left as it is: the
/// install goes on to the settings without registering it.
pub proof fn lemma_install_keeps_existing_queue(m: InstallModel, s: PrinterStateView)
    requires
        m.phase == InstallPhase::QueryingState,
        !(s is NotFound),
    ensures
        install_next(m, InstallEventView::PrinterStateIs(s)).1 == InstallActionView::LocateHome,
{
}

/// The event that an uninstall in phase `p` waits for.
pub open spec fn uninstall_awaits(p: UninstallPhase, e: UninstallEventView) -> bool {
    match p {
        UninstallPhase::LocatingHome => e is HomeIs,
        UninstallPhase::CheckingAgent => e is AgentPresent,
        UninstallPhase::UnloadingAgent => e is Completed,
        UninstallPhase::RemovingAgent => e is Completed,
        UninstallPhase::LoadingConfig => e is ConfigLoaded,
        UninstallPhase::RemovingPrinter => e is Completed,
        UninstallPhase::CheckingConfig => e is ConfigPresent,
        UninstallPhase::RemovingConfig => e is Completed,
        UninstallPhase::Finished => false,
    }
}

/// An uninstall never ignores the report it waits for; any other report
/// changes nothing and is answered `Ignored`.
pub proof fn lemma_uninstall_answers_awaited(m: UninstallModel, e: UninstallEventView)
    ensures
        uninstall_awaits(m.phase, e) ==> !(uninstall_next(m, e).1 is Ignored),
        !uninstall_awaits(m.phase, e) ==> uninstall_next(m, e) == (m, UninstallActionView::Ignored),
{
}

/// The paths that action `a` names are those under the home directory `h`:
/// the agent's plist for the agent, the settings file for the settings.
pub open spec fn uninstall_paths_under(a: UninstallActionView, h: Seq<char>) -> bool {
    match a {
        UninstallActionView::CheckAgent(p) => p == launchd_plist_path_of(h),
        UninstallActionView::UnloadAgent(p) => p == launchd_plist_path_of(h),
        UninstallActionView::RemoveAgent(p) => p == launchd_plist_path_of(h),
        UninstallActionView::CheckConfig(p) => p == config_path_of(h),
        UninstallActionView::RemoveConfig(p) => p == config_path_of(h),
        _ => true,
    }
}

/// The `j`-th event is the first report of a home directory.
pub open spec fn first_home_at(es: Seq<UninstallEventView>, j: int) -> bool {
    &&& 0 <= j < es.len()
    &&& es[j] is HomeIs
    &&& forall|k: int| 0 <= k < j ==> !(#[trigger] es[k] is HomeIs)
}

proof fn lemma_uninstall_paths_after_home(m: UninstallModel, es: Seq<UninstallEventView>)
    requires
        m.phase != UninstallPhase::LocatingHome,
        m.plist_path == launchd_plist_path_of(m.home),
    ensures
        forall|i: int|
            0 <= i < uninstall_run(m, es).1.len() ==> uninstall_paths_under(
                #[trigger] uninstall_run(m, es).1[i],
                m.home,
            ),
    decreases es.len(),
{
    if es.len() > 0 {
        let (m1, a) = uninstall_next(m, es[0]);
        assert(uninstall_paths_under(a, m.home));
        assert(m1.home == m.home && m1.plist_path == m.plist_path);
        let rest = es.drop_first();
        lemma_uninstall_paths_after_home(m1, rest);
        let acts = uninstall_run(m, es).1;
        let tail = uninstall_run(m1, rest).1;
        assert(acts == seq![a] + tail);
        assert forall|i: int| 0 <= i < acts.len() implies uninstall_paths_under(
            #[trigger] acts[i],
            m.home,
        ) by {
            if i > 0 {
                assert(acts[i] == tail[i - 1]);
            }
        }
    }
}

proof fn lemma_uninstall_paths_before_home(m: UninstallModel, es: Seq<UninstallEventView>, j: int)
    requires
        m.phase == UninstallPhase::LocatingHome,
        first_home_at(es, j),
    ensures
        forall|i: int|
            0 <= i < uninstall_run(m, es).1.len() ==> uninstall_paths_under(
                #[trigger] uninstall_run(m, es).1[i],
                es[j]->HomeIs_0,
            ),
    decreases es.len(),
{
    let h = es[j]->HomeIs_0;
    let (m1, a) = uninstall_next(m, es[0]);
    let rest = es.drop_first();
    let acts = uninstall_run(m, es).1;
    let tail = uninstall_run(m1, rest).1;
    assert(acts == seq![a] + tail);
    if j == 0 {
        assert(m1.home == h && m1.plist_path == launchd_plist_path_of(h));
        lemma_uninstall_paths_after_home(m1, rest);
    } else {
        assert(!(es[0] is HomeIs));
        assert(m1 == m && a == UninstallActionView::Ignored);
        assert(first_home_at(rest, j - 1)) by {
            assert forall|k: int| 0 <= k < j - 1 implies !(#[trigger] rest[k] is HomeIs) by {
                assert(rest[k] == es[k + 1]);
            }
            assert(rest[j - 1] == es[j]);
        }
        lemma_uninstall_paths_before_home(m1, rest, j - 1);
        assert(rest[j - 1] == es[j]);
    }
    assert forall|i: int| 0 <= i < acts.len() implies uninstall_paths_under(#[trigger] acts[i], h) by {
        if i > 0 {
            assert(acts[i] == tail[i - 1]);
        }
    }
}

/// Every path an uninstall names lies under the home directory it was given
/// (the first one reported): it checks, unloads and deletes the agent's
/// plist at `~/Library/LaunchAgents/com.epson.l3150.watchdog.plist`, and it
/// checks and deletes the settings at `~/.config/epson-watchdog/config.toml`,
/// never one for the other.
pub proof fn lemma_uninstall_paths_under_home(
    remove_printer_queue: bool,
    es: Seq<UninstallEventView>,
    j: int,
)
    requires
        first_home_at(es, j),
    ensures
        forall|i: int|
            0 <= i < uninstall_run(uninstall_start(remove_printer_queue).0, es).1.len()
                ==> uninstall_paths_under(
                #[trigger] uninstall_run(uninstall_start(remove_printer_queue).0, es).1[i],
                es[j]->HomeIs_0,
            ),
{
    lemma_uninstall_paths_before_home(uninstall_start(remove_printer_queue).0, es, j);
}

/// The settings file and the agent's plist are different files.
pub proof fn lemma_settings_file_is_not_plist(h: Seq<char>)
    ensures
        config_path_of(h) != launchd_plist_path_of(h),
{
    reveal_strlit("config.toml");
    reveal_strlit("com.epson.l3150.watchdog.plist");
    let c = config_path_of(h);
    let p = launchd_plist_path_of(h);
    assert(c.last() == 'l');
    assert(p.last() == 't');
}


/// The install has its home directory and writes under it.
pub open spec fn after_home(p: InstallPhase) -> bool {
    p == InstallPhase::SavingConfig || p == InstallPhase::WritingAgent || p == InstallPhase::LoadingAgent
}

/// The install holds the printer that discovery reported.
pub open spec fn holds_discovered(p: InstallPhase) -> bool {
    p == InstallPhase::QueryingState || p == InstallPhase::FindingPpd || p == InstallPhase::AddingPrinter
        || p == InstallPhase::SettingDefault
}

/// `hist` reported the home directory `h`.
pub open spec fn home_reported(hist: Seq<InstallEventView>, h: Seq<char>) -> bool {
    exists|j: int| 0 <= j < hist.len() && #[trigger] hist[j] == InstallEventView::HomeIs(h)
}

/// `hist` reported the executable at `b`.
pub open spec fn binary_reported(hist: Seq<InstallEventView>, b: Seq<char>) -> bool {
    exists|j: int| 0 <= j < hist.len() && #[trigger] hist[j] == InstallEventView::BinaryLocated(b)
}

/// `hist` reported the discovered printer `i`.
pub open spec fn discovered_reported(hist: Seq<InstallEventView>, i: PrinterInfoView) -> bool {
    exists|j: int| 0 <= j < hist.len() && #[trigger] hist[j] == InstallEventView::Discovered(i)
}

/// `hist` reported the device URI `u` for the queue.
pub open spec fn uri_reported(hist: Seq<InstallEventView>, u: Seq<char>) -> bool {
    exists|j: int| 0 <= j < hist.len() && #[trigger] hist[j] == InstallEventView::DeviceUri(Some(u))
}

/// The instance name read from the device URI `u`, or the fallback name.
pub open spec fn instance_or_fallback(u: Seq<char>) -> Seq<char> {
    match instance_of_dnssd_uri(u) {
        Some(n) => n,
        None => fallback_instance_name(),
    }
}

/// The instance name `inst` and host name `host` come from the reports in
/// `hist`: those of the printer discovery found, or the name read from the
/// queue's reported device URI with no host name.
pub open spec fn printer_names_sourced(inst: Seq<char>, host: Seq<char>, hist: Seq<InstallEventView>) -> bool {
    ||| exists|i: PrinterInfoView|
        #[trigger] discovered_reported(hist, i) && inst == i.instance_name && host == i.hostname
    ||| exists|u: Seq<char>|
        #[trigger] uri_reported(hist, u) && inst == instance_or_fallback(u) && host.len() == 0
}

/// The install knows which printer it watches.
pub open spec fn knows_printer(p: InstallPhase) -> bool {
    holds_discovered(p) || p == InstallPhase::LocatingHome || after_home(p)
}

/// What the model of an install holds came from the reports in `hist`.
pub open spec fn install_sourced(m: InstallModel, hist: Seq<InstallEventView>) -> bool {
    &&& (m.phase != InstallPhase::LocatingBinary && m.phase != InstallPhase::Finished)
        ==> binary_reported(hist, m.binary_path)
    &&& holds_discovered(m.phase) ==> exists|i: PrinterInfoView|
        #[trigger] discovered_reported(hist, i) && m.device_uri == dnssd_uri_of(i.instance_name)
            && m.instance_name == i.instance_name
    &&& after_home(m.phase) ==> home_reported(hist, m.home) && m.plist_path == launchd_plist_path_of(
        m.home,
    )
    &&& (m.phase == InstallPhase::WritingAgent || m.phase == InstallPhase::LoadingAgent) ==> m.log_dir
        == log_dir_path_of(m.home)
    &&& knows_printer(m.phase) ==> printer_names_sourced(m.instance_name, m.hostname, hist)
}

/// Every device URI, display name, path and plist that action `a` names
/// comes from the reports in `hist`: the printer discovery found, the home
/// directory and the executable that were reported.
pub open spec fn install_action_sourced(a: InstallActionView, hist: Seq<InstallEventView>) -> bool {
    match a {
        InstallActionView::AddPrinter { device_uri, display_name, .. } => exists|i: PrinterInfoView|
            #[trigger] discovered_reported(hist, i) && device_uri == dnssd_uri_of(i.instance_name)
                && display_name == i.instance_name,
        InstallActionView::SaveConfig { config, path } => (exists|h: Seq<char>|
            #[trigger] home_reported(hist, h) && path == config_path_of(h) && config.plist_path
                == launchd_plist_path_of(h)) && printer_names_sourced(
            config.mdns_instance_name,
            config.mdns_hostname,
            hist,
        ),
        InstallActionView::WriteAgent { log_dir, agents_dir, plist_path, plist } => exists|
            h: Seq<char>,
            b: Seq<char>,
        |
            #![trigger home_reported(hist, h), binary_reported(hist, b)]
            home_reported(hist, h) && binary_reported(hist, b) && log_dir == log_dir_path_of(h)
                && agents_dir == launch_agents_dir_of(h) && plist_path == launchd_plist_path_of(h)
                && plist == plist_text(b, log_dir_path_of(h)),
        InstallActionView::LoadAgent(p) => exists|h: Seq<char>|
            #[trigger] home_reported(hist, h) && p == launchd_plist_path_of(h),
        InstallActionView::Done(d) => exists|h: Seq<char>|
            #[trigger] home_reported(hist, h) && d == log_dir_path_of(h),
        InstallActionView::Fail(InstallErrorView::LoadFailed(p)) => exists|h: Seq<char>|
            #[trigger] home_reported(hist, h) && p == launchd_plist_path_of(h),
        _ => true,
    }
}

proof fn lemma_reported_kept(hist: Seq<InstallEventView>, e: InstallEventView)
    ensures
        forall|h: Seq<char>| #[trigger] home_reported(hist, h) ==> home_reported(hist.push(e), h),
        forall|b: Seq<char>| #[trigger] binary_reported(hist, b) ==> binary_reported(hist.push(e), b),
        forall|i: PrinterInfoView| #[trigger] discovered_reported(hist, i) ==> discovered_reported(
            hist.push(e),
            i,
        ),
        e matches InstallEventView::HomeIs(h) ==> home_reported(hist.push(e), h),
        e matches InstallEventView::BinaryLocated(b) ==> binary_reported(hist.push(e), b),
        e matches InstallEventView::Discovered(i) ==> discovered_reported(hist.push(e), i),
        forall|u: Seq<char>| #[trigger] uri_reported(hist, u) ==> uri_reported(hist.push(e), u),
        e matches InstallEventView::DeviceUri(Some(u)) ==> uri_reported(hist.push(e), u),
        forall|inst: Seq<char>, host: Seq<char>|
            #[trigger] printer_names_sourced(inst, host, hist) ==> printer_names_sourced(
                inst,
                host,
                hist.push(e),
            ),
{
    let n = hist.len() as int;
    assert(hist.push(e)[n] == e);
    assert forall|h: Seq<char>| #[trigger] home_reported(hist, h) implies home_reported(hist.push(e), h) by {
        let j = choose|j: int| 0 <= j < hist.len() && #[trigger] hist[j] == InstallEventView::HomeIs(h);
        assert(hist.push(e)[j] == hist[j]);
    }
    assert forall|b: Seq<char>| #[trigger] binary_reported(hist, b) implies binary_reported(
        hist.push(e),
        b,
    ) by {
        let j = choose|j: int|
            0 <= j < hist.len() && #[trigger] hist[j] == InstallEventView::BinaryLocated(b);
        assert(hist.push(e)[j] == hist[j]);
    }
    assert forall|i: PrinterInfoView| #[trigger] discovered_reported(hist, i) implies discovered_reported(
        hist.push(e),
        i,
    ) by {
        let j = choose|j: int|
            0 <= j < hist.len() && #[trigger] hist[j] == InstallEventView::Discovered(i);
        assert(hist.push(e)[j] == hist[j]);
    }
    assert forall|u: Seq<char>| #[trigger] uri_reported(hist, u) implies uri_reported(hist.push(e), u) by {
        let j = choose|j: int|
            0 <= j < hist.len() && #[trigger] hist[j] == InstallEventView::DeviceUri(Some(u));
        assert(hist.push(e)[j] == hist[j]);
    }
    assert forall|inst: Seq<char>, host: Seq<char>|
        #[trigger] printer_names_sourced(inst, host, hist) implies printer_names_sourced(
        inst,
        host,
        hist.push(e),
    ) by {
        if exists|i: PrinterInfoView|
            #[trigger] discovered_reported(hist, i) && inst == i.instance_name && host == i.hostname {
            let i = choose|i: PrinterInfoView|
                #[trigger] discovered_reported(hist, i) && inst == i.instance_name && host == i.hostname;
            assert(discovered_reported(hist.push(e), i));
        } else {
            let u = choose|u: Seq<char>|
                #[trigger] uri_reported(hist, u) && inst == instance_or_fallback(u) && host.len() == 0;
            assert(uri_reported(hist.push(e), u));
        }
    }
}

proof fn lemma_install_step_sourced(m: InstallModel, hist: Seq<InstallEventView>, e: InstallEventView)
    requires
        install_sourced(m, hist),
    ensures
        install_sourced(install_next(m, e).0, hist.push(e)),
        install_action_sourced(install_next(m, e).1, hist.push(e)),
{
    lemma_reported_kept(hist, e);
    let h2 = hist.push(e);
    let (m1, a) = install_next(m, e);
    if holds_discovered(m.phase) && holds_discovered(m1.phase) {
        let i = choose|i: PrinterInfoView|
            #[trigger] discovered_reported(hist, i) && m.device_uri == dnssd_uri_of(i.instance_name)
                && m.instance_name == i.instance_name;
        assert(discovered_reported(h2, i));
    }
    if let InstallEventView::DeviceUri(Some(u)) = e {
        assert(uri_reported(h2, u));
        if m.phase == InstallPhase::QueryingUri {
            assert(m1.instance_name == instance_or_fallback(u));
            assert(printer_names_sourced(m1.instance_name, m1.hostname, h2));
        }
    }
    if knows_printer(m.phase) {
        assert(printer_names_sourced(m.instance_name, m.hostname, h2));
    }
    if let InstallEventView::Discovered(i) = e {
        assert(discovered_reported(h2, i));
        if m.phase == InstallPhase::Discovering {
            assert(printer_names_sourced(m1.instance_name, m1.hostname, h2));
            assert(exists|i2: PrinterInfoView|
                #[trigger] discovered_reported(h2, i2) && m1.device_uri == dnssd_uri_of(i2.instance_name)
                    && m1.instance_name == i2.instance_name);
        }
    }
    if let InstallActionView::AddPrinter { .. } = a {
        let i = choose|i: PrinterInfoView|
            #[trigger] discovered_reported(hist, i) && m.device_uri == dnssd_uri_of(i.instance_name)
                && m.instance_name == i.instance_name;
        assert(discovered_reported(h2, i));
    }
    if let InstallEventView::HomeIs(h) = e {
        assert(home_reported(h2, h));
    }
    if after_home(m.phase) {
        assert(home_reported(h2, m.home));
    }
    if m.phase != InstallPhase::LocatingBinary && m.phase != InstallPhase::Finished {
        assert(binary_reported(h2, m.binary_path));
    }
    if let InstallEventView::BinaryLocated(b) = e {
        assert(binary_reported(h2, b));
    }
    assert((m1.phase != InstallPhase::LocatingBinary && m1.phase != InstallPhase::Finished)
        ==> binary_reported(h2, m1.binary_path));
    assert(holds_discovered(m1.phase) ==> exists|i: PrinterInfoView|
        #[trigger] discovered_reported(h2, i) && m1.device_uri == dnssd_uri_of(i.instance_name)
            && m1.instance_name == i.instance_name);
    assert(after_home(m1.phase) ==> home_reported(h2, m1.home));
    assert(after_home(m1.phase) ==> m1.plist_path == launchd_plist_path_of(m1.home));
}

proof fn lemma_install_run_sourced(m: InstallModel, hist: Seq<InstallEventView>, es: Seq<InstallEventView>)
    requires
        install_sourced(m, hist),
    ensures
        install_run(m, es).1.len() == es.len(),
        forall|i: int|
            0 <= i < install_run(m, es).1.len() ==> install_action_sourced(
                #[trigger] install_run(m, es).1[i],
                hist + es.take(i + 1),
            ),
    decreases es.len(),
{
    if es.len() > 0 {
        let (m1, a) = install_next(m, es[0]);
        lemma_install_step_sourced(m, hist, es[0]);
        let h1 = hist.push(es[0]);
        let rest = es.drop_first();
        lemma_install_run_sourced(m1, h1, rest);
        let acts = install_run(m, es).1;
        let tail = install_run(m1, rest).1;
        assert(acts == seq![a] + tail);
        assert forall|i: int| 0 <= i < acts.len() implies install_action_sourced(
            #[trigger] acts[i],
            hist + es.take(i + 1),
        ) by {
            if i == 0 {
                assert(hist + es.take(1) == h1);
            } else {
                assert(acts[i] == tail[i - 1]);
                assert(es.take(i + 1) =~= seq![es[0]] + rest.take(i));
                assert(h1 + rest.take(i) =~= hist + es.take(i + 1));
            }
        }
    }
}

/// Over any run of an install, everything an action names comes from what
/// was reported before it: the queue is added with the `dnssd://` URI and
/// display name of the printer that discovery reported; the settings go to
/// the settings file under a reported home and record the plist path under
/// it; the plist written runs a reported executable and logs under that
/// home; the agent loaded, and the log directory reported at the end, are
/// those under that home.
pub proof fn lemma_install_names_what_was_reported(
    printer_name: Seq<char>,
    discovery_timeout: u64,
    use_existing: bool,
    es: Seq<InstallEventView>,
)
    ensures
        forall|i: int|
            0 <= i < install_run(install_start(printer_name, discovery_timeout, use_existing).0, es).1.len()
                ==> install_action_sourced(
                #[trigger] install_run(
                    install_start(printer_name, discovery_timeout, use_existing).0,
                    es,
                ).1[i],
                es.take(i + 1),
            ),
{
    let m = install_start(printer_name, discovery_timeout, use_existing).0;
    let hist = Seq::<InstallEventView>::empty();
    lemma_install_run_sourced(m, hist, es);
    assert forall|i: int| 0 <= i < install_run(m, es).1.len() implies install_action_sourced(
        #[trigger] install_run(m, es).1[i],
        es.take(i + 1),
    ) by {
        assert(hist + es.take(i + 1) == es.take(i + 1));
    }
}


/// Once it knows the executable, an install either asks CUPS for the device
/// URI of its queue (taking over an existing queue) or searches the
/// printer's service types, in order, for "EPSON" within the timeout it
/// was given.
pub proof fn lemma_install_begins_with_inputs(
    printer_name: Seq<char>,
    discovery_timeout: u64,
    use_existing: bool,
    b: Seq<char>,
)
    ensures
        install_start(printer_name, discovery_timeout, use_existing).1 == InstallActionView::LocateBinary,
        use_existing ==> install_next(
            install_start(printer_name, discovery_timeout, use_existing).0,
            InstallEventView::BinaryLocated(b),
        ).1 == InstallActionView::QueryDeviceUri(printer_name),
        !use_existing ==> install_next(
            install_start(printer_name, discovery_timeout, use_existing).0,
            InstallEventView::BinaryLocated(b),
        ).1 == (InstallActionView::Discover {
            service_types: seq!["_pdl-datastream._tcp.local."@, "_ipp._tcp.local."@],
            filter: "EPSON"@,
            timeout_secs: discovery_timeout,
        }),
{
}

/// A missing queue is registered with the PPD model that `lpinfo` offered
/// for "EPSON L3150", or with "everywhere" when it offered none.
pub proof fn lemma_install_uses_offered_ppd(m: InstallModel, p: Option<Seq<char>>, s: PrinterStateView)
    ensures
        m.phase == InstallPhase::QueryingState && s is NotFound ==> install_next(
            m,
            InstallEventView::PrinterStateIs(s),
        ).1 == InstallActionView::FindPpd("EPSON L3150"@),
        m.phase == InstallPhase::FindingPpd ==> (install_next(m, InstallEventView::PpdModel(p)).1
            matches InstallActionView::AddPrinter { ppd_model, .. } && ppd_model == (match p {
            Some(x) => x,
            None => "everywhere"@,
        })),
{
}

/// A queue that CUPS does not have fails the take-over with its name; a
/// failed `launchctl load` fails the install; a successful one ends it.
pub proof fn lemma_install_outcomes(m: InstallModel, ok: bool)
    ensures
        m.phase == InstallPhase::QueryingUri ==> install_next(m, InstallEventView::DeviceUri(None)).1
            == InstallActionView::Fail(InstallErrorView::NotInCups(m.printer_name)),
        m.phase == InstallPhase::LoadingAgent ==> (install_next(
            m,
            InstallEventView::AgentLoaded(ok),
        ).1 is Done <==> ok),
        m.phase == InstallPhase::LoadingAgent && !ok ==> (install_next(
            m,
            InstallEventView::AgentLoaded(ok),
        ).1 is Fail),
{
}


/// Under a home directory `h` that does not end with '/', the watchdog's
/// files are `h/.config/epson-watchdog/config.toml`,
/// `h/Library/LaunchAgents/com.epson.l3150.watchdog.plist` and the log
/// directory `h/Library/Logs/epson-watchdog`.
pub proof fn lemma_paths_under_home(h: Seq<char>)
    requires
        h.len() > 0,
        h.last() != '/',
    ensures
        config_path_of(h) == h + "/.config/epson-watchdog/config.toml"@,
        launchd_plist_path_of(h) == h + "/Library/LaunchAgents/com.epson.l3150.watchdog.plist"@,
        launch_agents_dir_of(h) == h + "/Library/LaunchAgents"@,
        log_dir_path_of(h) == h + "/Library/Logs/epson-watchdog"@,
{
    reveal_strlit(".config");
    reveal_strlit("epson-watchdog");
    reveal_strlit("config.toml");
    reveal_strlit("Library");
    reveal_strlit("LaunchAgents");
    reveal_strlit("Logs");
    reveal_strlit("com.epson.l3150.watchdog.plist");
    reveal_strlit("/.config/epson-watchdog/config.toml");
    reveal_strlit("/Library/LaunchAgents/com.epson.l3150.watchdog.plist");
    reveal_strlit("/Library/LaunchAgents");
    reveal_strlit("/Library/Logs/epson-watchdog");
    let a = join_path(h, ".config"@);
    assert(a == h + seq!['/'] + ".config"@);
    let b = join_path(a, "epson-watchdog"@);
    assert(a.last() == 'g');
    assert(b == a + seq!['/'] + "epson-watchdog"@);
    assert(b.last() == 'g');
    assert(config_path_of(h) =~= h + "/.config/epson-watchdog/config.toml"@);
    let l = join_path(h, "Library"@);
    assert(l.last() == 'y');
    let la = join_path(l, "LaunchAgents"@);
    assert(la.last() == 's');
    assert(launch_agents_dir_of(h) =~= h + "/Library/LaunchAgents"@);
    assert(launchd_plist_path_of(h) =~= h + "/Library/LaunchAgents/com.epson.l3150.watchdog.plist"@);
    let lg = join_path(l, "Logs"@);
    assert(lg.last() == 's');
    assert(log_dir_path_of(h) =~= h + "/Library/Logs/epson-watchdog"@);
}

} // verus!
