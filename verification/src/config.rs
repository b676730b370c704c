//! Settings of the watchdog, and where the files it uses live.

use vstd::prelude::*;
use vstd::string::StringExecFns;

verus! {

/// Settings of the watchdog, saved as `config.toml`.
#[derive(Debug)]
pub struct Config {
    /// CUPS printer queue name, e.g. "EPSON_L3150_Series"
    pub printer_name: String,
    /// mDNS instance name as discovered, e.g. "EPSON L3150 Series"
    pub mdns_instance_name: String,
    /// mDNS hostname for TCP reachability check, e.g. "EPSON-L3150-Series.local."
    pub mdns_hostname: String,
    /// Seconds between each watchdog poll cycle
    pub poll_interval_secs: u64,
    /// Seconds to wait after printer detected before issuing cupsenable
    pub enable_delay_secs: u64,
    /// Path of the launchd plist that was installed
    pub plist_path: String,
}

/// Mathematical model of [`Config`].
pub struct ConfigView {
    pub printer_name: Seq<char>,
    pub mdns_instance_name: Seq<char>,
    pub mdns_hostname: Seq<char>,
    pub poll_interval_secs: u64,
    pub enable_delay_secs: u64,
    pub plist_path: Seq<char>,
}

impl View for Config {
    type V = ConfigView;

    open spec fn view(&self) -> ConfigView {
        ConfigView {
            printer_name: self.printer_name@,
            mdns_instance_name: self.mdns_instance_name@,
            mdns_hostname: self.mdns_hostname@,
            poll_interval_secs: self.poll_interval_secs,
            enable_delay_secs: self.enable_delay_secs,
            plist_path: self.plist_path@,
        }
    }
}

impl Clone for Config {
    fn clone(&self) -> (r: Self)
        ensures
            r@ == self@,
    {
        Config {
            printer_name: self.printer_name.clone(),
            mdns_instance_name: self.mdns_instance_name.clone(),
            mdns_hostname: self.mdns_hostname.clone(),
            poll_interval_secs: self.poll_interval_secs,
            enable_delay_secs: self.enable_delay_secs,
            plist_path: self.plist_path.clone(),
        }
    }
}

/// Seconds between two watchdog polls unless configured otherwise.
pub const DEFAULT_POLL_INTERVAL_SECS: u64 = 30;

/// Seconds between seeing the printer and re-enabling its queue unless
/// configured otherwise.
pub const DEFAULT_ENABLE_DELAY_SECS: u64 = 3;

impl Default for Config {
    fn default() -> (c: Self)
        ensures
            c@ == (ConfigView {
                printer_name: "EPSON_L3150_Series"@,
                mdns_instance_name: "EPSON L3150 Series"@,
                mdns_hostname: Seq::empty(),
                poll_interval_secs: 30,
                enable_delay_secs: 3,
                plist_path: Seq::empty(),
            }),
    {
        Config {
            printer_name: String::from_str("EPSON_L3150_Series"),
            mdns_instance_name: String::from_str("EPSON L3150 Series"),
            mdns_hostname: String::new(),
            poll_interval_secs: DEFAULT_POLL_INTERVAL_SECS,
            enable_delay_secs: DEFAULT_ENABLE_DELAY_SECS,
            plist_path: String::new(),
        }
    }
}

/// `base` extended by the relative component `part`, with a '/' between
/// them unless `base` is empty or already ends with one (`PathBuf::push`).
pub open spec fn join_path(base: Seq<char>, part: Seq<char>) -> Seq<char> {
    if base.len() == 0 || base.last() == '/' {
        base + part
    } else {
        base + seq!['/'] + part
    }
}

/// `base` extended by the relative component `part`.
pub fn join_path_exec(base: &str, part: &str) -> (r: String)
    ensures
        r@ == join_path(base@, part@),
{
    let b = crate::text::chars_of(base);
    let mut r = String::from_str(base);
    if b.len() > 0 && b[b.len() - 1] != '/' {
        r.append("/");
        proof {
            reveal_strlit("/");
        }
        assert("/"@ == seq!['/']);
    }
    r.append(part);
    r
}

/// Where the watchdog's settings live under the home directory `home`.
pub open spec fn config_path_of(home: Seq<char>) -> Seq<char> {
    join_path(join_path(join_path(home, ".config"@), "epson-watchdog"@), "config.toml"@)
}

impl Config {
    /// The path of `config.toml` under the home directory `home`.
    pub fn config_path(home: &str) -> (r: String)
        ensures
            r@ == config_path_of(home@),
    {
        let a = join_path_exec(home, ".config");
        let b = join_path_exec(a.as_str(), "epson-watchdog");
        join_path_exec(b.as_str(), "config.toml")
    }
}


/// The decimal digit for `d < 10`.
pub open spec fn digit_char(d: int) -> char {
    (d + 48) as char
}

/// The decimal numeral of `n`, without leading zeros.
pub open spec fn decimal(n: nat) -> Seq<char>
    decreases n,
{
    if n < 10 {
        seq![digit_char(n as int)]
    } else {
        decimal(n / 10) + seq![digit_char((n % 10) as int)]
    }
}

/// Appends the decimal numeral of `n` to `out`.
pub fn push_decimal(out: &mut String, n: u64)
    ensures
        final(out)@ == old(out)@ + decimal(n as nat),
    decreases n,
{
    if n >= 10 {
        push_decimal(out, n / 10);
    }
    let d = (n % 10) as u8;
    let c = (d + 48) as char;
    assert(c == digit_char((n % 10) as int));
    crate::text::push_char(out, c);
}

/// The lines that describe the settings in the status report.
pub open spec fn status_report_of(c: ConfigView) -> Seq<char> {
    "Watchdog config:\n"@
        + "  printer_name:       "@ + c.printer_name + "\n"@
        + "  mdns_instance_name: "@ + c.mdns_instance_name + "\n"@
        + "  mdns_hostname:      "@ + c.mdns_hostname + "\n"@
        + "  poll_interval_secs: "@ + decimal(c.poll_interval_secs as nat) + "\n"@
        + "  plist_path:         "@ + c.plist_path + "\n"@
}

impl Config {
    /// The lines that describe these settings in the status report.
    pub fn status_report(&self) -> (r: String)
        ensures
            r@ == status_report_of(self@),
    {
        let mut r = String::from_str("Watchdog config:\n");
        r.append("  printer_name:       ");
        r.append(self.printer_name.as_str());
        r.append("\n");
        r.append("  mdns_instance_name: ");
        r.append(self.mdns_instance_name.as_str());
        r.append("\n");
        r.append("  mdns_hostname:      ");
        r.append(self.mdns_hostname.as_str());
        r.append("\n");
        r.append("  poll_interval_secs: ");
        push_decimal(&mut r, self.poll_interval_secs);
        r.append("\n");
        r.append("  plist_path:         ");
        r.append(self.plist_path.as_str());
        r.append("\n");
        r
    }
}

} // verus!
