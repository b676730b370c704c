//! The printer as mDNS shows it, and the decisions of an mDNS search.

use vstd::prelude::*;
use vstd::string::StringExecFns;
use crate::config::{decimal, push_decimal};
use crate::text::{
    chars_of, contains, contains_exec, find, find_from_exec, lemma_find_iff_contains, lowercase,
    occurs_at, replace, replace_exec, string_from, to_lowercase,
};

verus! {

/// A printer found on the network by mDNS.
#[derive(Debug)]
pub struct PrinterInfo {
    /// mDNS instance name, e.g. "EPSON L3150 Series"
    pub instance_name: String,
    /// mDNS hostname, e.g. "EPSON-L3150-Series.local."
    pub hostname: String,
    /// TCP port
    pub port: u16,
    /// Resolved IPv4 addresses, each as the `u32` whose big-endian bytes are
    /// its octets, in ascending order
    pub addresses: Vec<u32>,
    /// Service type that matched
    pub service_type: String,
}

/// Mathematical model of [`PrinterInfo`].
pub struct PrinterInfoView {
    pub instance_name: Seq<char>,
    pub hostname: Seq<char>,
    pub port: u16,
    pub addresses: Seq<u32>,
    pub service_type: Seq<char>,
}

impl View for PrinterInfo {
    type V = PrinterInfoView;

    open spec fn view(&self) -> PrinterInfoView {
        PrinterInfoView {
            instance_name: self.instance_name@,
            hostname: self.hostname@,
            port: self.port,
            addresses: self.addresses@,
            service_type: self.service_type@,
        }
    }
}

impl Clone for PrinterInfo {
    fn clone(&self) -> (r: Self)
        ensures
            r@ == self@,
    {
        let addresses = self.addresses.clone();
        assert(addresses@ =~= self.addresses@);
        PrinterInfo {
            instance_name: self.instance_name.clone(),
            hostname: self.hostname.clone(),
            port: self.port,
            addresses,
            service_type: self.service_type.clone(),
        }
    }
}

/// The `dnssd://` URI under which CUPS reaches the printer instance `name`:
/// spaces become "%20".
pub open spec fn dnssd_uri_of(name: Seq<char>) -> Seq<char> {
    "dnssd://"@ + replace(name, seq![' '], "%20"@) + "._pdl-datastream._tcp.local./?bidi"@
}

impl PrinterInfo {
    /// Returns dnssd:// URI suitable for CUPS lpadmin -v
    pub fn dnssd_uri(&self) -> (r: String)
        ensures
            r@ == dnssd_uri_of(self.instance_name@),
    {
        let name = chars_of(self.instance_name.as_str());
        let space = vec![' '];
        assert(space@ == seq![' ']);
        let encoded = replace_exec(&name, &space, "%20");
        let mut r = String::from_str("dnssd://");
        r.append(encoded.as_str());
        r.append("._pdl-datastream._tcp.local./?bidi");
        r
    }
}

/// The part of a DNS-SD name before its service type: what precedes the
/// first "._", or else what precedes the first '.'.
pub open spec fn instance_part(s: Seq<char>) -> Seq<char> {
    match find(s, "._"@) {
        Some(p) => s.take(p),
        None => match find(s, seq!['.']) {
            Some(q) => s.take(q),
            None => s,
        },
    }
}

/// Length of [`instance_part`] of `s`.
pub(crate) fn instance_part_len(s: &Vec<char>) -> (n: usize)
    ensures
        n <= s@.len(),
        s@.take(n as int) == instance_part(s@),
{
    let marker = chars_of("._");
    proof {
        reveal_strlit("._");
    }
    match find_from_exec(s, &marker, 0) {
        Some(p) => {
            proof {
                lemma_find_iff_contains(s@, marker@);
            }
            p
        },
        None => {
            let dot = vec!['.'];
            assert(dot@ == seq!['.']);
            match find_from_exec(s, &dot, 0) {
                Some(q) => {
                    proof {
                        lemma_find_iff_contains(s@, dot@);
                    }
                    q
                },
                None => {
                    assert(s@.take(s@.len() as int) == s@);
                    s.len()
                },
            }
        },
    }
}

/// Extract bare instance name from mDNS fullname.
/// "EPSON L3150 Series._pdl-datastream._tcp.local." → "EPSON L3150 Series"
pub fn instance_from_fullname(fullname: &str) -> (r: String)
    ensures
        r@ == instance_part(fullname@),
{
    let s = chars_of(fullname);
    let n = instance_part_len(&s);
    let r = string_from(&s, 0, n);
    assert(s@.subrange(0, n as int) == s@.take(n as int));
    r
}

/// IPv4 addresses in ascending order.
pub open spec fn sorted(s: Seq<u32>) -> bool {
    forall|i: int, j: int| 0 <= i < j < s.len() ==> s[i] <= s[j]
}

/// The IPv4 addresses of a resolved service, in ascending order; each
/// address is the `u32` whose big-endian bytes are its octets, so that this
/// order is that of `Ipv4Addr`.
pub fn extract_addresses(addresses: Vec<u32>) -> (r: Vec<u32>)
    ensures
        sorted(r@),
        r@.to_multiset() == addresses@.to_multiset(),
{
    let mut r: Vec<u32> = Vec::new();
    let mut i: usize = 0;
    proof {
        assert(addresses@.take(0) =~= Seq::<u32>::empty());
        r@.to_multiset_ensures();
        addresses@.take(0).to_multiset_ensures();
        assert(r@.to_multiset() =~= addresses@.take(0).to_multiset());
    }
    while i < addresses.len()
        invariant
            i <= addresses.len(),
            sorted(r@),
            r@.to_multiset() == addresses@.take(i as int).to_multiset(),
        decreases addresses.len() - i,
    {
        let a = addresses[i];
        let mut k: usize = 0;
        while k < r.len() && r[k] <= a
            invariant
                k <= r.len(),
                forall|j: int| 0 <= j < k ==> r@[j] <= a,
            decreases r.len() - k,
        {
            k = k + 1;
        }
        let ghost old_r = r@;
        r.insert(k, a);
        proof {
            old_r.insert_ensures(k as int, a);
            assert(r@.remove(k as int) =~= old_r);
            vstd::seq_lib::to_multiset_remove(r@, k as int);
            r@.to_multiset_ensures();
            assert(r@.contains(a)) by {
                assert(r@[k as int] == a);
            }
            assert(r@.to_multiset() =~= old_r.to_multiset().insert(a));
            assert(addresses@.take(i + 1) == addresses@.take(i as int).push(a));
            addresses@.take(i as int).to_multiset_ensures();
            assert forall|x: int, y: int| 0 <= x < y < r@.len() implies r@[x] <= r@[y] by {
                if y < k {
                } else if x < k && y == k {
                } else if x < k {
                    assert(old_r[x] <= old_r[y - 1]);
                } else if x == k {
                    if k < old_r.len() {
                        assert(a < old_r[k as int]);
                        assert(old_r[k as int] <= old_r[y - 1]);
                    }
                } else {
                    assert(old_r[x - 1] <= old_r[y - 1]);
                }
            }
        }
        i = i + 1;
    }
    assert(addresses@.take(addresses.len() as int) == addresses@);
    r
}


// ───────────────────────────── mDNS search ─────────────────────────────

/// A service that mDNS found and resolved, as plain values.
#[derive(Debug)]
pub struct ServiceRecord {
    /// Full DNS-SD name, e.g. "EPSON L3150 Series._pdl-datastream._tcp.local."
    pub fullname: String,
    /// Host name of the service
    pub hostname: String,
    /// TCP port of the service
    pub port: u16,
    /// IPv4 addresses of the host, as from [`extract_addresses`]
    pub addresses: Vec<u32>,
}

/// Mathematical model of [`ServiceRecord`].
pub struct ServiceRecordView {
    pub fullname: Seq<char>,
    pub hostname: Seq<char>,
    pub port: u16,
    pub addresses: Seq<u32>,
}

impl View for ServiceRecord {
    type V = ServiceRecordView;

    open spec fn view(&self) -> ServiceRecordView {
        ServiceRecordView {
            fullname: self.fullname@,
            hostname: self.hostname@,
            port: self.port,
            addresses: self.addresses@,
        }
    }
}

/// What a search is for: finding the printer, where a service type that
/// cannot be browsed is an error, or only checking that it is present, where
/// such a type is skipped.
#[derive(Debug, PartialEq, Eq, Structural, Clone, Copy)]
pub enum SearchMode {
    Discover,
    Presence,
}

/// What the outside world reports to a search after its last action.
#[derive(Debug)]
pub enum SearchEvent {
    /// Browsing the requested service type began
    BrowseStarted,
    /// Browsing the requested service type could not begin
    BrowseFailed,
    /// A service of the browsed type was resolved
    Resolved(ServiceRecord),
    /// Some other mDNS event arrived
    OtherEvent,
    /// The time for this service type ran out, or the event channel closed
    Ended,
    /// Browsing the service type was stopped
    Stopped,
}

/// Mathematical model of [`SearchEvent`].
pub enum SearchEventView {
    BrowseStarted,
    BrowseFailed,
    Resolved(ServiceRecordView),
    OtherEvent,
    Ended,
    Stopped,
}

impl View for SearchEvent {
    type V = SearchEventView;

    open spec fn view(&self) -> SearchEventView {
        match self {
            SearchEvent::BrowseStarted => SearchEventView::BrowseStarted,
            SearchEvent::BrowseFailed => SearchEventView::BrowseFailed,
            SearchEvent::Resolved(r) => SearchEventView::Resolved(r@),
            SearchEvent::OtherEvent => SearchEventView::OtherEvent,
            SearchEvent::Ended => SearchEventView::Ended,
            SearchEvent::Stopped => SearchEventView::Stopped,
        }
    }
}

/// How a search ends.
#[derive(Debug)]
pub enum SearchOutcome {
    /// A service whose name matches the filter was resolved
    Found(PrinterInfo),
    /// No service type yielded a match in time
    NotFound,
    /// This service type could not be browsed (`Discover` only)
    BrowseFailed(String),
}

/// Mathematical model of [`SearchOutcome`].
pub enum SearchOutcomeView {
    Found(PrinterInfoView),
    NotFound,
    BrowseFailed(Seq<char>),
}

impl View for SearchOutcome {
    type V = SearchOutcomeView;

    open spec fn view(&self) -> SearchOutcomeView {
        match self {
            SearchOutcome::Found(i) => SearchOutcomeView::Found(i@),
            SearchOutcome::NotFound => SearchOutcomeView::NotFound,
            SearchOutcome::BrowseFailed(t) => SearchOutcomeView::BrowseFailed(t@),
        }
    }
}

/// What a search asks the outside world to do next.
#[derive(Debug)]
pub enum SearchAction {
    /// Start browsing this service type, and report whether it began
    Browse(String),
    /// Wait for the next mDNS event until this type's time runs out
    Receive,
    /// Stop browsing this service type, and report that
    StopBrowse(String),
    /// The search is over
    Finish(SearchOutcome),
    /// The event did not fit what the search waited for; nothing to do
    Ignored,
}

/// Mathematical model of [`SearchAction`].
pub enum SearchActionView {
    Browse(Seq<char>),
    Receive,
    StopBrowse(Seq<char>),
    Finish(SearchOutcomeView),
    Ignored,
}

impl View for SearchAction {
    type V = SearchActionView;

    open spec fn view(&self) -> SearchActionView {
        match self {
            SearchAction::Browse(t) => SearchActionView::Browse(t@),
            SearchAction::Receive => SearchActionView::Receive,
            SearchAction::StopBrowse(t) => SearchActionView::StopBrowse(t@),
            SearchAction::Finish(o) => SearchActionView::Finish(o@),
            SearchAction::Ignored => SearchActionView::Ignored,
        }
    }
}

/// Where a search stands.
#[derive(Debug, PartialEq, Eq, Structural, Clone, Copy)]
pub enum SearchPhase {
    /// Waiting to hear whether browsing the current type began
    AwaitBrowse,
    /// Receiving events of the current type
    Receiving,
    /// Waiting for browsing the current type to stop
    AwaitStop,
    /// Over
    Done,
}

#[derive(Debug, Clone, Copy)]
struct Cursor {
    index: usize,
    phase: SearchPhase,
}

/// A search for the printer over a list of mDNS service types, tried in
/// order, each until its time runs out.
#[derive(Debug)]
pub struct PrinterSearch {
    service_types: Vec<String>,
    filter: Vec<char>,
    mode: SearchMode,
    cursor: Cursor,
    found: Option<PrinterInfo>,
}

/// Mathematical model of [`PrinterSearch`].
pub struct SearchModel {
    /// The service types, in the order they are tried
    pub types: Seq<Seq<char>>,
    /// The lowercased instance filter
    pub filter: Seq<char>,
    pub mode: SearchMode,
    /// The service type being tried
    pub index: int,
    pub phase: SearchPhase,
    /// The printer matched in the current type, while its browse is stopped
    pub found: Option<PrinterInfoView>,
}

/// The views of a list of strings.
pub open spec fn string_views(v: Seq<String>) -> Seq<Seq<char>> {
    v.map_values(|s: String| s@)
}

impl View for PrinterSearch {
    type V = SearchModel;

    closed spec fn view(&self) -> SearchModel {
        SearchModel {
            types: string_views(self.service_types@),
            filter: self.filter@,
            mode: self.mode,
            index: self.cursor.index as int,
            phase: self.cursor.phase,
            found: match self.found {
                Some(i) => Some(i@),
                None => None,
            },
        }
    }
}

/// The fullname of a resolved service matches the lowercased filter: its
/// lowercase form contains it.
pub open spec fn matches_filter(fullname: Seq<char>, filter_lower: Seq<char>) -> bool {
    contains(lowercase(fullname), filter_lower)
}

/// The printer that a resolved service of type `service_type` describes.
pub open spec fn info_of(r: ServiceRecordView, service_type: Seq<char>) -> PrinterInfoView {
    PrinterInfoView {
        instance_name: instance_part(r.fullname),
        hostname: r.hostname,
        port: r.port,
        addresses: r.addresses,
        service_type,
    }
}

/// The first step of a search over `types`.
pub open spec fn search_start(types: Seq<Seq<char>>, filter_lower: Seq<char>, mode: SearchMode) -> (
    SearchModel,
    SearchActionView,
) {
    let m = SearchModel { types, filter: filter_lower, mode, index: 0, phase: SearchPhase::AwaitBrowse, found: None };
    if types.len() > 0 {
        (m, SearchActionView::Browse(types[0]))
    } else {
        (SearchModel { phase: SearchPhase::Done, ..m }, SearchActionView::Finish(SearchOutcomeView::NotFound))
    }
}

/// Leaving the current service type: on to the next, or not found after the
/// last.
pub open spec fn search_advance(m: SearchModel) -> (SearchModel, SearchActionView) {
    if m.index + 1 < m.types.len() {
        (
            SearchModel { index: m.index + 1, phase: SearchPhase::AwaitBrowse, found: None, ..m },
            SearchActionView::Browse(m.types[m.index + 1]),
        )
    } else {
        (
            SearchModel { phase: SearchPhase::Done, found: None, ..m },
            SearchActionView::Finish(SearchOutcomeView::NotFound),
        )
    }
}

/// One step of a search: from where it stands and what was reported, where
/// it stands next and what it asks for.
pub open spec fn search_next(m: SearchModel, e: SearchEventView) -> (SearchModel, SearchActionView) {
    match (m.phase, e) {
        (SearchPhase::AwaitBrowse, SearchEventView::BrowseStarted) => (
            SearchModel { phase: SearchPhase::Receiving, ..m },
            SearchActionView::Receive,
        ),
        (SearchPhase::AwaitBrowse, SearchEventView::BrowseFailed) => match m.mode {
            SearchMode::Discover => (
                SearchModel { phase: SearchPhase::Done, ..m },
                SearchActionView::Finish(SearchOutcomeView::BrowseFailed(m.types[m.index])),
            ),
            SearchMode::Presence => search_advance(m),
        },
        (SearchPhase::Receiving, SearchEventView::Resolved(r)) => if matches_filter(
            r.fullname,
            m.filter,
        ) {
            (
                SearchModel {
                    phase: SearchPhase::AwaitStop,
                    found: Some(info_of(r, m.types[m.index])),
                    ..m
                },
                SearchActionView::StopBrowse(m.types[m.index]),
            )
        } else {
            (m, SearchActionView::Receive)
        },
        (SearchPhase::Receiving, SearchEventView::OtherEvent) => (m, SearchActionView::Receive),
        (SearchPhase::Receiving, SearchEventView::Ended) => (
            SearchModel { phase: SearchPhase::AwaitStop, found: None, ..m },
            SearchActionView::StopBrowse(m.types[m.index]),
        ),
        (SearchPhase::AwaitStop, SearchEventView::Stopped) => match m.found {
            Some(i) => (
                SearchModel { phase: SearchPhase::Done, found: None, ..m },
                SearchActionView::Finish(SearchOutcomeView::Found(i)),
            ),
            None => search_advance(m),
        },
        _ => (m, SearchActionView::Ignored),
    }
}

impl PrinterSearch {
    #[verifier::type_invariant]
    closed spec fn cursor_in_range(&self) -> bool {
        &&& self.cursor.phase != SearchPhase::Done ==> self.cursor.index < self.service_types.len()
        &&& search_wf(self@)
    }

    /// Begins a search for a service whose fullname contains
    /// `instance_filter`, ignoring case, under each of `service_types` in turn.
    pub fn new(service_types: Vec<String>, instance_filter: &str, mode: SearchMode) -> (r: (
        PrinterSearch,
        SearchAction,
    ))
        ensures
            (r.0@, r.1@) == search_start(
                string_views(service_types@),
                lowercase(instance_filter@),
                mode,
            ),
            search_wf(r.0@),
            r.0@.filter == lowercase(instance_filter@),
            r.0@.types == string_views(service_types@),
            r.0@.mode == mode,
    {
        let lower = to_lowercase(instance_filter);
        let filter = chars_of(lower.as_str());
        if service_types.len() > 0 {
            let first = service_types[0].clone();
            let s = PrinterSearch {
                service_types,
                filter,
                mode,
                cursor: Cursor { index: 0, phase: SearchPhase::AwaitBrowse },
                found: None,
            };
            (s, SearchAction::Browse(first))
        } else {
            let s = PrinterSearch {
                service_types,
                filter,
                mode,
                cursor: Cursor { index: 0, phase: SearchPhase::Done },
                found: None,
            };
            (s, SearchAction::Finish(SearchOutcome::NotFound))
        }
    }

    /// Leaves the current service type.
    fn advance(&mut self) -> (action: SearchAction)
        requires
            old(self).cursor.phase != SearchPhase::Done,
        ensures
            (final(self)@, action@) == search_advance(old(self)@),
    {
        proof {
            use_type_invariant(&*self);
        }
        self.found = None;
        let next = self.cursor.index + 1;
        if next < self.service_types.len() {
            self.cursor = Cursor { index: next, phase: SearchPhase::AwaitBrowse };
            SearchAction::Browse(self.service_types[next].clone())
        } else {
            self.cursor = Cursor { index: self.cursor.index, phase: SearchPhase::Done };
            SearchAction::Finish(SearchOutcome::NotFound)
        }
    }

    /// One step of the search: takes what the outside world reported after
    /// the last action and returns the next action.
    pub fn step(&mut self, event: SearchEvent) -> (action: SearchAction)
        ensures
            (final(self)@, action@) == search_next(old(self)@, event@),
            search_wf(old(self)@),
            search_wf(final(self)@),
    {
        proof {
            use_type_invariant(&*self);
        }
        let index = self.cursor.index;
        match (self.cursor.phase, event) {
            (SearchPhase::AwaitBrowse, SearchEvent::BrowseStarted) => {
                self.cursor = Cursor { index, phase: SearchPhase::Receiving };
                SearchAction::Receive
            },
            (SearchPhase::AwaitBrowse, SearchEvent::BrowseFailed) => match self.mode {
                SearchMode::Discover => {
                    let t = self.service_types[index].clone();
                    self.cursor = Cursor { index, phase: SearchPhase::Done };
                    SearchAction::Finish(SearchOutcome::BrowseFailed(t))
                },
                SearchMode::Presence => self.advance(),
            },
            (SearchPhase::Receiving, SearchEvent::Resolved(r)) => {
                let ghost rv = r@;
                let lower = to_lowercase(r.fullname.as_str());
                let name = chars_of(lower.as_str());
                if contains_exec(&name, &self.filter) {
                    let t = self.service_types[index].clone();
                    let info = PrinterInfo {
                        instance_name: instance_from_fullname(r.fullname.as_str()),
                        hostname: r.hostname,
                        port: r.port,
                        addresses: r.addresses,
                        service_type: self.service_types[index].clone(),
                    };
                    self.cursor = Cursor { index, phase: SearchPhase::AwaitStop };
                    assert(matches_filter(rv.fullname, self@.filter));
                    assert(info@ == info_of(rv, self@.types[index as int]));
                    assert(described_by_match(info@, self@.filter, self@.types[index as int]));
                    self.found = Some(info);
                    SearchAction::StopBrowse(t)
                } else {
                    SearchAction::Receive
                }
            },
            (SearchPhase::Receiving, SearchEvent::OtherEvent) => SearchAction::Receive,
            (SearchPhase::Receiving, SearchEvent::Ended) => {
                self.cursor = Cursor { index, phase: SearchPhase::AwaitStop };
                SearchAction::StopBrowse(self.service_types[index].clone())
            },
            (SearchPhase::AwaitStop, SearchEvent::Stopped) => {
                match &self.found {
                    Some(info) => {
                        let info = info.clone();
                        self.found = None;
                        self.cursor = Cursor { index, phase: SearchPhase::Done };
                        SearchAction::Finish(SearchOutcome::Found(info))
                    },
                    None => self.advance(),
                }
            },
            _ => SearchAction::Ignored,
        }
    }
}


// ───────────────────────────── laws of the search ─────────────────────────────

/// What every reachable search satisfies: outside `Done` the current index
/// names a service type, and a printer is held only while its browse is being
/// stopped, and only one that a resolved service matching the filter described.
pub open spec fn search_wf(m: SearchModel) -> bool {
    &&& m.phase != SearchPhase::Done ==> 0 <= m.index < m.types.len()
    &&& m.found matches Some(i) ==> {
        &&& m.phase == SearchPhase::AwaitStop
        &&& described_by_match(i, m.filter, m.types[m.index])
    }
}

/// `i` is the printer that some resolved service of type `t`, whose name
/// matches `filter`, describes.
pub open spec fn described_by_match(i: PrinterInfoView, filter: Seq<char>, t: Seq<char>) -> bool {
    exists|r: ServiceRecordView| #[trigger] matches_filter(r.fullname, filter) && i == info_of(r, t)
}

/// A new search satisfies [`search_wf`].
pub proof fn lemma_search_start_wf(types: Seq<Seq<char>>, filter_lower: Seq<char>, mode: SearchMode)
    ensures
        search_wf(search_start(types, filter_lower, mode).0),
{
}

/// Every step keeps [`search_wf`].
pub proof fn lemma_search_step_wf(m: SearchModel, e: SearchEventView)
    requires
        search_wf(m),
    ensures
        search_wf(search_next(m, e).0),
{
    if let SearchEventView::Resolved(r) = e {
        if m.phase == SearchPhase::Receiving && matches_filter(r.fullname, m.filter) {
            let n = search_next(m, e).0;
            assert(n.found == Some(info_of(r, m.types[m.index])));
            assert(n.types == m.types && n.index == m.index && n.filter == m.filter);
            assert(described_by_match(n.found->0, n.filter, n.types[n.index]));
        }
    }
}

/// A search reports as found only a printer that a resolved service whose
/// name matches the filter, ignoring case, described, under one of the
/// service types it was given.
pub proof fn lemma_found_matches_filter(m: SearchModel, e: SearchEventView)
    requires
        search_wf(m),
        search_next(m, e).1 matches SearchActionView::Finish(SearchOutcomeView::Found(_)),
    ensures
        search_next(m, e).1 matches SearchActionView::Finish(SearchOutcomeView::Found(i)) && exists|
            r: ServiceRecordView,
        | #[trigger] matches_filter(r.fullname, m.filter) && i == info_of(r, m.types[m.index])
            && m.types.contains(i.service_type),
{
    let i = m.found->0;
    assert(m.types[m.index] == i.service_type);
    assert(m.types.contains(i.service_type));
}

/// A browse that has begun is always stopped before the search moves on or
/// ends: while receiving, the only actions are to receive more or to stop
/// browsing the current type.
pub proof fn lemma_browse_always_stopped(m: SearchModel, e: SearchEventView)
    requires
        m.phase == SearchPhase::Receiving,
    ensures
        search_next(m, e).1 matches SearchActionView::Receive || search_next(m, e).1
            == SearchActionView::StopBrowse(m.types[m.index]) || search_next(m, e).1
            matches SearchActionView::Ignored,
        search_next(m, e).0.index == m.index,
{
}

/// Service types are tried in the given order, each at most once: a step
/// stays on the current type or browses the next one.
pub proof fn lemma_types_tried_in_order(m: SearchModel, e: SearchEventView)
    requires
        search_wf(m),
    ensures
        search_next(m, e).0.index == m.index || (search_next(m, e).0.index == m.index + 1
            && search_next(m, e).1 == SearchActionView::Browse(m.types[m.index + 1])),
        search_next(m, e).1 matches SearchActionView::Browse(t) ==> t == m.types[search_next(
            m,
            e,
        ).0.index],
{
}

/// A presence check never fails: a service type that cannot be browsed is
/// skipped, and the check ends found or not found.
pub proof fn lemma_presence_never_fails(m: SearchModel, e: SearchEventView)
    requires
        m.mode == SearchMode::Presence,
    ensures
        !(search_next(m, e).1 matches SearchActionView::Finish(SearchOutcomeView::BrowseFailed(_))),
{
}

/// A search ends not found only when it leaves the last service type.
pub proof fn lemma_not_found_only_after_last_type(m: SearchModel, e: SearchEventView)
    requires
        search_wf(m),
        search_next(m, e).1 matches SearchActionView::Finish(SearchOutcomeView::NotFound),
    ensures
        m.index == m.types.len() - 1,
{
}



/// A new search looks under exactly the given service types, in the given
/// mode, for exactly the given (lowercased) filter, beginning with the first
/// type.
pub proof fn lemma_search_start_takes_inputs(types: Seq<Seq<char>>, filter_lower: Seq<char>, mode: SearchMode)
    ensures
        search_start(types, filter_lower, mode).0.filter == filter_lower,
        search_start(types, filter_lower, mode).0.types == types,
        search_start(types, filter_lower, mode).0.mode == mode,
        types.len() > 0 ==> search_start(types, filter_lower, mode).1 == SearchActionView::Browse(types[0]),
        types.len() == 0 ==> search_start(types, filter_lower, mode).1 == SearchActionView::Finish(
            SearchOutcomeView::NotFound,
        ),
{
}

/// Action `a` reports found only a printer that a resolved service of one
/// of `types`, whose lowercased fullname contains all of `filter_lower`,
/// describes.
pub open spec fn found_matches(a: SearchActionView, filter_lower: Seq<char>, types: Seq<Seq<char>>) -> bool {
    match a {
        SearchActionView::Finish(SearchOutcomeView::Found(i)) => exists|t: Seq<char>|
            #[trigger] types.contains(t) && described_by_match(i, filter_lower, t),
        _ => true,
    }
}

proof fn lemma_search_run_found(m: SearchModel, es: Seq<SearchEventView>)
    requires
        search_wf(m),
    ensures
        forall|i: int|
            0 <= i < search_run(m, es).1.len() ==> found_matches(
                #[trigger] search_run(m, es).1[i],
                m.filter,
                m.types,
            ),
    decreases es.len(),
{
    if es.len() > 0 {
        let (m1, a) = search_next(m, es[0]);
        lemma_search_step_wf(m, es[0]);
        if a matches SearchActionView::Finish(SearchOutcomeView::Found(i)) {
            lemma_found_matches_filter(m, es[0]);
            assert(m.types.contains(m.types[m.index]));
        }
        assert(found_matches(a, m.filter, m.types));
        assert(m1.filter == m.filter && m1.types == m.types);
        let rest = es.drop_first();
        lemma_search_run_found(m1, rest);
        let acts = search_run(m, es).1;
        let tail = search_run(m1, rest).1;
        assert(acts == seq![a] + tail);
        assert forall|i: int| 0 <= i < acts.len() implies found_matches(
            #[trigger] acts[i],
            m.filter,
            m.types,
        ) by {
            if i > 0 {
                assert(acts[i] == tail[i - 1]);
            }
        }
    }
}

/// Over any run of a search for `filter_lower`, every printer reported
/// found was described by a resolved service of one of the given types
/// whose lowercased fullname contains the whole of `filter_lower`.
pub proof fn lemma_search_finds_only_filter_matches(
    types: Seq<Seq<char>>,
    filter_lower: Seq<char>,
    mode: SearchMode,
    es: Seq<SearchEventView>,
)
    ensures
        forall|i: int|
            0 <= i < search_run(search_start(types, filter_lower, mode).0, es).1.len()
                ==> found_matches(
                #[trigger] search_run(search_start(types, filter_lower, mode).0, es).1[i],
                filter_lower,
                types,
            ),
{
    lemma_search_start_wf(types, filter_lower, mode);
    lemma_search_run_found(search_start(types, filter_lower, mode).0, es);
}

/// The event that a search in phase `p` waits for.
pub open spec fn search_awaits(p: SearchPhase, e: SearchEventView) -> bool {
    match p {
        SearchPhase::AwaitBrowse => e is BrowseStarted || e is BrowseFailed,
        SearchPhase::Receiving => e is Resolved || e is OtherEvent || e is Ended,
        SearchPhase::AwaitStop => e is Stopped,
        SearchPhase::Done => false,
    }
}

/// A search never ignores a report it waits for; any other report changes
/// nothing and is answered `Ignored`.
pub proof fn lemma_search_answers_awaited(m: SearchModel, e: SearchEventView)
    ensures
        search_awaits(m.phase, e) ==> !(search_next(m, e).1 is Ignored),
        !search_awaits(m.phase, e) ==> search_next(m, e) == (m, SearchActionView::Ignored),
{
}

/// A resolved service that does not match the filter is passed over: the
/// search keeps receiving; one that matches stops the browse of the current
/// type and is held as found.
pub proof fn lemma_resolved_matches_decide(m: SearchModel, r: ServiceRecordView)
    requires
        m.phase == SearchPhase::Receiving,
    ensures
        !contains(lowercase(r.fullname), m.filter) ==> search_next(m, SearchEventView::Resolved(r))
            == (m, SearchActionView::Receive),
        contains(lowercase(r.fullname), m.filter) ==> search_next(
            m,
            SearchEventView::Resolved(r),
        ).1 == SearchActionView::StopBrowse(m.types[m.index]) && (search_next(
            m,
            SearchEventView::Resolved(r),
        ).0.found matches Some(i) && i.instance_name == instance_part(r.fullname) && i.hostname
            == r.hostname && i.port == r.port && i.addresses == r.addresses && i.service_type
            == m.types[m.index]),
{
}

/// The instance part of a DNS-SD name is a prefix of it that holds no "._"
/// and ends where the name's first "._" begins, or, without one, where its
/// first '.' begins.
pub proof fn lemma_instance_part_is_prefix(s: Seq<char>)
    ensures
        s.take(instance_part(s).len() as int) == instance_part(s),
        instance_part(s).len() <= s.len(),
        !contains(instance_part(s), "._"@),
        contains(s, "._"@) ==> occurs_at(s, "._"@, instance_part(s).len() as int),
        !contains(s, "._"@) && instance_part(s).len() < s.len() ==> s[instance_part(s).len() as int]
            == '.',
{
    reveal_strlit("._");
    lemma_find_iff_contains(s, "._"@);
    lemma_find_iff_contains(s, seq!['.']);
    let p = instance_part(s);
    if let Some(k) = find(s, "._"@) {
        assert(p == s.take(k));
        if contains(p, "._"@) {
            let j = choose|j: int| occurs_at(p, "._"@, j);
            assert(p.subrange(j, j + 2) == s.subrange(j, j + 2));
            assert(occurs_at(s, "._"@, j));
        }
    } else if let Some(q) = find(s, seq!['.']) {
        assert(occurs_at(s, seq!['.'], q));
        assert(s[q] == s.subrange(q, q + 1)[0]);
        if contains(p, "._"@) {
            let j = choose|j: int| occurs_at(p, "._"@, j);
            assert(p.subrange(j, j + 2) == s.subrange(j, j + 2));
            assert(occurs_at(s, "._"@, j));
        }
    } else {
        assert(s.take(s.len() as int) == s);
    }
}

// ───────────────────────────── search reports ─────────────────────────────

/// What a discovery that ended not found reports.
pub open spec fn not_found_message_of(instance_filter: Seq<char>, timeout_secs: u64) -> Seq<char> {
    "Printer matching '"@ + instance_filter + "' not found after "@ + decimal(timeout_secs as nat)
        + "s. Is it powered on and on Wi-Fi?"@
}

/// The error of a discovery for `instance_filter` that ended not found after
/// `timeout_secs` seconds per service type.
pub fn not_found_message(instance_filter: &str, timeout_secs: u64) -> (r: String)
    ensures
        r@ == not_found_message_of(instance_filter@, timeout_secs),
{
    let mut r = String::from_str("Printer matching '");
    r.append(instance_filter);
    r.append("' not found after ");
    push_decimal(&mut r, timeout_secs);
    r.append("s. Is it powered on and on Wi-Fi?");
    r
}

/// What a discovery that could not browse `service_type` reports, given the
/// text of the mDNS error.
pub open spec fn browse_failed_message_of(service_type: Seq<char>, error: Seq<char>) -> Seq<char> {
    "Failed to browse "@ + service_type + ": "@ + error
}

/// The error of a discovery that could not browse `service_type`, given the
/// text of the mDNS error.
pub fn browse_failed_message(service_type: &str, error: &str) -> (r: String)
    ensures
        r@ == browse_failed_message_of(service_type@, error@),
{
    let mut r = String::from_str("Failed to browse ");
    r.append(service_type);
    r.append(": ");
    r.append(error);
    r
}

// ───────────────────────────── runs of a search ─────────────────────────────

/// Where a search stands after the events `es`, and the actions it asked for
/// along the way, one per event.
pub open spec fn search_run(m: SearchModel, es: Seq<SearchEventView>) -> (SearchModel, Seq<
    SearchActionView,
>)
    decreases es.len(),
{
    if es.len() == 0 {
        (m, Seq::empty())
    } else {
        let (m1, a) = search_next(m, es[0]);
        let (m2, rest) = search_run(m1, es.drop_first());
        (m2, seq![a] + rest)
    }
}

/// `m` with its mode replaced by `mode`.
pub open spec fn with_mode(m: SearchModel, mode: SearchMode) -> SearchModel {
    SearchModel { mode, ..m }
}

/// A presence check agrees with a discovery for as long as every browse
/// starts: over the same events they ask for the same actions, so the check
/// finds the printer exactly when the discovery does.
pub proof fn lemma_presence_agrees_with_discovery(m: SearchModel, es: Seq<SearchEventView>)
    requires
        forall|i: int| 0 <= i < es.len() ==> !(#[trigger] es[i] is BrowseFailed),
    ensures
        search_run(with_mode(m, SearchMode::Presence), es).1 == search_run(
            with_mode(m, SearchMode::Discover),
            es,
        ).1,
        search_run(with_mode(m, SearchMode::Presence), es).0 == with_mode(
            search_run(with_mode(m, SearchMode::Discover), es).0,
            SearchMode::Presence,
        ),
    decreases es.len(),
{
    if es.len() > 0 {
        let p = with_mode(m, SearchMode::Presence);
        let d = with_mode(m, SearchMode::Discover);
        assert(!(es[0] is BrowseFailed));
        let (p1, ap) = search_next(p, es[0]);
        let (d1, ad) = search_next(d, es[0]);
        assert(ap == ad);
        assert(p1 == with_mode(d1, SearchMode::Presence));
        assert(d1 == with_mode(d1, SearchMode::Discover));
        let rest = es.drop_first();
        assert forall|i: int| 0 <= i < rest.len() implies !(#[trigger] rest[i] is BrowseFailed) by {
            assert(rest[i] == es[i + 1]);
        }
        lemma_presence_agrees_with_discovery(d1, rest);
        assert(with_mode(d1, SearchMode::Presence) == p1);
    }
}

} // verus!
