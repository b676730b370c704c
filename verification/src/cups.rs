//! What the library reads from the CUPS command-line tools.

use vstd::prelude::*;
use vstd::string::StringExecFns;
use crate::text::{
    chars_of, contains, contains_exec, first_where, lines, split_lines, starts_with, starts_with_exec,
    string_from, views, lemma_first_where, find, trim, opt_view, find_from_exec, trim_bounds,
    occurs_at_exec, lemma_find_iff_contains, occurs_at,
};

verus! {

/// State of a CUPS queue as `lpstat -p` reports it.
#[derive(Debug, PartialEq)]
pub enum PrinterState {
    EnabledIdle,
    EnabledPrinting,
    Disabled { reason: String },
    NotFound,
}

/// Mathematical model of [`PrinterState`].
pub enum PrinterStateView {
    EnabledIdle,
    EnabledPrinting,
    Disabled { reason: Seq<char> },
    NotFound,
}

impl View for PrinterState {
    type V = PrinterStateView;

    open spec fn view(&self) -> PrinterStateView {
        match self {
            PrinterState::EnabledIdle => PrinterStateView::EnabledIdle,
            PrinterState::EnabledPrinting => PrinterStateView::EnabledPrinting,
            PrinterState::Disabled { reason } => PrinterStateView::Disabled { reason: reason@ },
            PrinterState::NotFound => PrinterStateView::NotFound,
        }
    }
}

impl Clone for PrinterState {
    fn clone(&self) -> (r: Self)
        ensures
            r@ == self@,
    {
        match self {
            PrinterState::EnabledIdle => PrinterState::EnabledIdle,
            PrinterState::EnabledPrinting => PrinterState::EnabledPrinting,
            PrinterState::Disabled { reason } => PrinterState::Disabled { reason: reason.clone() },
            PrinterState::NotFound => PrinterState::NotFound,
        }
    }
}

/// A line that `lpstat` writes for a queue that does not print.
pub open spec fn marks_stopped(line: Seq<char>) -> bool {
    contains(line, " disabled "@) || contains(line, "is stopped"@)
}

/// Lines that begin with `t`.
pub open spec fn begins(t: Seq<char>) -> spec_fn(Seq<char>) -> bool {
    |l: Seq<char>| starts_with(l, t)
}

/// Lines that mark a stopped queue.
pub open spec fn stopped_line() -> spec_fn(Seq<char>) -> bool {
    |l: Seq<char>| marks_stopped(l)
}

/// The reason `lpstat` gives for a stopped queue: the line after the first
/// line of the whole output that marks a stopped queue, without its leading
/// tab; "reason unknown" when there is no such line or it has no tab.
pub open spec fn disabled_reason(ls: Seq<Seq<char>>) -> Seq<char> {
    match first_where(ls, stopped_line(), 0) {
        Some(j) => if j + 1 < ls.len() && starts_with(ls[j + 1], seq!['\t']) {
            ls[j + 1].drop_first()
        } else {
            "reason unknown"@
        },
        None => "reason unknown"@,
    }
}

/// The queue state that the `lpstat -p` output `out` gives for the queue
/// `name`: decided by the first line that begins with "printer <name>";
/// `NotFound` when there is none.
pub open spec fn lpstat_state(out: Seq<char>, name: Seq<char>) -> PrinterStateView {
    let ls = lines(out);
    match first_where(ls, begins("printer "@ + name), 0) {
        None => PrinterStateView::NotFound,
        Some(i) => if marks_stopped(ls[i]) {
            PrinterStateView::Disabled { reason: disabled_reason(ls) }
        } else if contains(ls[i], "is printing"@) {
            PrinterStateView::EnabledPrinting
        } else {
            PrinterStateView::EnabledIdle
        },
    }
}

/// Index of the first line of `ls` that holds `pat_a` or `pat_b`.
fn first_line_holding(ls: &Vec<Vec<char>>, pat_a: &Vec<char>, pat_b: &Vec<char>) -> (r: Option<usize>)
    ensures
        r matches Some(j) ==> first_where(
            views(ls@),
            |l: Seq<char>| contains(l, pat_a@) || contains(l, pat_b@),
            0,
        ) == Some(j as int),
        r is None ==> first_where(
            views(ls@),
            |l: Seq<char>| contains(l, pat_a@) || contains(l, pat_b@),
            0,
        ) is None,
{
    let ghost p = |l: Seq<char>| contains(l, pat_a@) || contains(l, pat_b@);
    let mut i: usize = 0;
    while i < ls.len()
        invariant
            p == (|l: Seq<char>| contains(l, pat_a@) || contains(l, pat_b@)),
            first_where(views(ls@), p, 0) == first_where(views(ls@), p, i as int),
        decreases ls.len() - i,
    {
        if contains_exec(&ls[i], pat_a) || contains_exec(&ls[i], pat_b) {
            return Some(i);
        }
        i = i + 1;
    }
    None
}

/// The reason line that follows the first stopped-queue line of `ls`.
fn reason_after_stop(ls: &Vec<Vec<char>>, disabled: &Vec<char>, stopped: &Vec<char>) -> (r: String)
    requires
        disabled@ == " disabled "@,
        stopped@ == "is stopped"@,
        disabled@.len() > 0,
        stopped@.len() > 0,
    ensures
        r@ == disabled_reason(views(ls@)),
{
    assert(stopped_line() == (|l: Seq<char>| contains(l, disabled@) || contains(l, stopped@)));
    let j = first_line_holding(ls, disabled, stopped);
    proof {
        lemma_first_where(views(ls@), stopped_line(), 0);
    }
    match j {
        Some(j) => {
            let tab = vec!['\t'];
            assert(tab@ == seq!['\t']);
            if j < ls.len() - 1 && starts_with_exec(&ls[j + 1], &tab) {
                let line = &ls[j + 1];
                let r = string_from(line, 1, line.len());
                assert(views(ls@)[j + 1] == line@);
                assert(line@.drop_first() == line@.subrange(1, line@.len() as int));
                r
            } else {
                String::from_str("reason unknown")
            }
        },
        None => String::from_str("reason unknown"),
    }
}

/// The queue state that `lpstat -p <printer_name>` reports in `output`.
pub fn parse_lpstat_output(output: &str, printer_name: &str) -> (state: PrinterState)
    ensures
        state@ == lpstat_state(output@, printer_name@),
{
    let text = chars_of(output);
    let ls = split_lines(&text);
    let mut target = chars_of("printer ");
    let mut name = chars_of(printer_name);
    target.append(&mut name);
    let disabled = chars_of(" disabled ");
    let stopped = chars_of("is stopped");
    let printing = chars_of("is printing");
    proof {
        reveal_strlit(" disabled ");
        reveal_strlit("is stopped");
        reveal_strlit("is printing");
    }
    let ghost t = target@;
    assert(t == "printer "@ + printer_name@);
    assert(stopped_line() == (|l: Seq<char>| contains(l, disabled@) || contains(l, stopped@)));
    let mut i: usize = 0;
    while i < ls.len()
        invariant
            t == target@,
            t == "printer "@ + printer_name@,
            views(ls@) == lines(output@),
            first_where(views(ls@), begins(t), 0) == first_where(views(ls@), begins(t), i as int),
            disabled@ == " disabled "@,
            stopped@ == "is stopped"@,
            printing@ == "is printing"@,
            disabled@.len() > 0,
            stopped@.len() > 0,
            printing@.len() > 0,
        decreases ls.len() - i,
    {
        if starts_with_exec(&ls[i], &target) {
            assert(begins(t)(views(ls@)[i as int]));
            assert(first_where(views(ls@), begins(t), i as int) == Some(i as int));
            assert(views(ls@)[i as int] == ls@[i as int]@);
            assert(begins("printer "@ + printer_name@) == begins(t));
            if contains_exec(&ls[i], &disabled) || contains_exec(&ls[i], &stopped) {
                let reason = reason_after_stop(&ls, &disabled, &stopped);
                return PrinterState::Disabled { reason };
            }
            if contains_exec(&ls[i], &printing) {
                return PrinterState::EnabledPrinting;
            }
            return PrinterState::EnabledIdle;
        }
        i = i + 1;
    }
    PrinterState::NotFound
}

/// The queue state behind an `lpstat -p <printer_name>` run that exited with
/// `exit_ok` and wrote `stdout`: a failed run means the queue is unknown.
pub fn printer_state_from_lpstat(exit_ok: bool, stdout: &str, printer_name: &str) -> (state:
    PrinterState)
    ensures
        !exit_ok ==> state@ == PrinterStateView::NotFound,
        exit_ok ==> state@ == lpstat_state(stdout@, printer_name@),
{
    if !exit_ok {
        return PrinterState::NotFound;
    }
    parse_lpstat_output(stdout, printer_name)
}

/// Whether `lpstat -a` output says the queue accepts jobs.
pub fn accepting_from_lpstat(stdout: &str) -> (r: bool)
    ensures
        r == contains(stdout@, "accepting requests"@),
{
    let text = chars_of(stdout);
    let pat = chars_of("accepting requests");
    proof {
        reveal_strlit("accepting requests");
    }
    contains_exec(&text, &pat)
}

/// Lines of `lpstat -v` output that name the device of a queue: they begin
/// with `p` and hold ": ".
pub open spec fn device_line(p: Seq<char>) -> spec_fn(Seq<char>) -> bool {
    |l: Seq<char>| starts_with(l, p) && contains(l, ": "@)
}

/// The device URI that `lpstat -v <name>` output `out` gives: on the first
/// line that begins with "device for <name>:" and holds ": ", what follows
/// the first ": ", trimmed.
pub open spec fn lpstat_device_uri(out: Seq<char>, name: Seq<char>) -> Option<Seq<char>> {
    let ls = lines(out);
    match first_where(ls, device_line("device for "@ + name + seq![':']), 0) {
        Some(i) => Some(trim(ls[i].skip(find(ls[i], ": "@)->0 + 2))),
        None => None,
    }
}

/// The device URI of queue `printer_name` from an `lpstat -v <printer_name>`
/// run that exited with `exit_ok` and wrote `stdout`.
pub fn device_uri_from_lpstat(exit_ok: bool, stdout: &str, printer_name: &str) -> (r: Option<
    String,
>)
    ensures
        !exit_ok ==> r is None,
        exit_ok ==> opt_view(r) == lpstat_device_uri(stdout@, printer_name@),
{
    if !exit_ok {
        return None;
    }
    let text = chars_of(stdout);
    let ls = split_lines(&text);
    let mut prefix = chars_of("device for ");
    let mut name = chars_of(printer_name);
    prefix.append(&mut name);
    prefix.push(':');
    let sep = chars_of(": ");
    proof {
        reveal_strlit(": ");
    }
    let ghost p = prefix@;
    assert(p == "device for "@ + printer_name@ + seq![':']);
    let mut i: usize = 0;
    while i < ls.len()
        invariant
            exit_ok,
            p == prefix@,
            p == "device for "@ + printer_name@ + seq![':'],
            sep@ == ": "@,
            sep@.len() == 2,
            views(ls@) == lines(stdout@),
            first_where(views(ls@), device_line(p), 0) == first_where(
                views(ls@),
                device_line(p),
                i as int,
            ),
        decreases ls.len() - i,
    {
        let line = &ls[i];
        assert(views(ls@)[i as int] == line@);
        if starts_with_exec(line, &prefix) {
            let k = find_from_exec(line, &sep, 0);
            proof {
                lemma_find_iff_contains(line@, sep@);
            }
            match k {
                Some(k) => {
                    assert(device_line(p)(line@));
                    assert(first_where(views(ls@), device_line(p), i as int) == Some(i as int));
                    assert(occurs_at(line@, sep@, k as int));
                    assert(k + sep@.len() <= line@.len());
                    assert(k + 2 <= line@.len());
                    let (lo, hi) = trim_bounds(line, k + 2, line.len());
                    assert(line@.skip(k + 2) == line@.subrange(k + 2, line@.len() as int));
                    assert(device_line("device for "@ + printer_name@ + seq![':']) == device_line(p));
                    return Some(string_from(line, lo, hi));
                },
                None => {
                    assert(!device_line(p)(line@));
                },
            }
        }
        i = i + 1;
    }
    assert(device_line("device for "@ + printer_name@ + seq![':']) == device_line(p));
    None
}

/// The PPD identifier a line of `lpinfo -m` output offers: the text before
/// its first space, trimmed, unless that is empty or "everywhere".
pub open spec fn ppd_candidate(l: Seq<char>) -> Option<Seq<char>> {
    match find(l, seq![' ']) {
        Some(k) => {
            let id = trim(l.take(k));
            if id != "everywhere"@ && id.len() > 0 {
                Some(id)
            } else {
                None
            }
        },
        None => None,
    }
}

/// Lines of `lpinfo -m` output that offer a PPD identifier.
pub open spec fn ppd_line() -> spec_fn(Seq<char>) -> bool {
    |l: Seq<char>| ppd_candidate(l) is Some
}

/// The PPD model that `lpinfo -m` output `out` offers: that of its first line
/// that offers one.
pub open spec fn lpinfo_ppd_model(out: Seq<char>) -> Option<Seq<char>> {
    let ls = lines(out);
    match first_where(ls, ppd_line(), 0) {
        Some(i) => ppd_candidate(ls[i]),
        None => None,
    }
}

/// The PPD model for `lpadmin -m` from `lpinfo --make-and-model <m> -m`
/// output; `None` means the caller falls back to "everywhere".
pub fn ppd_model_from_lpinfo(stdout: &str) -> (r: Option<String>)
    ensures
        opt_view(r) == lpinfo_ppd_model(stdout@),
{
    let text = chars_of(stdout);
    let ls = split_lines(&text);
    let space = vec![' '];
    let everywhere = chars_of("everywhere");
    proof {
        reveal_strlit("everywhere");
    }
    assert(space@ == seq![' ']);
    let mut i: usize = 0;
    while i < ls.len()
        invariant
            space@ == seq![' '],
            everywhere@ == "everywhere"@,
            views(ls@) == lines(stdout@),
            first_where(views(ls@), ppd_line(), 0) == first_where(views(ls@), ppd_line(), i as int),
        decreases ls.len() - i,
    {
        let line = &ls[i];
        assert(views(ls@)[i as int] == line@);
        let k = find_from_exec(line, &space, 0);
        proof {
            lemma_find_iff_contains(line@, space@);
        }
        if let Some(k) = k {
            assert(occurs_at(line@, space@, k as int));
            let (lo, hi) = trim_bounds(line, 0, k);
            assert(line@.take(k as int) == line@.subrange(0, k as int));
            let ghost id = line@.subrange(lo as int, hi as int);
            let is_everywhere = hi - lo == everywhere.len() && occurs_at_exec(line, &everywhere, lo);
            assert(is_everywhere == (id == everywhere@)) by {
                if hi - lo == everywhere.len() {
                    assert(line@.subrange(lo as int, lo + everywhere@.len()) == id);
                }
            }
            if !is_everywhere && lo < hi {
                assert(ppd_line()(line@));
                assert(first_where(views(ls@), ppd_line(), i as int) == Some(i as int));
                return Some(string_from(line, lo, hi));
            }
            assert(!ppd_line()(line@));
        } else {
            assert(!ppd_line()(line@));
        }
        i = i + 1;
    }
    None
}



/// The PPD model read from `lpinfo` is never empty and never "everywhere",
/// so that "everywhere" is only ever the caller's fallback.
pub proof fn lemma_ppd_model_is_specific(out: Seq<char>)
    ensures
        lpinfo_ppd_model(out) matches Some(m) ==> m != "everywhere"@ && m.len() > 0,
{
}


/// The PPD model read from `lpinfo` output is that of the first line, in
/// output order, that offers one; no model is read only when no line offers
/// one.
pub proof fn lemma_ppd_model_from_first_offering_line(out: Seq<char>)
    ensures
        lpinfo_ppd_model(out) matches Some(m) ==> exists|i: int|
            0 <= i < lines(out).len() && ppd_candidate(#[trigger] lines(out)[i]) == Some(m) && forall|
                j: int,
            | 0 <= j < i ==> ppd_candidate(#[trigger] lines(out)[j]) is None,
        lpinfo_ppd_model(out) is None ==> forall|i: int|
            0 <= i < lines(out).len() ==> ppd_candidate(#[trigger] lines(out)[i]) is None,
{
    let ls = lines(out);
    lemma_first_where(ls, ppd_line(), 0);
    if let Some(i) = first_where(ls, ppd_line(), 0) {
        assert(ppd_line()(ls[i]));
        assert forall|j: int| 0 <= j < i implies ppd_candidate(#[trigger] ls[j]) is None by {
            assert(!ppd_line()(ls[j]));
        }
    } else {
        assert forall|i: int| 0 <= i < ls.len() implies ppd_candidate(#[trigger] ls[i]) is None by {
            assert(!ppd_line()(ls[i]));
        }
    }
}

/// A line offers the PPD model `m` exactly when `m` is the text before the
/// line's first space, without white space at its ends, and is neither
/// empty nor "everywhere".
pub proof fn lemma_ppd_candidate_is_first_word(l: Seq<char>, m: Seq<char>)
    ensures
        ppd_candidate(l) == Some(m) <==> exists|k: int|
            #![trigger l[k]]
            0 <= k < l.len() && l[k] == ' ' && (forall|j: int| 0 <= j < k ==> l[j] != ' ') && m == trim(
                l.take(k),
            ) && m != "everywhere"@ && m.len() > 0,
{
    lemma_find_iff_contains(l, seq![' ']);
    if let Some(k) = find(l, seq![' ']) {
        assert(occurs_at(l, seq![' '], k));
        assert(l[k] == l.subrange(k, k + 1)[0]);
        assert forall|j: int| 0 <= j < k implies l[j] != ' ' by {
            if l[j] == ' ' {
                assert(l.subrange(j, j + 1) == seq![' ']);
                assert(occurs_at(l, seq![' '], j));
            }
        }
        assert forall|k2: int|
            #![trigger l[k2]]
            0 <= k2 < l.len() && l[k2] == ' ' && (forall|j: int| 0 <= j < k2 ==> l[j] != ' ') implies k2
            == k by {
            if k2 < k {
                assert(l.subrange(k2, k2 + 1) == seq![' ']);
                assert(occurs_at(l, seq![' '], k2));
            } else if k2 > k {
                assert(l[k] == ' ');
            }
        }
    } else {
        assert forall|k: int| 0 <= k < l.len() implies l[k] != ' ' by {
            if l[k] == ' ' {
                assert(l.subrange(k, k + 1) == seq![' ']);
                assert(occurs_at(l, seq![' '], k));
            }
        }
    }
}

/// The queue state comes from the first line that names the queue
/// ("printer <name>…"): the queue is not found exactly when no line names
/// it; otherwise that line decides, a stopped line making the queue
/// disabled, else "is printing" making it printing, else idle.
pub proof fn lemma_lpstat_state_from_first_naming_line(out: Seq<char>, name: Seq<char>)
    ensures
        (lpstat_state(out, name) is NotFound) <==> forall|i: int|
            0 <= i < lines(out).len() ==> !starts_with(#[trigger] lines(out)[i], "printer "@ + name),
        forall|i: int|
            #![trigger lines(out)[i]]
            0 <= i < lines(out).len() && starts_with(lines(out)[i], "printer "@ + name) && (forall|j: int|
                0 <= j < i ==> !starts_with(#[trigger] lines(out)[j], "printer "@ + name)) ==> {
                &&& (lpstat_state(out, name) is Disabled) == marks_stopped(lines(out)[i])
                &&& (lpstat_state(out, name) is EnabledPrinting) == (!marks_stopped(lines(out)[i])
                    && contains(lines(out)[i], "is printing"@))
                &&& (lpstat_state(out, name) is EnabledIdle) == (!marks_stopped(lines(out)[i])
                    && !contains(lines(out)[i], "is printing"@))
            },
{
    let ls = lines(out);
    let t = "printer "@ + name;
    lemma_first_where(ls, begins(t), 0);
    assert forall|i: int| 0 <= i < ls.len() && starts_with(ls[i], t) && (forall|j: int|
        0 <= j < i ==> !starts_with(#[trigger] ls[j], t)) implies first_where(ls, begins(t), 0) == Some(
        i,
    ) by {
        assert(begins(t)(ls[i]));
        if let Some(f) = first_where(ls, begins(t), 0) {
            if f < i {
                assert(begins(t)(ls[f]));
                assert(!starts_with(ls[f], t));
            } else if f > i {
                assert(!begins(t)(ls[i]));
            }
        }
    }
    if first_where(ls, begins(t), 0) is None {
        assert forall|i: int| 0 <= i < ls.len() implies !starts_with(#[trigger] ls[i], t) by {
            assert(!begins(t)(ls[i]));
        }
    } else {
        let f = first_where(ls, begins(t), 0)->0;
        assert(begins(t)(ls[f]));
    }
}

/// A disabled queue's reason is the line after the first stopped-queue line
/// of the whole output, without its leading tab, or "reason unknown" when
/// that line does not begin with a tab or there is none.
pub proof fn lemma_disabled_reason_follows_first_stopped_line(ls: Seq<Seq<char>>)
    ensures
        forall|j: int|
            #![trigger ls[j]]
            0 <= j < ls.len() && marks_stopped(ls[j]) && (forall|k: int|
                0 <= k < j ==> !marks_stopped(#[trigger] ls[k])) ==> disabled_reason(ls) == if j + 1
                < ls.len() && starts_with(ls[j + 1], seq!['\t']) {
                ls[j + 1].drop_first()
            } else {
                "reason unknown"@
            },
        (forall|k: int| 0 <= k < ls.len() ==> !marks_stopped(#[trigger] ls[k])) ==> disabled_reason(ls)
            == "reason unknown"@,
{
    lemma_first_where(ls, stopped_line(), 0);
    assert forall|j: int|
        #![trigger ls[j]]
        0 <= j < ls.len() && marks_stopped(ls[j]) && (forall|k: int|
            0 <= k < j ==> !marks_stopped(#[trigger] ls[k])) implies first_where(ls, stopped_line(), 0)
        == Some(j) by {
        assert(stopped_line()(ls[j]));
        if let Some(f) = first_where(ls, stopped_line(), 0) {
            if f < j {
                assert(stopped_line()(ls[f]));
                assert(!marks_stopped(ls[f]));
            } else if f > j {
                assert(!stopped_line()(ls[j]));
            }
        }
    }
    if (forall|k: int| 0 <= k < ls.len() ==> !marks_stopped(#[trigger] ls[k])) {
        if let Some(f) = first_where(ls, stopped_line(), 0) {
            assert(stopped_line()(ls[f]));
            assert(!marks_stopped(ls[f]));
        }
    }
}

/// The device URI is read from the first line that begins with
/// "device for <name>:" and holds ": ": it is what follows the first ": "
/// of that line, without white space at its ends; there is none exactly
/// when no line both begins so and holds ": ".
pub proof fn lemma_device_uri_from_first_device_line(out: Seq<char>, name: Seq<char>)
    ensures
        (lpstat_device_uri(out, name) is None) <==> forall|i: int|
            0 <= i < lines(out).len() ==> !(starts_with(
                #[trigger] lines(out)[i],
                "device for "@ + name + seq![':'],
            ) && contains(lines(out)[i], ": "@)),
        lpstat_device_uri(out, name) matches Some(u) ==> exists|i: int, k: int|
            #![trigger lines(out)[i], occurs_at(lines(out)[i], ": "@, k)]
            0 <= i < lines(out).len() && starts_with(lines(out)[i], "device for "@ + name + seq![':'])
                && occurs_at(lines(out)[i], ": "@, k) && (forall|k2: int|
                0 <= k2 < k ==> !occurs_at(lines(out)[i], ": "@, k2)) && u == trim(
                lines(out)[i].skip(k + 2),
            ),
{
    reveal_strlit(": ");
    let ls = lines(out);
    let p = "device for "@ + name + seq![':'];
    lemma_first_where(ls, device_line(p), 0);
    if let Some(i) = first_where(ls, device_line(p), 0) {
        assert(device_line(p)(ls[i]));
        lemma_find_iff_contains(ls[i], ": "@);
        let k = find(ls[i], ": "@)->0;
        assert(occurs_at(ls[i], ": "@, k));
        assert(!(lpstat_device_uri(out, name) is None));
        assert(exists|i2: int, k2: int| #![trigger ls[i2], occurs_at(ls[i2], ": "@, k2)]
            0 <= i2 < ls.len() && starts_with(ls[i2], p) && occurs_at(ls[i2], ": "@, k2) && (forall|
                k3: int,
            | 0 <= k3 < k2 ==> !occurs_at(ls[i2], ": "@, k3)) && lpstat_device_uri(out, name)->0 == trim(
                ls[i2].skip(k2 + 2),
            )) by {
            assert(0 <= i < ls.len() && starts_with(ls[i], p) && occurs_at(ls[i], ": "@, k));
        }
    } else {
        assert forall|i: int| 0 <= i < ls.len() implies !(starts_with(#[trigger] ls[i], p) && contains(
            ls[i],
            ": "@,
        )) by {
            assert(!device_line(p)(ls[i]));
        }
    }
}

// ───────────────────────────── CUPS commands ─────────────────────────────

/// A CUPS command-line tool run by the library.
#[derive(Debug)]
pub enum CupsCommand {
    /// `lpstat -p <queue>`: the queue state
    QueryState(String),
    /// `lpstat -a <queue>`: whether the queue accepts jobs
    QueryAccepting(String),
    /// `lpstat -v <queue>`: the queue's device URI
    QueryDeviceUri(String),
    /// `lpinfo --make-and-model <model> -m`: PPD models
    FindPpd(String),
    /// `cupsenable <queue>`
    Enable(String),
    /// `cupsaccept <queue>`
    Accept(String),
    /// `lpadmin -p <queue> -E -v <uri> -m <ppd> -D <display name>`
    AddPrinter { printer_name: String, device_uri: String, ppd_model: String, display_name: String },
    /// `lpadmin -x <queue>`
    RemovePrinter(String),
    /// `lpadmin -d <queue>`
    SetDefault(String),
    /// `lpstat -p -d -v -a`: everything, for the status report
    Status,
}

/// The program and arguments that run `c`.
pub open spec fn command_line_of(c: CupsCommand) -> Seq<Seq<char>> {
    match c {
        CupsCommand::QueryState(p) => seq!["lpstat"@, "-p"@, p@],
        CupsCommand::QueryAccepting(p) => seq!["lpstat"@, "-a"@, p@],
        CupsCommand::QueryDeviceUri(p) => seq!["lpstat"@, "-v"@, p@],
        CupsCommand::FindPpd(m) => seq!["lpinfo"@, "--make-and-model"@, m@, "-m"@],
        CupsCommand::Enable(p) => seq!["cupsenable"@, p@],
        CupsCommand::Accept(p) => seq!["cupsaccept"@, p@],
        CupsCommand::AddPrinter { printer_name, device_uri, ppd_model, display_name } => seq![
            "lpadmin"@,
            "-p"@,
            printer_name@,
            "-E"@,
            "-v"@,
            device_uri@,
            "-m"@,
            ppd_model@,
            "-D"@,
            display_name@,
        ],
        CupsCommand::RemovePrinter(p) => seq!["lpadmin"@, "-x"@, p@],
        CupsCommand::SetDefault(p) => seq!["lpadmin"@, "-d"@, p@],
        CupsCommand::Status => seq!["lpstat"@, "-p"@, "-d"@, "-v"@, "-a"@],
    }
}

/// What a failed run of a command that changes CUPS reports, before the
/// tool's own error output; `None` for the commands that only ask.
pub open spec fn failure_prefix_of(c: CupsCommand) -> Option<Seq<char>> {
    match c {
        CupsCommand::Enable(_) => Some("cupsenable failed: "@),
        CupsCommand::Accept(_) => Some("cupsaccept failed: "@),
        CupsCommand::AddPrinter { .. } => Some("lpadmin add failed: "@),
        CupsCommand::RemovePrinter(_) => Some("lpadmin remove failed: "@),
        CupsCommand::SetDefault(_) => Some("lpadmin set-default failed: "@),
        _ => None,
    }
}

fn strings_of2(a: &str, b: &str) -> (r: Vec<String>)
    ensures
        r@.map_values(|s: String| s@) == seq![a@, b@],
{
    let mut r: Vec<String> = Vec::new();
    r.push(String::from_str(a));
    r.push(String::from_str(b));
    assert(r@.map_values(|s: String| s@) == seq![a@, b@]);
    r
}

fn push_str(v: &mut Vec<String>, s: &str)
    ensures
        final(v)@.map_values(|x: String| x@) == old(v)@.map_values(|x: String| x@).push(s@),
{
    v.push(String::from_str(s));
    assert(final(v)@.map_values(|x: String| x@) =~= old(v)@.map_values(|x: String| x@).push(s@));
}

impl CupsCommand {
    /// The program and its arguments, program first.
    pub fn command_line(&self) -> (r: Vec<String>)
        ensures
            r@.map_values(|s: String| s@) == command_line_of(*self),
    {
        match self {
            CupsCommand::QueryState(p) => {
                let mut r = strings_of2("lpstat", "-p");
                push_str(&mut r, p.as_str());
                r
            },
            CupsCommand::QueryAccepting(p) => {
                let mut r = strings_of2("lpstat", "-a");
                push_str(&mut r, p.as_str());
                r
            },
            CupsCommand::QueryDeviceUri(p) => {
                let mut r = strings_of2("lpstat", "-v");
                push_str(&mut r, p.as_str());
                r
            },
            CupsCommand::FindPpd(m) => {
                let mut r = strings_of2("lpinfo", "--make-and-model");
                push_str(&mut r, m.as_str());
                push_str(&mut r, "-m");
                r
            },
            CupsCommand::Enable(p) => strings_of2("cupsenable", p.as_str()),
            CupsCommand::Accept(p) => strings_of2("cupsaccept", p.as_str()),
            CupsCommand::AddPrinter { printer_name, device_uri, ppd_model, display_name } => {
                let mut r = strings_of2("lpadmin", "-p");
                push_str(&mut r, printer_name.as_str());
                push_str(&mut r, "-E");
                push_str(&mut r, "-v");
                push_str(&mut r, device_uri.as_str());
                push_str(&mut r, "-m");
                push_str(&mut r, ppd_model.as_str());
                push_str(&mut r, "-D");
                push_str(&mut r, display_name.as_str());
                r
            },
            CupsCommand::RemovePrinter(p) => {
                let mut r = strings_of2("lpadmin", "-x");
                push_str(&mut r, p.as_str());
                r
            },
            CupsCommand::SetDefault(p) => {
                let mut r = strings_of2("lpadmin", "-d");
                push_str(&mut r, p.as_str());
                r
            },
            CupsCommand::Status => {
                let mut r = strings_of2("lpstat", "-p");
                push_str(&mut r, "-d");
                push_str(&mut r, "-v");
                push_str(&mut r, "-a");
                r
            },
        }
    }

    /// The result of a run of the command that exited successfully when
    /// `exit_ok` and wrote `stderr`: a command that changes CUPS fails with
    /// its tool's message exactly when its run did not exit successfully; a
    /// command that only asks is judged by the reader of its output, so its
    /// run counts as done.
    pub fn outcome(&self, exit_ok: bool, stderr: &str) -> (r: Result<(), String>)
        ensures
            result_view(r) == run_outcome_of(*self, exit_ok, stderr@),
    {
        let prefix = match self {
            CupsCommand::Enable(_) => "cupsenable failed: ",
            CupsCommand::Accept(_) => "cupsaccept failed: ",
            CupsCommand::AddPrinter { .. } => "lpadmin add failed: ",
            CupsCommand::RemovePrinter(_) => "lpadmin remove failed: ",
            CupsCommand::SetDefault(_) => "lpadmin set-default failed: ",
            _ => {
                return Ok(());
            },
        };
        if exit_ok {
            return Ok(());
        }
        let mut r = String::from_str(prefix);
        r.append(stderr);
        Err(r)
    }

    /// The context of the error when the command's program cannot be run.
    pub fn run_context(&self) -> (r: String)
        ensures
            r@ == run_context_of(*self),
    {
        match self {
            CupsCommand::QueryState(_) => String::from_str("Failed to run lpstat"),
            CupsCommand::QueryAccepting(_) => String::from_str("Failed to run lpstat -a"),
            CupsCommand::QueryDeviceUri(_) => String::from_str("Failed to run lpstat -v"),
            CupsCommand::FindPpd(_) => String::from_str("Failed to run lpinfo"),
            CupsCommand::Enable(_) => String::from_str("Failed to run cupsenable"),
            CupsCommand::Accept(_) => String::from_str("Failed to run cupsaccept"),
            CupsCommand::AddPrinter { .. } => String::from_str("Failed to run lpadmin"),
            CupsCommand::RemovePrinter(_) => String::from_str("Failed to run lpadmin -x"),
            CupsCommand::SetDefault(_) => String::from_str("Failed to run lpadmin -d"),
            CupsCommand::Status => String::from_str("Failed to run lpstat"),
        }
    }
}

/// The view of a run's result.
pub open spec fn result_view(r: Result<(), String>) -> Result<(), Seq<char>> {
    match r {
        Ok(()) => Ok(()),
        Err(m) => Err(m@),
    }
}

/// The result of a run of `c` that exited successfully when `exit_ok` and
/// wrote `stderr`.
pub open spec fn run_outcome_of(c: CupsCommand, exit_ok: bool, stderr: Seq<char>) -> Result<(), Seq<char>> {
    match failure_prefix_of(c) {
        Some(p) => if exit_ok {
            Ok(())
        } else {
            Err(p + stderr)
        },
        None => Ok(()),
    }
}

/// The context of the error when the program of `c` cannot be run.
pub open spec fn run_context_of(c: CupsCommand) -> Seq<char> {
    match c {
        CupsCommand::QueryState(_) => "Failed to run lpstat"@,
        CupsCommand::QueryAccepting(_) => "Failed to run lpstat -a"@,
        CupsCommand::QueryDeviceUri(_) => "Failed to run lpstat -v"@,
        CupsCommand::FindPpd(_) => "Failed to run lpinfo"@,
        CupsCommand::Enable(_) => "Failed to run cupsenable"@,
        CupsCommand::Accept(_) => "Failed to run cupsaccept"@,
        CupsCommand::AddPrinter { .. } => "Failed to run lpadmin"@,
        CupsCommand::RemovePrinter(_) => "Failed to run lpadmin -x"@,
        CupsCommand::SetDefault(_) => "Failed to run lpadmin -d"@,
        CupsCommand::Status => "Failed to run lpstat"@,
    }
}

/// A command that changes CUPS succeeds exactly when its run exits
/// successfully, and otherwise fails with the tool's prefix followed by what
/// the tool wrote to its error output.
pub proof fn lemma_change_fails_iff_exit_fails(c: CupsCommand, exit_ok: bool, stderr: Seq<char>)
    requires
        failure_prefix_of(c) is Some,
    ensures
        run_outcome_of(c, exit_ok, stderr) is Ok <==> exit_ok,
        !exit_ok ==> run_outcome_of(c, exit_ok, stderr) == Err::<(), Seq<char>>(
            failure_prefix_of(c)->0 + stderr,
        ),
{
}

} // verus!
