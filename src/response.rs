//! Telemetry and printer signals read from firmware response lines.
use vstd::prelude::*;
use crate::decimal::{Decimal, digits_u32, parse_digits_u32, parse_spec, whole_u32};
use crate::health::{HealthState, update_spec};
use crate::models::{Action, PrinterAction, PrinterStatus, TelemetryData, Temperature};
use crate::text::{
    chars_of, contains, contains_str, digit_point_pred, digit_pred, digit_run_end, is_digit_or_point,
    is_white_space, lemma_run_end_bounds, matches_at, occurs_at, run_end, slice_of, white_space,
    word_pred, ws_pred, ws_run_end,
};

verus! {

/// Bounds of the four number fields of a report `T:<n> /<n> B:<n> /<n> `
/// that starts at `i`: current and target extruder, current and target bed.
pub open spec fn report_at(s: Seq<char>, i: int) -> Option<(int, int, int, int, int, int, int, int)> {
    let a1 = i + 2;
    let e1 = run_end(s, a1, digit_point_pred());
    let a2 = e1 + 2;
    let e2 = run_end(s, a2, digit_point_pred());
    let a3 = e2 + 3;
    let e3 = run_end(s, a3, digit_point_pred());
    let a4 = e3 + 2;
    let e4 = run_end(s, a4, digit_point_pred());
    if 0 <= i && i + 1 < s.len() && s[i] == 'T' && s[i + 1] == ':' && e1 > a1 && e1 + 1 < s.len()
        && white_space(s[e1]) && s[e1 + 1] == '/' && e2 > a2 && e2 + 2 < s.len() && white_space(
        s[e2],
    ) && s[e2 + 1] == 'B' && s[e2 + 2] == ':' && e3 > a3 && e3 + 1 < s.len() && white_space(s[e3])
        && s[e3 + 1] == '/' && e4 > a4 && e4 < s.len() && white_space(s[e4]) {
        Some((a1, e1, a2, e2, a3, e3, a4, e4))
    } else {
        None
    }
}

/// The last index at or below `i` where a full report starts.
pub open spec fn last_report(s: Seq<char>, i: int) -> Option<int>
    decreases i + 1,
{
    if i < 0 {
        None
    } else if report_at(s, i) is Some {
        Some(i)
    } else {
        last_report(s, i - 1)
    }
}

/// `T:<n>` followed by white space starts at `i`.
pub open spec fn heat_t_at(s: Seq<char>, i: int) -> bool {
    let e = run_end(s, i + 2, digit_point_pred());
    0 <= i && i + 1 < s.len() && s[i] == 'T' && s[i + 1] == ':' && e > i + 2 && e < s.len()
        && white_space(s[e])
}

/// `B:` followed by a digit or point stands at `k`.
pub open spec fn heat_b_at(s: Seq<char>, k: int) -> bool {
    0 <= k && k + 2 < s.len() && s[k] == 'B' && s[k + 1] == ':' && is_digit_or_point(s[k + 2])
}

pub open spec fn last_heat_b(s: Seq<char>, i: int) -> Option<int>
    decreases i + 1,
{
    if i < 0 {
        None
    } else if heat_b_at(s, i) {
        Some(i)
    } else {
        last_heat_b(s, i - 1)
    }
}

/// The last index at or below `i` where `T:<n> ` starts with its white space
/// before index `k`.
pub open spec fn last_heat_t(s: Seq<char>, i: int, k: int) -> Option<int>
    decreases i + 1,
{
    if i < 0 {
        None
    } else if heat_t_at(s, i) && run_end(s, i + 2, digit_point_pred()) + 1 <= k {
        Some(i)
    } else {
        last_heat_t(s, i - 1, k)
    }
}

/// Fields of a report during heating, `T:<n> ... B:<n>`: the extruder
/// field and the bed field.
pub open spec fn heating_fields(s: Seq<char>) -> Option<(Seq<char>, Seq<char>)> {
    match last_heat_b(s, s.len() - 1) {
        Some(k) => match last_heat_t(s, s.len() - 1, k) {
            Some(i) => Some(
                (
                    s.subrange(i + 2, run_end(s, i + 2, digit_point_pred())),
                    s.subrange(k + 2, run_end(s, k + 2, digit_point_pred())),
                ),
            ),
            None => None,
        },
        None => None,
    }
}

/// A temperature field read as a number; zero where it is none.
pub open spec fn temp_value(f: Seq<char>) -> Decimal {
    match parse_spec(f) {
        Some(d) => d,
        None => Decimal::zero_spec(),
    }
}

pub open spec fn temps_action(ts: u64, ex: Seq<char>, bed: Seq<char>) -> Action {
    Action::Telemetry(
        TelemetryData::Temps(
            Temperature { timestamp: ts, bed_temp: temp_value(bed), ex_temp: temp_value(ex) },
        ),
    )
}

/// What a temperature report publishes: with targets, the temperatures and
/// then the extruder and bed targets; without them, the temperatures alone.
pub open spec fn temps_spec(s: Seq<char>, ts: u64) -> Seq<Action> {
    match last_report(s, s.len() - 1) {
        Some(i) => {
            let (a1, e1, a2, e2, a3, e3, a4, e4) = report_at(s, i).unwrap();
            seq![
                temps_action(ts, s.subrange(a1, e1), s.subrange(a3, e3)),
                Action::Telemetry(TelemetryData::TargetExtruderTemp(whole_u32(s.subrange(a2, e2)))),
                Action::Telemetry(TelemetryData::TargetBedTemp(whole_u32(s.subrange(a4, e4)))),
            ]
        },
        None => match heating_fields(s) {
            Some((ex, bed)) => seq![temps_action(ts, ex, bed)],
            None => Seq::empty(),
        },
    }
}

/// Fields of a progress line of a print from the printer's own storage:
/// `NORMAL MODE: Percent done: <n>; print time remaining in mins: <n>; `.
pub open spec fn progress_at(s: Seq<char>, i: int) -> Option<(Seq<char>, Seq<char>)> {
    let a = i + "NORMAL MODE: Percent done: "@.len();
    let e = run_end(s, a, digit_pred());
    let b = e + "; print time remaining in mins: "@.len();
    let f = run_end(s, b, digit_pred());
    if occurs_at(s, "NORMAL MODE: Percent done: "@, i) && e > a && occurs_at(
        s,
        "; print time remaining in mins: "@,
        e,
    ) && f > b && occurs_at(s, "; "@, f) {
        Some((s.subrange(a, e), s.subrange(b, f)))
    } else {
        None
    }
}

pub open spec fn first_progress(s: Seq<char>, i: int) -> Option<(Seq<char>, Seq<char>)>
    decreases s.len() - i,
{
    if i < 0 || i >= s.len() {
        None
    } else if progress_at(s, i) is Some {
        progress_at(s, i)
    } else {
        first_progress(s, i + 1)
    }
}

pub open spec fn progress_spec(s: Seq<char>) -> Seq<Action> {
    match first_progress(s, 0) {
        Some((p, m)) => seq![
            Action::Telemetry(TelemetryData::PercentDone(digits_u32(p))),
            Action::Telemetry(TelemetryData::MinsRemaining(digits_u32(m))),
        ],
        None => Seq::empty(),
    }
}

/// Start of the word of an action comment `// action:<word>` at `i`.
pub open spec fn action_word_start(s: Seq<char>, i: int) -> Option<int> {
    let e = run_end(s, i + 2, ws_pred());
    if 0 <= i && i + 1 < s.len() && s[i] == '/' && s[i + 1] == '/' && e > i + 2 && occurs_at(
        s,
        "action:"@,
        e,
    ) {
        Some(e + 7)
    } else {
        None
    }
}

pub open spec fn last_action_word(s: Seq<char>, i: int) -> Option<int>
    decreases i + 1,
{
    if i < 0 {
        None
    } else if action_word_start(s, i) is Some {
        action_word_start(s, i)
    } else {
        last_action_word(s, i - 1)
    }
}

/// The printer signal that an action word names.
pub open spec fn action_of_word(w: Seq<char>) -> Option<PrinterAction> {
    if w == "cancel"@ {
        Some(PrinterAction::Cancel)
    } else if w == "pause"@ {
        Some(PrinterAction::Pause)
    } else if w == "resume"@ {
        Some(PrinterAction::Resume)
    } else {
        None
    }
}

/// The word of the last action comment in `s`.
pub open spec fn action_word(s: Seq<char>) -> Option<Seq<char>> {
    match last_action_word(s, s.len() - 1) {
        Some(a) => Some(s.subrange(a, run_end(s, a, word_pred()))),
        None => None,
    }
}

pub open spec fn signal_spec(s: Seq<char>) -> Seq<Action> {
    match action_word(s) {
        Some(w) => match action_of_word(w) {
            Some(a) => seq![Action::PrinterAction(a)],
            None => Seq::empty(),
        },
        None => Seq::empty(),
    }
}

/// What a response line publishes before any status change: temperatures,
/// storage-print progress and printer signals, in that order. `ts` is the
/// time of reading, in seconds since the Unix epoch.
pub open spec fn line_spec(s: Seq<char>, ts: u64) -> Seq<Action> {
    temps_spec(s, ts) + progress_spec(s) + signal_spec(s)
}

/// A line that reports the end of a print from the printer's own storage.
pub open spec fn is_done_line(s: Seq<char>) -> bool {
    contains(s, "Done printing file"@)
}

/// Handling a response line on state `h`: the new state and all that is
/// published.
pub open spec fn response_spec(h: HealthState, s: Seq<char>, ts: u64) -> (HealthState, Seq<Action>) {
    if is_done_line(s) {
        let (h2, a) = update_spec(h, PrinterStatus::Idle);
        (h2, line_spec(s, ts) + match a {
            Some(x) => seq![x],
            None => Seq::empty(),
        })
    } else {
        (h, line_spec(s, ts))
    }
}

} // verus!

verus! {

fn ws_at(v: &Vec<char>, i: usize) -> (r: bool)
    ensures
        r == (i < v@.len() && white_space(v@[i as int])),
{
    i < v.len() && is_white_space(v[i])
}

fn char_at(v: &Vec<char>, i: usize, c: char) -> (r: bool)
    ensures
        r == (i < v@.len() && v@[i as int] == c),
{
    i < v.len() && v[i] == c
}

fn number_end(v: &Vec<char>, i: usize) -> (r: Option<usize>)
    ensures
        i <= v@.len() ==> (r matches Some(e) && e == run_end(v@, i as int, digit_point_pred()) && e
            <= v@.len()),
        i > v@.len() ==> r is None,
{
    if i > v.len() {
        return None;
    }
    let e = digit_run_end(v, i, true);
    proof {
        lemma_run_end_bounds(v@, i as int, digit_point_pred());
    }
    Some(e)
}

fn report_match(v: &Vec<char>, i: usize) -> (r: Option<(usize, usize, usize, usize, usize, usize, usize, usize)>)
    requires
        i < v@.len(),
    ensures
        r matches Some((a1, e1, a2, e2, a3, e3, a4, e4)) ==> report_at(v@, i as int) == Some(
            (a1 as int, e1 as int, a2 as int, e2 as int, a3 as int, e3 as int, a4 as int, e4 as int),
        ) && e4 < v@.len(),
        r is None ==> report_at(v@, i as int) is None,
{
    proof {
        lemma_run_end_bounds(v@, i + 2, digit_point_pred());
    }
    if v.len() - i < 3 {
        return None;
    }
    if !(char_at(v, i, 'T') && char_at(v, i + 1, ':')) {
        return None;
    }
    let a1 = i + 2;
    let e1 = digit_run_end(v, a1, true);
    if !(e1 > a1 && ws_at(v, e1) && char_at(v, e1 + 1, '/')) {
        return None;
    }
    let a2 = e1 + 2;
    let e2 = match number_end(v, a2) {
        Some(e) => e,
        None => return None,
    };
    if !(e2 > a2 && ws_at(v, e2) && char_at(v, e2 + 1, 'B') && char_at(v, e2 + 2, ':')) {
        return None;
    }
    let a3 = e2 + 3;
    let e3 = match number_end(v, a3) {
        Some(e) => e,
        None => return None,
    };
    if !(e3 > a3 && ws_at(v, e3) && char_at(v, e3 + 1, '/')) {
        return None;
    }
    let a4 = e3 + 2;
    let e4 = match number_end(v, a4) {
        Some(e) => e,
        None => return None,
    };
    if !(e4 > a4 && ws_at(v, e4)) {
        return None;
    }
    Some((a1, e1, a2, e2, a3, e3, a4, e4))
}

fn find_report(v: &Vec<char>) -> (r: Option<(usize, usize, usize, usize, usize, usize, usize, usize)>)
    ensures
        r matches Some((a1, e1, a2, e2, a3, e3, a4, e4)) ==> exists|i: int|
            last_report(v@, v@.len() - 1) == Some(i) && #[trigger] report_at(v@, i) == Some(
                (a1 as int, e1 as int, a2 as int, e2 as int, a3 as int, e3 as int, a4 as int, e4 as int),
            ) && e4 < v@.len(),
        r is None ==> last_report(v@, v@.len() - 1) is None,
{
    let mut i: usize = v.len();
    while i > 0
        invariant
            i <= v@.len(),
            last_report(v@, v@.len() - 1) == last_report(v@, i - 1),
        decreases i,
    {
        let k = i - 1;
        match report_match(v, k) {
            Some(t) => {
                return Some(t);
            },
            None => {},
        }
        i = k;
    }
    None
}

fn find_heating(v: &Vec<char>) -> (r: Option<(usize, usize, usize, usize)>)
    ensures
        r matches Some((a, b, c, d)) ==> a <= b <= v@.len() && c <= d <= v@.len() && heating_fields(
            v@,
        ) == Some((v@.subrange(a as int, b as int), v@.subrange(c as int, d as int))),
        r is None ==> heating_fields(v@) is None,
{
    let mut k: usize = v.len();
    while k > 0 && !(v.len() - (k - 1) > 2 && v[k - 1] == 'B' && v[k] == ':' && (('0' <= v[k + 1]
        && v[k + 1] <= '9') || v[k + 1] == '.'))
        invariant
            k <= v@.len(),
            last_heat_b(v@, v@.len() - 1) == last_heat_b(v@, k - 1),
        decreases k,
    {
        k = k - 1;
    }
    if k == 0 {
        return None;
    }
    let kb = k - 1;
    assert(last_heat_b(v@, v@.len() - 1) == Some(kb as int));
    let mut i: usize = v.len();
    while i > 0
        invariant
            i <= v@.len(),
            kb + 2 < v@.len(),
            last_heat_b(v@, v@.len() - 1) == Some(kb as int),
            last_heat_t(v@, v@.len() - 1, kb as int) == last_heat_t(v@, i - 1, kb as int),
        decreases i,
    {
        let t = i - 1;
        proof {
            lemma_run_end_bounds(v@, t + 2, digit_point_pred());
        }
        if v.len() - t > 2 && char_at(v, t, 'T') && char_at(v, t + 1, ':') {
            let e = digit_run_end(v, t + 2, true);
            if e > t + 2 && ws_at(v, e) && e + 1 <= kb {
                let d = digit_run_end(v, kb + 2, true);
                proof {
                    lemma_run_end_bounds(v@, kb + 2, digit_point_pred());
                }
                return Some((t + 2, e, kb + 2, d));
            }
        }
        i = t;
    }
    None
}

fn progress_match(v: &Vec<char>, i: usize) -> (r: Option<(usize, usize, usize, usize)>)
    requires
        i < v@.len(),
    ensures
        r matches Some((a, e, b, f)) ==> a <= e <= v@.len() && b <= f <= v@.len() && progress_at(
            v@,
            i as int,
        ) == Some((v@.subrange(a as int, e as int), v@.subrange(b as int, f as int))),
        r is None ==> progress_at(v@, i as int) is None,
{
    proof {
        reveal_strlit("NORMAL MODE: Percent done: ");
        reveal_strlit("; print time remaining in mins: ");
        reveal_strlit("; ");
    }
    assert("NORMAL MODE: Percent done: "@.len() == 27);
    assert("; print time remaining in mins: "@.len() == 32);
    if !matches_at(v, "NORMAL MODE: Percent done: ", i) {
        return None;
    }
    if v.len() - i < 27 {
        return None;
    }
    let a = i + 27;
    let e = digit_run_end(v, a, false);
    proof {
        lemma_run_end_bounds(v@, a as int, digit_pred());
    }
    if !(e > a && matches_at(v, "; print time remaining in mins: ", e)) {
        return None;
    }
    if v.len() - e < 32 {
        return None;
    }
    let b = e + 32;
    let f = digit_run_end(v, b, false);
    proof {
        lemma_run_end_bounds(v@, b as int, digit_pred());
    }
    if !(f > b && matches_at(v, "; ", f)) {
        return None;
    }
    Some((a, e, b, f))
}

fn find_progress(v: &Vec<char>) -> (r: Option<(usize, usize, usize, usize)>)
    ensures
        r matches Some((a, e, b, f)) ==> a <= e <= v@.len() && b <= f <= v@.len() && first_progress(
            v@,
            0,
        ) == Some((v@.subrange(a as int, e as int), v@.subrange(b as int, f as int))),
        r is None ==> first_progress(v@, 0) is None,
{
    let mut i: usize = 0;
    while i < v.len()
        invariant
            i <= v@.len(),
            first_progress(v@, 0) == first_progress(v@, i as int),
        decreases v.len() - i,
    {
        match progress_match(v, i) {
            Some(t) => {
                return Some(t);
            },
            None => {},
        }
        i = i + 1;
    }
    None
}

fn action_match(v: &Vec<char>, i: usize) -> (r: Option<usize>)
    requires
        i < v@.len(),
    ensures
        r matches Some(a) ==> action_word_start(v@, i as int) == Some(a as int) && a <= v@.len(),
        r is None ==> action_word_start(v@, i as int) is None,
{
    proof {
        reveal_strlit("action:");
        lemma_run_end_bounds(v@, i + 2, ws_pred());
    }
    assert("action:"@.len() == 7);
    if v.len() - i < 3 {
        return None;
    }
    if !(char_at(v, i, '/') && char_at(v, i + 1, '/')) {
        return None;
    }
    let e = ws_run_end(v, i + 2);
    if !(e > i + 2 && matches_at(v, "action:", e)) {
        return None;
    }
    Some(e + 7)
}

fn word_end(v: &Vec<char>, a: usize) -> (r: usize)
    requires
        a <= v@.len(),
    ensures
        r == run_end(v@, a as int, word_pred()),
        a <= r <= v@.len(),
{
    let mut k: usize = a;
    while k < v.len() && (('a' <= v[k] && v[k] <= 'z') || ('A' <= v[k] && v[k] <= 'Z') || ('0'
        <= v[k] && v[k] <= '9') || v[k] == '_')
        invariant
            a <= k <= v@.len(),
            run_end(v@, a as int, word_pred()) == run_end(v@, k as int, word_pred()),
        decreases v.len() - k,
    {
        k = k + 1;
    }
    k
}

fn find_action_start(v: &Vec<char>) -> (r: Option<usize>)
    ensures
        r matches Some(a) ==> last_action_word(v@, v@.len() - 1) == Some(a as int) && a <= v@.len(),
        r is None ==> last_action_word(v@, v@.len() - 1) is None,
{
    let mut i: usize = v.len();
    while i > 0
        invariant
            i <= v@.len(),
            last_action_word(v@, v@.len() - 1) == last_action_word(v@, i - 1),
        decreases i,
    {
        let k = i - 1;
        match action_match(v, k) {
            Some(a) => {
                return Some(a);
            },
            None => {},
        }
        i = k;
    }
    None
}

fn find_signal(v: &Vec<char>) -> (r: Option<PrinterAction>)
    ensures
        signal_spec(v@) == match r {
            Some(a) => seq![Action::PrinterAction(a)],
            None => Seq::<Action>::empty(),
        },
{
    let a = match find_action_start(v) {
        Some(a) => a,
        None => return None,
    };
    let e = word_end(v, a);
    let w = slice_of(v, a, e);
    proof {
        reveal_strlit("cancel");
        reveal_strlit("pause");
        reveal_strlit("resume");
    }
    if w.len() == 6 && matches_at(&w, "cancel", 0) {
        assert(w@ =~= "cancel"@);
        Some(PrinterAction::Cancel)
    } else if w.len() == 5 && matches_at(&w, "pause", 0) {
        assert(w@ =~= "pause"@);
        Some(PrinterAction::Pause)
    } else if w.len() == 6 && matches_at(&w, "resume", 0) {
        assert(w@ =~= "resume"@);
        Some(PrinterAction::Resume)
    } else {
        assert(w@ != "cancel"@ && w@ != "pause"@ && w@ != "resume"@) by {
            if w@ == "cancel"@ {
                assert(w@.subrange(0, 6) =~= w@);
            }
            if w@ == "pause"@ {
                assert(w@.subrange(0, 5) =~= w@);
            }
            if w@ == "resume"@ {
                assert(w@.subrange(0, 6) =~= w@);
            }
        }
        None
    }
}

fn field_decimal(v: &Vec<char>, a: usize, b: usize) -> (r: Decimal)
    requires
        a <= b <= v@.len(),
    ensures
        r == temp_value(v@.subrange(a as int, b as int)),
{
    match Decimal::parse(&slice_of(v, a, b)) {
        Some(d) => d,
        None => Decimal::zero(),
    }
}

fn field_whole(v: &Vec<char>, a: usize, b: usize) -> (r: u32)
    requires
        a <= b <= v@.len(),
    ensures
        r == whole_u32(v@.subrange(a as int, b as int)),
{
    match Decimal::parse(&slice_of(v, a, b)) {
        Some(d) => d.whole_saturating(),
        None => 0,
    }
}

/// Reads one response line: publishes what it reports, and sets the status
/// to idle where it reports the end of a storage print. `timestamp` is the
/// time of reading, in seconds since the Unix epoch.
pub fn handle_response(health: &mut HealthState, line: &str, timestamp: u64) -> (r: Vec<Action>)
    ensures
        (*final(health), r@) == response_spec(*old(health), line@, timestamp),
{
    let v = chars_of(line);
    let mut out: Vec<Action> = Vec::new();
    match find_report(&v) {
        Some((a1, e1, a2, e2, a3, e3, a4, e4)) => {
            let t = Temperature {
                timestamp,
                bed_temp: field_decimal(&v, a3, e3),
                ex_temp: field_decimal(&v, a1, e1),
            };
            out.push(Action::Telemetry(TelemetryData::Temps(t)));
            out.push(Action::Telemetry(TelemetryData::TargetExtruderTemp(field_whole(&v, a2, e2))));
            out.push(Action::Telemetry(TelemetryData::TargetBedTemp(field_whole(&v, a4, e4))));
        },
        None => match find_heating(&v) {
            Some((a, b, c, d)) => {
                let t = Temperature {
                    timestamp,
                    bed_temp: field_decimal(&v, c, d),
                    ex_temp: field_decimal(&v, a, b),
                };
                out.push(Action::Telemetry(TelemetryData::Temps(t)));
            },
            None => {},
        },
    }
    assert(out@ =~= temps_spec(line@, timestamp));
    let ghost o1 = out@;
    match find_progress(&v) {
        Some((a, e, b, f)) => {
            out.push(Action::Telemetry(TelemetryData::PercentDone(parse_digits_u32(&slice_of(&v, a, e)))));
            out.push(Action::Telemetry(TelemetryData::MinsRemaining(parse_digits_u32(&slice_of(&v, b, f)))));
        },
        None => {},
    }
    assert(out@ =~= o1 + progress_spec(line@));
    let ghost o2 = out@;
    match find_signal(&v) {
        Some(a) => out.push(Action::PrinterAction(a)),
        None => {},
    }
    assert(out@ =~= o2 + signal_spec(line@));
    if contains_str(&v, "Done printing file") {
        match health.update_status(PrinterStatus::Idle) {
            Some(a) => out.push(a),
            None => {},
        }
    }
    out
}

} // verus!
