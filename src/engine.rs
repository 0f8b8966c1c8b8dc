//! The protocol engine's decisions: which command to send next, how
//! response bytes become lines and an outcome, and what a failed exchange
//! does to the queue.
use vstd::prelude::*;
use vstd::string::StringExecFns;
use crate::controller::{count_u32, to_count};
use crate::health::{HealthState, poll_command, update_spec};
use crate::models::{Action, PrinterStatus, TelemetryData};
use crate::presend::{presend_spec, presend_telemetry};
use crate::queue::{CommandQueue, views_of};
use crate::response::{handle_response, response_spec};
use crate::text::{chars_of, contains, contains_str, string_of, trim, trimmed};

verus! {

/// Milliseconds of silence after which an exchange fails.
pub const RESPONSE_TIMEOUT_MS: u64 = 5000;

pub open spec fn as_actions(ts: Seq<TelemetryData>) -> Seq<Action> {
    ts.map_values(|t: TelemetryData| Action::Telemetry(t))
}

/// What the engine publishes when it takes `cmd` off the queue and
/// `remaining` commands stay: the progress, unless the queue is now empty or
/// the command is the poll, then the pre-send telemetry.
pub open spec fn dispatch_actions(cmd: Seq<char>, remaining: nat) -> Seq<Action> {
    (if remaining != 0 && cmd != poll_command() {
        seq![Action::Telemetry(TelemetryData::Progress(count_u32(remaining)))]
    } else {
        Seq::empty()
    }) + as_actions(presend_spec(cmd))
}

/// One turn of the engine on state `h` and queue `q`: the new state, the new
/// queue, the command to send, and what is published. On an empty queue the
/// status becomes idle and the engine waits.
pub open spec fn step_spec(h: HealthState, q: Seq<Seq<char>>) -> (HealthState, Seq<Seq<char>>, Option<Seq<char>>, Seq<Action>) {
    if q.len() == 0 {
        let (h2, a) = update_spec(h, PrinterStatus::Idle);
        (h2, q, None, match a {
            Some(x) => seq![x],
            None => Seq::empty(),
        })
    } else {
        (h, q.drop_first(), Some(q[0]), dispatch_actions(q[0], (q.len() - 1) as nat))
    }
}

/// Takes the next command to send off the queue, with what to publish.
/// `None` means the queue is empty: the caller waits for the wake signal.
pub fn next_command(health: &mut HealthState, que: &mut CommandQueue) -> (r: (Option<String>, Vec<Action>))
    ensures
        ({
            let (h2, q2, c, a) = step_spec(*old(health), old(que)@);
            &&& *final(health) == h2
            &&& final(que)@ == q2
            &&& r.1@ == a
            &&& (c matches Some(x) ==> (r.0 matches Some(s) && s@ == x))
            &&& (c is None ==> r.0 is None)
        }),
{
    match que.pop_front() {
        None => {
            let mut out: Vec<Action> = Vec::new();
            match health.update_status(PrinterStatus::Idle) {
                Some(a) => out.push(a),
                None => {},
            }
            (None, out)
        },
        Some(cmd) => {
            let remaining = que.len();
            let mut out: Vec<Action> = Vec::new();
            let poll = que_front_is_poll(&cmd);
            if remaining != 0 && !poll {
                out.push(Action::Telemetry(TelemetryData::Progress(to_count(remaining))));
            }
            let ghost head = out@;
            let mut tel = presend_telemetry(cmd.as_str());
            let ghost all = tel@;
            while tel.len() > 0
                invariant
                    tel@.len() <= all.len(),
                    tel@ == all.subrange(all.len() - tel@.len(), all.len() as int),
                    out@ == head + as_actions(all.subrange(0, all.len() - tel@.len())),
                decreases tel.len(),
            {
                let ghost done = all.len() - tel@.len();
                let t = tel.remove(0);
                assert(t == all[done]);
                out.push(Action::Telemetry(t));
                assert(as_actions(all.subrange(0, done + 1)) =~= as_actions(all.subrange(0, done)).push(
                    Action::Telemetry(all[done]),
                ));
                assert(tel@ =~= all.subrange(all.len() - tel@.len(), all.len() as int));
            }
            assert(all.subrange(0, all.len() as int) =~= all);
            assert(out@ =~= dispatch_actions(cmd@, remaining as nat));
            (Some(cmd), out)
        },
    }
}

fn que_front_is_poll(cmd: &String) -> (r: bool)
    ensures
        r == (cmd@ == poll_command()),
{
    let v = chars_of(cmd.as_str());
    proof {
        reveal_strlit("M105");
    }
    let r = v.len() == 4 && v[0] == 'M' && v[1] == '1' && v[2] == '0' && v[3] == '5';
    if r {
        assert(v@ =~= poll_command());
    } else {
        assert(v@ != poll_command()) by {
            if v@ == poll_command() {
                assert(v@[0] == 'M' && v@[1] == '1' && v@[2] == '0' && v@[3] == '5');
            }
        }
    }
    r
}

/// How an exchange with the printer stands.
#[derive(Debug)]
pub enum Exchange {
    /// Neither confirmation nor error yet.
    Pending,
    /// A line confirmed the command.
    Succeeded,
    /// A line reported an error (with the lines joined by `;`), or the
    /// printer stayed silent.
    Failed(String),
}

/// A line that confirms the command.
pub open spec fn is_confirmation(l: Seq<char>) -> bool {
    contains(l, "ok"@) || contains(l, "start"@)
}

/// A line that reports an error (`Error` contains `Err`).
pub open spec fn is_error(l: Seq<char>) -> bool {
    contains(l, "error"@) || contains(l, "Err"@)
}

pub open spec fn any_confirmation(ls: Seq<Seq<char>>) -> bool {
    exists|i: int| 0 <= i < ls.len() && is_confirmation(#[trigger] ls[i])
}

pub open spec fn any_error(ls: Seq<Seq<char>>) -> bool {
    exists|i: int| 0 <= i < ls.len() && is_error(#[trigger] ls[i])
}

/// The lines read end the exchange in failure: an error and no confirmation.
pub open spec fn exchange_failed(ls: Seq<Seq<char>>) -> bool {
    !any_confirmation(ls) && any_error(ls)
}

pub open spec fn joined(ls: Seq<Seq<char>>) -> Seq<char>
    decreases ls.len(),
{
    if ls.len() == 0 {
        Seq::empty()
    } else if ls.len() == 1 {
        ls[0]
    } else {
        joined(ls.drop_last()) + seq![';'] + ls.last()
    }
}

/// Complete lines of `t` and the unterminated rest.
pub open spec fn split_spec(t: Seq<char>) -> (Seq<Seq<char>>, Seq<char>)
    decreases t.len(),
{
    if t.len() == 0 {
        (Seq::empty(), Seq::empty())
    } else {
        let (ls, cur) = split_spec(t.drop_last());
        if t.last() == '\n' {
            (ls.push(cur), Seq::empty())
        } else {
            (ls, cur.push(t.last()))
        }
    }
}

/// Handling complete lines in order: each is trimmed, blank ones are
/// skipped, the others are read and kept. Gives the new state, what is
/// published and the kept lines.
pub open spec fn process_spec(h: HealthState, ls: Seq<Seq<char>>, ts: u64) -> (HealthState, Seq<Action>, Seq<Seq<char>>)
    decreases ls.len(),
{
    if ls.len() == 0 {
        (h, Seq::empty(), Seq::empty())
    } else {
        let (h1, a1, k1) = process_spec(h, ls.drop_last(), ts);
        let t = trimmed(ls.last());
        if t.len() == 0 {
            (h1, a1, k1)
        } else {
            let (h2, a2) = response_spec(h1, t, ts);
            (h2, a1 + a2, k1.push(t))
        }
    }
}

/// Collects response bytes into lines for one exchange.
pub struct ResponseReader {
    /// The unterminated end of what was read so far.
    pub remainder: Vec<char>,
    /// The non-blank lines read so far, trimmed.
    pub msgs: Vec<String>,
}

impl ResponseReader {
    pub fn new() -> (r: ResponseReader)
        ensures
            r.remainder@.len() == 0,
            r.msgs@.len() == 0,
    {
        ResponseReader { remainder: Vec::new(), msgs: Vec::new() }
    }

    /// Reads a chunk of response text: each line it completes is trimmed
    /// and, unless blank, handled and kept; an unterminated end waits for the
    /// next chunk. `timestamp` is the time of reading, in seconds since the
    /// Unix epoch.
    pub fn feed(&mut self, health: &mut HealthState, chunk: &str, timestamp: u64) -> (r: Vec<Action>)
        ensures
            ({
                let (ls, rest) = split_spec(old(self).remainder@ + chunk@);
                let (h2, acts, kept) = process_spec(*old(health), ls, timestamp);
                &&& final(self).remainder@ == rest
                &&& views_of(final(self).msgs@) == views_of(old(self).msgs@) + kept
                &&& *final(health) == h2
                &&& r@ == acts
            }),
    {
        let mut text: Vec<char> = Vec::new();
        text.append(&mut self.remainder);
        let mut c = chars_of(chunk);
        text.append(&mut c);
        assert(text@ == old(self).remainder@ + chunk@);
        let ghost h0 = *health;
        let ghost m0 = views_of(self.msgs@);
        let mut cur: Vec<char> = Vec::new();
        let mut out: Vec<Action> = Vec::new();
        let mut i: usize = 0;
        assert(text@.subrange(0, 0) =~= Seq::<char>::empty());
        while i < text.len()
            invariant
                i <= text@.len(),
                text@ == old(self).remainder@ + chunk@,
                split_spec(text@.subrange(0, i as int)).1 == cur@,
                ({
                    let (h2, acts, kept) = process_spec(h0, split_spec(text@.subrange(0, i as int)).0, timestamp);
                    &&& *health == h2
                    &&& out@ == acts
                    &&& views_of(self.msgs@) == m0 + kept
                }),
            decreases text.len() - i,
        {
            let ghost pre = text@.subrange(0, i as int);
            assert(text@.subrange(0, i + 1).drop_last() =~= pre);
            let ch = text[i];
            if ch == '\n' {
                let ghost line = cur@;
                let t = trim(&cur);
                if t.len() > 0 {
                    let ts = string_of(t.as_slice());
                    let mut acts = handle_response(health, ts.as_str(), timestamp);
                    out.append(&mut acts);
                    let ghost mb = self.msgs@;
                    self.msgs.push(ts);
                    assert(views_of(self.msgs@) =~= views_of(mb).push(t@));
                }
                cur = Vec::new();
                let ghost ls = split_spec(pre).0;
                assert(split_spec(text@.subrange(0, i + 1)).0 == ls.push(line));
                assert(ls.push(line).drop_last() =~= ls);
                proof {
                    let (h1, a1, k1) = process_spec(h0, ls, timestamp);
                    if t@.len() > 0 {
                        assert(m0 + k1.push(t@) =~= (m0 + k1).push(t@));
                    }
                }
            } else {
                cur.push(ch);
            }
            i = i + 1;
        }
        assert(text@.subrange(0, i as int) =~= text@);
        self.remainder = cur;
        out
    }

    /// The outcome of the exchange after the lines read so far.
    pub fn outcome(&self) -> (r: Exchange)
        ensures
            any_confirmation(views_of(self.msgs@)) ==> r is Succeeded,
            exchange_failed(views_of(self.msgs@)) ==> (r matches Exchange::Failed(m) && m@ == joined(
                views_of(self.msgs@),
            )),
            !any_confirmation(views_of(self.msgs@)) && !any_error(views_of(self.msgs@)) ==> r is Pending,
    {
        let mut k: usize = 0;
        while k < self.msgs.len()
            invariant
                k <= self.msgs@.len(),
                forall|i: int| 0 <= i < k ==> !is_confirmation(#[trigger] views_of(self.msgs@)[i]),
            decreases self.msgs.len() - k,
        {
            let v = chars_of(self.msgs[k].as_str());
            assert(v@ == views_of(self.msgs@)[k as int]);
            if contains_str(&v, "ok") || contains_str(&v, "start") {
                return Exchange::Succeeded;
            }
            k = k + 1;
        }
        let mut k: usize = 0;
        while k < self.msgs.len()
            invariant
                k <= self.msgs@.len(),
                forall|i: int| 0 <= i < self.msgs@.len() ==> !is_confirmation(#[trigger] views_of(self.msgs@)[i]),
                forall|i: int| 0 <= i < k ==> !is_error(#[trigger] views_of(self.msgs@)[i]),
            decreases self.msgs.len() - k,
        {
            let v = chars_of(self.msgs[k].as_str());
            assert(v@ == views_of(self.msgs@)[k as int]);
            if contains_str(&v, "error") || contains_str(&v, "Err") {
                return Exchange::Failed(self.joined_msgs());
            }
            k = k + 1;
        }
        Exchange::Pending
    }

    /// The lines read so far, joined by `;`.
    fn joined_msgs(&self) -> (r: String)
        ensures
            r@ == joined(views_of(self.msgs@)),
    {
        let mut out: Vec<char> = Vec::new();
        let mut k: usize = 0;
        while k < self.msgs.len()
            invariant
                k <= self.msgs@.len(),
                out@ == joined(views_of(self.msgs@).subrange(0, k as int)),
            decreases self.msgs.len() - k,
        {
            let ghost ls = views_of(self.msgs@).subrange(0, k + 1);
            assert(ls.drop_last() =~= views_of(self.msgs@).subrange(0, k as int));
            if k > 0 {
                out.push(';');
            }
            let mut v = chars_of(self.msgs[k].as_str());
            let ghost before = out@;
            out.append(&mut v);
            if k == 0 {
                assert(out@ =~= ls[0]);
            } else {
                assert(out@ =~= before + ls.last());
            }
            k = k + 1;
        }
        assert(views_of(self.msgs@).subrange(0, k as int) =~= views_of(self.msgs@));
        string_of(out.as_slice())
    }

    /// The outcome after `elapsed_ms` of silence: failed once the silence
    /// exceeds the response timeout, else as the lines stand.
    pub fn silence_outcome(elapsed_ms: u64) -> (r: Option<String>)
        ensures
            elapsed_ms > RESPONSE_TIMEOUT_MS ==> (r matches Some(m) && m@ == "No response received"@),
            elapsed_ms <= RESPONSE_TIMEOUT_MS ==> r is None,
    {
        if elapsed_ms > RESPONSE_TIMEOUT_MS {
            Some(String::from_str("No response received"))
        } else {
            None
        }
    }
}

/// The queue after an exchange that failed or not.
pub open spec fn after_exchange(q: Seq<Seq<char>>, failed: bool) -> Seq<Seq<char>> {
    if failed {
        Seq::empty()
    } else {
        q
    }
}

/// When the lines of an exchange report an error and confirm nothing, the
/// queue is emptied, so the engine's next turn sends nothing and it waits;
/// a command queued after that is the next one sent, and the engine goes
/// on.
pub proof fn lemma_error_aborts_then_engine_continues(
    h: HealthState,
    q: Seq<Seq<char>>,
    msgs: Seq<Seq<char>>,
    c: Seq<char>,
)
    requires
        exchange_failed(msgs),
    ensures
        after_exchange(q, exchange_failed(msgs)) == Seq::<Seq<char>>::empty(),
        step_spec(h, after_exchange(q, exchange_failed(msgs))).2 is None,
        step_spec(step_spec(h, after_exchange(q, exchange_failed(msgs))).0, seq![c]).2 == Some(c),
        step_spec(step_spec(h, after_exchange(q, exchange_failed(msgs))).0, seq![c]).1
            == Seq::<Seq<char>>::empty(),
{
    assert(seq![c].drop_first() =~= Seq::<Seq<char>>::empty());
}

/// What an exchange's outcome does to the queue: a failure aborts what
/// remains of the program in flight.
pub fn finish_exchange(que: &mut CommandQueue, outcome: &Exchange)
    ensures
        final(que)@ == after_exchange(old(que)@, outcome is Failed),
{
    match outcome {
        Exchange::Failed(_) => que.clear(),
        _ => {},
    }
}

/// The published form of an optional change.
pub open spec fn opt_seq(a: Option<Action>) -> Seq<Action> {
    match a {
        Some(x) => seq![x],
        None => Seq::empty(),
    }
}

/// Passing actions to the bus on state `h`: each status change goes through
/// the publish-on-change rule; other actions pass unchanged, in order.
pub open spec fn route_spec(h: HealthState, acts: Seq<Action>) -> (HealthState, Seq<Action>)
    decreases acts.len(),
{
    if acts.len() == 0 {
        (h, Seq::empty())
    } else {
        let (h1, a1) = route_spec(h, acts.drop_last());
        match acts.last() {
            Action::StateChange(s) => {
                let (h2, o) = update_spec(h1, s);
                (h2, a1 + opt_seq(o))
            },
            a => (h1, a1.push(a)),
        }
    }
}

/// Filters actions bound for the bus so that the status recorded in
/// `health` is the one source of status changes: a change to the status it
/// already holds is dropped.
pub fn route_actions(health: &mut HealthState, actions: Vec<Action>) -> (r: Vec<Action>)
    ensures
        (*final(health), r@) == route_spec(*old(health), actions@),
{
    let ghost all = actions@;
    let ghost h0 = *health;
    let mut rest = actions;
    let mut out: Vec<Action> = Vec::new();
    assert(all.subrange(0, 0) =~= Seq::<Action>::empty());
    assert(rest@ =~= all.subrange(0, all.len() as int));
    while rest.len() > 0
        invariant
            rest@.len() <= all.len(),
            rest@ == all.subrange(all.len() - rest@.len(), all.len() as int),
            (*health, out@) == route_spec(h0, all.subrange(0, all.len() - rest@.len())),
        decreases rest.len(),
    {
        let ghost done = all.len() - rest@.len();
        let ghost pre = all.subrange(0, done);
        assert(all.subrange(0, done + 1).drop_last() =~= pre);
        let a = rest.remove(0);
        assert(a == all[done]);
        match a {
            Action::StateChange(s) => {
                let ghost ob = out@;
                match health.update_status(s) {
                    Some(x) => out.push(x),
                    None => {},
                }
                assert(out@ =~= ob + opt_seq(update_spec(route_spec(h0, pre).0, s).1));
            },
            other => {
                out.push(other);
            },
        }
        assert(rest@ =~= all.subrange(all.len() - rest@.len(), all.len() as int));
    }
    assert(all.subrange(0, all.len() as int) =~= all);
    out
}

} // verus!
