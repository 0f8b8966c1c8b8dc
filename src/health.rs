//! Printer status bookkeeping: publish-on-change, and the health monitor
//! that infers connectivity from whether polls are consumed.
use vstd::prelude::*;
use vstd::string::StringExecFns;
use crate::controller::ADMISSION_LIMIT;
use crate::models::{Action, PrinterStatus};
use crate::queue::CommandQueue;

verus! {

/// Consecutive unconsumed polls after which the printer counts as disconnected.
pub const MISSED_POLL_LIMIT: u32 = 4;

/// The command that asks for a temperature report; it doubles as the
/// liveness probe.
pub open spec fn poll_command() -> Seq<char> {
    "M105"@
}

/// The engine's authoritative status and the health monitor's count of
/// polls that were still unconsumed at the next interval.
#[derive(Clone, Copy, Debug, PartialEq, Eq, Structural)]
pub struct HealthState {
    pub status: PrinterStatus,
    pub missed_polls: u32,
}

/// Setting the status to `s`: the new state, and the change to publish.
pub open spec fn update_spec(h: HealthState, s: PrinterStatus) -> (HealthState, Option<Action>) {
    if h.status != s {
        (HealthState { status: s, ..h }, Some(Action::StateChange(s)))
    } else {
        (h, None)
    }
}

/// The status the health monitor derives for a printer that answers again.
pub open spec fn derived_status(queue_len: nat) -> PrinterStatus {
    if queue_len > ADMISSION_LIMIT {
        PrinterStatus::Active
    } else {
        PrinterStatus::Idle
    }
}

/// One interval of the health monitor on state `h` and queue `q`: the new
/// state, the new queue and what is published.
pub open spec fn tick_spec(h: HealthState, q: Seq<Seq<char>>) -> (HealthState, Seq<Seq<char>>, Seq<Action>) {
    if q.len() > 0 && q[0] == poll_command() {
        let missed = if h.missed_polls < u32::MAX { (h.missed_polls + 1) as u32 } else { h.missed_polls };
        if missed >= MISSED_POLL_LIMIT && h.status != PrinterStatus::Disconnected {
            (
                HealthState { status: PrinterStatus::Disconnected, missed_polls: missed },
                q,
                seq![Action::StateChange(PrinterStatus::Disconnected)],
            )
        } else {
            (HealthState { status: h.status, missed_polls: missed }, q, Seq::empty())
        }
    } else {
        let q2 = seq![poll_command()] + q;
        if h.status == PrinterStatus::Disconnected {
            let s = derived_status(q.len());
            (HealthState { status: s, missed_polls: 0 }, q2, seq![Action::StateChange(s)])
        } else {
            (HealthState { status: h.status, missed_polls: 0 }, q2, Seq::empty())
        }
    }
}

impl HealthState {
    pub fn new() -> (r: HealthState)
        ensures
            r.status == PrinterStatus::Disconnected,
            r.missed_polls == 0,
    {
        HealthState { status: PrinterStatus::Disconnected, missed_polls: 0 }
    }

    /// Sets the status; returns the change to publish, if the status changed.
    pub fn update_status(&mut self, s: PrinterStatus) -> (r: Option<Action>)
        ensures
            (*final(self), r) == update_spec(*old(self), s),
    {
        if self.status != s {
            self.status = s;
            Some(Action::StateChange(s))
        } else {
            None
        }
    }

    /// One interval of the health monitor. Where the poll is not at the
    /// front, it goes there; where it still is, the printer missed it.
    pub fn health_tick(&mut self, que: &mut CommandQueue) -> (r: Vec<Action>)
        ensures
            (*final(self), final(que)@, r@) == tick_spec(*old(self), old(que)@),
    {
        let mut out: Vec<Action> = Vec::new();
        let at_front = que.front_is("M105");
        if !at_front {
            if self.status == PrinterStatus::Disconnected {
                let s = if que.len() > ADMISSION_LIMIT {
                    PrinterStatus::Active
                } else {
                    PrinterStatus::Idle
                };
                self.status = s;
                out.push(Action::StateChange(s));
            }
            self.missed_polls = 0;
            que.push_front(String::from_str("M105"));
        } else {
            if self.missed_polls < u32::MAX {
                self.missed_polls = self.missed_polls + 1;
            }
            if self.missed_polls >= MISSED_POLL_LIMIT && self.status != PrinterStatus::Disconnected {
                self.status = PrinterStatus::Disconnected;
                out.push(Action::StateChange(PrinterStatus::Disconnected));
            }
        }
        assert(out@ =~= tick_spec(*old(self), old(que)@).2);
        out
    }
}

/// Setting the status to each of `ss` in turn: the final state and all that
/// is published.
pub open spec fn run_updates(h: HealthState, ss: Seq<PrinterStatus>) -> (HealthState, Seq<Action>)
    decreases ss.len(),
{
    if ss.len() == 0 {
        (h, Seq::empty())
    } else {
        let (h1, a1) = run_updates(h, ss.drop_last());
        let (h2, a2) = update_spec(h1, ss.last());
        (h2, a1 + match a2 {
            Some(a) => seq![a],
            None => Seq::empty(),
        })
    }
}

/// `n` copies of the status `s`.
pub open spec fn repeated(s: PrinterStatus, n: nat) -> Seq<PrinterStatus> {
    Seq::new(n, |i: int| s)
}

/// Computing the same status `n >= 1` times in a row publishes it exactly
/// once when it differs from the current status, and never when it does not.
pub proof fn lemma_same_status_publishes_once(h: HealthState, s: PrinterStatus, n: nat)
    requires
        n >= 1,
    ensures
        run_updates(h, repeated(s, n)).0.status == s,
        h.status != s ==> run_updates(h, repeated(s, n)).1 == seq![Action::StateChange(s)],
        h.status == s ==> run_updates(h, repeated(s, n)).1 == Seq::<Action>::empty(),
    decreases n,
{
    let ss = repeated(s, n);
    assert(ss.last() == s);
    if n == 1 {
        assert(ss.drop_last() =~= Seq::<PrinterStatus>::empty());
        assert(run_updates(h, ss.drop_last()) == (h, Seq::<Action>::empty()));
        assert(seq![Action::StateChange(s)] =~= Seq::<Action>::empty() + seq![Action::StateChange(s)]);
        assert(Seq::<Action>::empty() =~= Seq::<Action>::empty() + Seq::<Action>::empty());
    } else {
        lemma_same_status_publishes_once(h, s, (n - 1) as nat);
        assert(ss.drop_last() =~= repeated(s, (n - 1) as nat));
        let prev = run_updates(h, ss.drop_last());
        assert(prev.0.status == s);
        assert(update_spec(prev.0, s).1 is None);
        assert(prev.1 + Seq::<Action>::empty() =~= prev.1);
        assert(run_updates(h, ss).1 == prev.1 + Seq::<Action>::empty());
    }
}

/// `n` intervals of the health monitor in a row.
pub open spec fn run_ticks(h: HealthState, q: Seq<Seq<char>>, n: nat) -> (HealthState, Seq<Seq<char>>, Seq<Action>)
    decreases n,
{
    if n == 0 {
        (h, q, Seq::empty())
    } else {
        let (h1, q1, a1) = run_ticks(h, q, (n - 1) as nat);
        let (h2, q2, a2) = tick_spec(h1, q1);
        (h2, q2, a1 + a2)
    }
}

proof fn lemma_stalled_ticks(h: HealthState, q: Seq<Seq<char>>, n: nat)
    requires
        q.len() > 0 && q[0] == poll_command(),
        h.missed_polls == 0,
        h.status != PrinterStatus::Disconnected,
    ensures
        run_ticks(h, q, n).1 == q,
        run_ticks(h, q, n).0.missed_polls == if n <= u32::MAX { n } else { u32::MAX as nat },
        n < MISSED_POLL_LIMIT ==> run_ticks(h, q, n).0.status == h.status && run_ticks(h, q, n).2
            == Seq::<Action>::empty(),
        n >= MISSED_POLL_LIMIT ==> run_ticks(h, q, n).0.status == PrinterStatus::Disconnected
            && run_ticks(h, q, n).2 == seq![Action::StateChange(PrinterStatus::Disconnected)],
    decreases n,
{
    if n > 0 {
        lemma_stalled_ticks(h, q, (n - 1) as nat);
        let prev = run_ticks(h, q, (n - 1) as nat);
        assert(prev.2 + Seq::<Action>::empty() =~= prev.2);
        if n == MISSED_POLL_LIMIT {
            assert(Seq::<Action>::empty() + seq![Action::StateChange(PrinterStatus::Disconnected)]
                =~= seq![Action::StateChange(PrinterStatus::Disconnected)]);
        }
    }
}

/// Once a poll sits unconsumed at the front of the queue, the printer is
/// reported disconnected at the fourth interval that finds it still there,
/// and that change is published once, however many more such intervals
/// follow; before the fourth, nothing is published.
pub proof fn lemma_disconnect_published_once(h: HealthState, q: Seq<Seq<char>>, n: nat)
    requires
        q.len() > 0 && q[0] == poll_command(),
        h.missed_polls == 0,
        h.status != PrinterStatus::Disconnected,
    ensures
        n < MISSED_POLL_LIMIT ==> run_ticks(h, q, n).0.status == h.status && run_ticks(h, q, n).2
            == Seq::<Action>::empty(),
        n >= MISSED_POLL_LIMIT ==> run_ticks(h, q, n).0.status == PrinterStatus::Disconnected
            && run_ticks(h, q, n).2 == seq![Action::StateChange(PrinterStatus::Disconnected)],
{
    lemma_stalled_ticks(h, q, n);
}

} // verus!
