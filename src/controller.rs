//! The print controller: turns commands into queue changes and lifecycle
//! telemetry, and filters a G-code file on its way into the queue.
use vstd::prelude::*;
use vstd::string::StringExecFns;
use crate::decimal::{Decimal, parse_spec};
use crate::models::{Action, Command, GcodeFile, PrinterAction, PrinterStatus, TelemetryData};
use crate::queue::{CommandQueue, views_of};
use crate::text::{
    chars_of, decimal_string, decimal_text, digit_point_pred, digit_run_end, find_char,
    first_index_of, matches_at, occurs_at, prefix, run_end, string_of, trim, trimmed, ws_pred,
    ws_run_end,
};

verus! {

/// Queue length above which a new print is not admitted.
pub const ADMISSION_LIMIT: usize = 10;

/// Where a slicer's `; max_layer_z = <number>` comment starts at index `i`:
/// the bounds of its number field.
pub open spec fn max_z_field_at(s: Seq<char>, i: int) -> Option<(int, int)> {
    if 0 <= i < s.len() && s[i] == ';' {
        let a = run_end(s, i + 1, ws_pred());
        if occurs_at(s, "max_layer_z"@, a) {
            let b = run_end(s, a + "max_layer_z"@.len(), ws_pred());
            if b < s.len() && s[b] == '=' {
                let c = run_end(s, b + 1, ws_pred());
                let e = run_end(s, c, digit_point_pred());
                if e > c {
                    Some((c, e))
                } else {
                    None
                }
            } else {
                None
            }
        } else {
            None
        }
    } else {
        None
    }
}

/// The number field of the first max-layer comment at or after index `i`.
pub open spec fn first_max_z(s: Seq<char>, i: int) -> Option<Seq<char>>
    decreases s.len() - i,
{
    if i < 0 || i >= s.len() {
        None
    } else {
        match max_z_field_at(s, i) {
            Some((c, e)) => Some(s.subrange(c, e)),
            None => first_max_z(s, i + 1),
        }
    }
}

/// The highest layer that a file line reports, if it is a max-layer
/// comment; a field that is no number reads as zero.
pub open spec fn max_z_of(line: Seq<char>) -> Option<Decimal> {
    match first_max_z(line, 0) {
        Some(f) => Some(
            match parse_spec(f) {
                Some(d) => d,
                None => Decimal::zero_spec(),
            },
        ),
        None => None,
    }
}

/// The command that a file line puts in the queue: none for a max-layer
/// comment, a blank line or a comment line; else the trimmed line up to its
/// first `;`.
pub open spec fn queued_line(line: Seq<char>) -> Option<Seq<char>> {
    let t = trimmed(line);
    if max_z_of(line) is Some || t.len() == 0 || t[0] == ';' {
        None
    } else {
        match first_index_of(t, ';') {
            Some(k) => Some(t.subrange(0, k)),
            None => Some(t),
        }
    }
}

/// The commands that the lines of a file put in the queue, in order.
pub open spec fn queued_lines(ls: Seq<Seq<char>>) -> Seq<Seq<char>>
    decreases ls.len(),
{
    if ls.len() == 0 {
        Seq::empty()
    } else {
        queued_lines(ls.drop_last()) + match queued_line(ls.last()) {
            Some(c) => seq![c],
            None => Seq::empty(),
        }
    }
}

/// The telemetry that the lines of a file publish while they are loaded.
pub open spec fn max_z_actions(ls: Seq<Seq<char>>) -> Seq<Action>
    decreases ls.len(),
{
    if ls.len() == 0 {
        Seq::empty()
    } else {
        max_z_actions(ls.drop_last()) + match max_z_of(ls.last()) {
            Some(d) => seq![Action::Telemetry(TelemetryData::MaxZHeight(d))],
            None => Seq::empty(),
        }
    }
}

/// Finds the number field of the first max-layer comment in `v`.
fn find_max_z(v: &Vec<char>) -> (r: Option<(usize, usize)>)
    ensures
        r matches Some((c, e)) ==> c <= e <= v@.len() && first_max_z(v@, 0) == Some(
            v@.subrange(c as int, e as int),
        ),
        r is None ==> first_max_z(v@, 0) is None,
{
    proof {
        reveal_strlit("max_layer_z");
        assert("max_layer_z"@.len() == 11);
    }
    let mut i: usize = 0;
    while i < v.len()
        invariant
            i <= v@.len(),
            first_max_z(v@, 0) == first_max_z(v@, i as int),
            "max_layer_z"@.len() == 11,
        decreases v.len() - i,
    {
        if v[i] == ';' {
            let a = ws_run_end(v, i + 1);
            proof {
                crate::text::lemma_run_end_bounds(v@, i + 1, ws_pred());
            }
            if matches_at(v, "max_layer_z", a) {
                let b = ws_run_end(v, a + 11);
                proof {
                    crate::text::lemma_run_end_bounds(v@, a + 11, ws_pred());
                }
                if b < v.len() && v[b] == '=' {
                    let c = ws_run_end(v, b + 1);
                    proof {
                        crate::text::lemma_run_end_bounds(v@, b + 1, ws_pred());
                    }
                    let e = digit_run_end(v, c, true);
                    proof {
                        crate::text::lemma_run_end_bounds(v@, c as int, digit_point_pred());
                    }
                    if e > c {
                        return Some((c, e));
                    }
                }
            }
        }
        i = i + 1;
    }
    None
}

/// What loading one file line does: the max-layer telemetry it publishes and
/// the command it queues.
pub fn load_line(line: &str) -> (r: (Option<Decimal>, Option<String>))
    ensures
        r.0 == max_z_of(line@),
        r.1 matches Some(c) ==> queued_line(line@) == Some(c@),
        r.1 is None ==> queued_line(line@) is None,
{
    let v = chars_of(line);
    let t = trim(&v);
    match find_max_z(&v) {
        Some((c, e)) => {
            let field = crate::text::slice_of(&v, c, e);
            let d = match Decimal::parse(&field) {
                Some(d) => d,
                None => Decimal::zero(),
            };
            return (Some(d), None);
        },
        None => {},
    }
    if t.len() == 0 || t[0] == ';' {
        return (None, None);
    }
    match find_char(&t, ';') {
        Some(k) => {
            let p = prefix(&t, k);
            (None, Some(string_of(p.as_slice())))
        },
        None => (None, Some(string_of(t.as_slice()))),
    }
}

} // verus!

verus! {

/// The lines queued when a print is stopped: park the head, dwell, reset
/// flow rate and linear advance, extruder, bed and fan off, motors off.
pub open spec fn shutdown_commands() -> Seq<Seq<char>> {
    seq![
        "G1 X0 Y200 F3600"@,
        "G4"@,
        "M221 S100"@,
        "M900 K0"@,
        "M104 S0"@,
        "M140 S0"@,
        "M107"@,
        "M84"@,
    ]
}

/// A count as carried in telemetry: saturating at the largest `u32`.
pub open spec fn count_u32(n: nat) -> u32 {
    if n > u32::MAX {
        u32::MAX
    } else {
        n as u32
    }
}

pub fn to_count(n: usize) -> (r: u32)
    ensures
        r == count_u32(n as nat),
{
    if n > u32::MAX as usize {
        u32::MAX
    } else {
        n as u32
    }
}

/// The command that sets the bed target temperature.
pub open spec fn bed_temp_command(t: u16) -> Seq<char> {
    "M140 S"@ + decimal_text(t as nat)
}

/// The command that sets the extruder target temperature.
pub open spec fn extruder_temp_command(t: u16) -> Seq<char> {
    "M104 S"@ + decimal_text(t as nat)
}

fn temp_command(head: &str, t: u16) -> (r: String)
    ensures
        r@ == head@ + decimal_text(t as nat),
{
    let mut v = chars_of(head);
    let mut d = decimal_string(t as u64);
    v.append(&mut d);
    string_of(v.as_slice())
}

/// What the controller asks of its caller after an action.
#[derive(Debug)]
pub enum Reaction {
    /// Publish these actions on the bus, in order.
    Publish(Vec<Action>),
    /// Open this file and hand it to `start_print`.
    LoadFile(String),
    /// The printer signal has no defined handling.
    NotSupported(PrinterAction),
}

/// The print controller's own state: the file being printed, if any.
pub struct GcodeSerial {
    pub active_file: Option<GcodeFile>,
}

impl GcodeSerial {
    pub fn new() -> (r: GcodeSerial)
        ensures
            r.active_file is None,
    {
        GcodeSerial { active_file: None }
    }

    /// Queues the bed and then the extruder target temperature.
    pub fn set_temps(&mut self, que: &mut CommandQueue, bed_temp: u16, extruder_temp: u16)
        ensures
            final(que)@ == old(que)@.push(bed_temp_command(bed_temp)).push(
                extruder_temp_command(extruder_temp),
            ),
            *final(self) == *old(self),
    {
        que.push_back(temp_command("M140 S", bed_temp));
        que.push_back(temp_command("M104 S", extruder_temp));
    }

    /// Streams file lines into the queue through the load filter; returns the
    /// max-layer telemetry they publish.
    pub fn load_file_to_que(&self, que: &mut CommandQueue, lines: &Vec<String>) -> (r: Vec<Action>)
        ensures
            final(que)@ == old(que)@ + queued_lines(views_of(lines@)),
            r@ == max_z_actions(views_of(lines@)),
    {
        let mut out: Vec<Action> = Vec::new();
        let mut k: usize = 0;
        while k < lines.len()
            invariant
                k <= lines@.len(),
                que@ == old(que)@ + queued_lines(views_of(lines@).subrange(0, k as int)),
                out@ == max_z_actions(views_of(lines@).subrange(0, k as int)),
            decreases lines.len() - k,
        {
            let ghost ls = views_of(lines@).subrange(0, k + 1);
            assert(ls.drop_last() =~= views_of(lines@).subrange(0, k as int));
            assert(ls.last() == lines@[k as int]@);
            let (z, cmd) = load_line(lines[k].as_str());
            match z {
                Some(d) => out.push(Action::Telemetry(TelemetryData::MaxZHeight(d))),
                None => {},
            }
            match cmd {
                Some(c) => que.push_back(c),
                None => {},
            }
            k = k + 1;
        }
        assert(views_of(lines@).subrange(0, k as int) =~= views_of(lines@));
        out
    }

    /// Starts a print of `file`, whose lines are `lines`, unless more than
    /// ten commands are queued.
    pub fn start_print(&mut self, que: &mut CommandQueue, file: GcodeFile, lines: &Vec<String>) -> (r: Vec<Action>)
        ensures
            old(que)@.len() > ADMISSION_LIMIT ==> final(que)@ == old(que)@ && *final(self) == *old(self)
                && r@.len() == 0,
            old(que)@.len() <= ADMISSION_LIMIT ==> {
                &&& final(que)@ == old(que)@ + queued_lines(views_of(lines@))
                &&& final(self).active_file == Some(file)
                &&& r@ == seq![Action::Telemetry(TelemetryData::ActiveFileChange(Some(file)))]
                    + max_z_actions(views_of(lines@)) + seq![
                    Action::Telemetry(TelemetryData::TotalCommandCount(count_u32(final(que)@.len()))),
                    Action::StateChange(PrinterStatus::Active),
                ]
            },
    {
        if que.len() > ADMISSION_LIMIT {
            return Vec::new();
        }
        let mut out: Vec<Action> = Vec::new();
        out.push(Action::Telemetry(TelemetryData::ActiveFileChange(Some(file.duplicate()))));
        self.active_file = Some(file);
        let mut zs = self.load_file_to_que(que, lines);
        out.append(&mut zs);
        out.push(Action::Telemetry(TelemetryData::TotalCommandCount(to_count(que.len()))));
        out.push(Action::StateChange(PrinterStatus::Active));
        out
    }

    /// Empties the queue and queues the shutdown sequence.
    pub fn clear_que_add_ending_code(&self, que: &mut CommandQueue)
        ensures
            final(que)@ == shutdown_commands(),
    {
        que.clear();
        que.push_back(String::from_str("G1 X0 Y200 F3600"));
        que.push_back(String::from_str("G4"));
        que.push_back(String::from_str("M221 S100"));
        que.push_back(String::from_str("M900 K0"));
        que.push_back(String::from_str("M104 S0"));
        que.push_back(String::from_str("M140 S0"));
        que.push_back(String::from_str("M107"));
        que.push_back(String::from_str("M84"));
        assert(que@ =~= shutdown_commands());
    }

    /// Stops the active print: the queue then holds the shutdown sequence
    /// alone, whatever it held before.
    pub fn stop_print(&self, que: &mut CommandQueue) -> (r: Vec<Action>)
        ensures
            final(que)@ == shutdown_commands(),
            shutdown_commands().len() == 8,
            r@ == seq![
                Action::Telemetry(TelemetryData::TotalCommandCount(0)),
                Action::StateChange(PrinterStatus::Idle),
            ],
    {
        self.clear_que_add_ending_code(que);
        let mut out: Vec<Action> = Vec::new();
        out.push(Action::Telemetry(TelemetryData::TotalCommandCount(0)));
        out.push(Action::StateChange(PrinterStatus::Idle));
        assert(out@ =~= seq![
            Action::Telemetry(TelemetryData::TotalCommandCount(0)),
            Action::StateChange(PrinterStatus::Idle),
        ]);
        out
    }

    /// Reacts to one message from the bus. `now` is the current time, in
    /// milliseconds since the Unix epoch.
    pub fn handle_action(&mut self, que: &mut CommandQueue, action: Action, now: u128) -> (r: Reaction)
        ensures
            match action {
                Action::StateChange(PrinterStatus::Idle) => match old(self).active_file {
                    Some(f) => {
                        &&& r matches Reaction::Publish(v) && v@ == seq![
                            Action::Telemetry(TelemetryData::PrintFinished(f.finished_spec(now))),
                        ]
                        &&& final(self).active_file is None
                        &&& final(que)@ == old(que)@
                    },
                    None => r matches Reaction::Publish(v) && v@.len() == 0 && *final(self) == *old(self)
                        && final(que)@ == old(que)@,
                },
                Action::PrinterAction(PrinterAction::Cancel) | Action::Command(Command::StopPrint) => {
                    &&& r matches Reaction::Publish(v) && v@ == seq![
                        Action::Telemetry(TelemetryData::TotalCommandCount(0)),
                        Action::StateChange(PrinterStatus::Idle),
                    ]
                    &&& final(que)@ == shutdown_commands()
                    &&& *final(self) == *old(self)
                },
                Action::PrinterAction(a) => r == Reaction::NotSupported(a) && *final(self) == *old(self)
                    && final(que)@ == old(que)@,
                Action::Command(Command::SetTemps(b, e)) => {
                    &&& r matches Reaction::Publish(v) && v@.len() == 0
                    &&& final(que)@ == old(que)@.push(bed_temp_command(b)).push(extruder_temp_command(e))
                    &&& *final(self) == *old(self)
                },
                Action::Command(Command::StartPrint(path)) => {
                    &&& old(que)@.len() > ADMISSION_LIMIT ==> (r matches Reaction::Publish(v) && v@.len() == 0)
                    &&& old(que)@.len() <= ADMISSION_LIMIT ==> r == Reaction::LoadFile(path)
                    &&& final(que)@ == old(que)@
                    &&& *final(self) == *old(self)
                },
                _ => r matches Reaction::Publish(v) && v@.len() == 0 && *final(self) == *old(self)
                    && final(que)@ == old(que)@,
            },
    {
        match action {
            Action::StateChange(PrinterStatus::Idle) => {
                match self.active_file.take() {
                    Some(f) => {
                        let mut out: Vec<Action> = Vec::new();
                        out.push(Action::Telemetry(TelemetryData::PrintFinished(f.finished(now))));
                        Reaction::Publish(out)
                    },
                    None => Reaction::Publish(Vec::new()),
                }
            },
            Action::PrinterAction(PrinterAction::Cancel) | Action::Command(Command::StopPrint) => {
                Reaction::Publish(self.stop_print(que))
            },
            Action::PrinterAction(a) => Reaction::NotSupported(a),
            Action::Command(Command::SetTemps(b, e)) => {
                self.set_temps(que, b, e);
                Reaction::Publish(Vec::new())
            },
            Action::Command(Command::StartPrint(path)) => {
                if que.len() > ADMISSION_LIMIT {
                    Reaction::Publish(Vec::new())
                } else {
                    Reaction::LoadFile(path)
                }
            },
            _ => Reaction::Publish(Vec::new()),
        }
    }
}

} // verus!

verus! {

/// A file line that carries a command: not blank, and not a comment line.
pub open spec fn is_command_line(l: Seq<char>) -> bool {
    trimmed(l).len() > 0 && trimmed(l)[0] != ';'
}

/// The command of a line: the trimmed line up to its first `;`.
pub open spec fn command_part(l: Seq<char>) -> Seq<char> {
    match first_index_of(trimmed(l), ';') {
        Some(k) => trimmed(l).subrange(0, k),
        None => trimmed(l),
    }
}

pub open spec fn command_line_pred() -> spec_fn(Seq<char>) -> bool {
    |l: Seq<char>| is_command_line(l)
}

pub open spec fn command_part_fn() -> spec_fn(Seq<char>) -> Seq<char> {
    |l: Seq<char>| command_part(l)
}

/// Loading lines that carry no max-layer comment queues exactly the
/// commands of the lines that are neither blank nor comments, in their
/// order, each without its inline comment; nothing is published.
pub proof fn lemma_load_keeps_command_lines(ls: Seq<Seq<char>>)
    requires
        forall|j: int| 0 <= j < ls.len() ==> max_z_of(#[trigger] ls[j]) is None,
    ensures
        queued_lines(ls) == ls.filter(command_line_pred()).map_values(command_part_fn()),
        max_z_actions(ls) == Seq::<Action>::empty(),
    decreases ls.len(),
{
    reveal(Seq::filter);
    if ls.len() == 0 {
        assert(ls.filter(command_line_pred()) =~= Seq::<Seq<char>>::empty());
        assert(ls.filter(command_line_pred()).map_values(command_part_fn()) =~= Seq::<Seq<char>>::empty());
    } else {
        let init = ls.drop_last();
        assert forall|j: int| 0 <= j < init.len() implies max_z_of(#[trigger] init[j]) is None by {
            assert(init[j] == ls[j]);
        }
        lemma_load_keeps_command_lines(init);
        assert(max_z_of(ls.last()) is None);
        let f = init.filter(command_line_pred());
        if is_command_line(ls.last()) {
            assert(ls.filter(command_line_pred()) == f.push(ls.last()));
            assert(f.push(ls.last()).map_values(command_part_fn()) =~= f.map_values(command_part_fn())
                + seq![command_part(ls.last())]);
        } else {
            assert(ls.filter(command_line_pred()) == f);
            assert(queued_lines(init) + Seq::<Seq<char>>::empty() =~= queued_lines(init));
        }
        assert(max_z_actions(init) + Seq::<Action>::empty() =~= Seq::<Action>::empty());
    }
}

/// A max-layer comment line, wherever it stands in a file, publishes its
/// height while the file loads and queues nothing: the queue is the one the
/// file gives without that line.
pub proof fn lemma_max_z_line_reported_not_queued(ls: Seq<Seq<char>>, j: int)
    requires
        0 <= j < ls.len(),
        max_z_of(ls[j]) is Some,
    ensures
        queued_lines(ls) == queued_lines(ls.remove(j)),
        max_z_actions(ls).contains(
            Action::Telemetry(TelemetryData::MaxZHeight(max_z_of(ls[j]).unwrap())),
        ),
    decreases ls.len(),
{
    let a = Action::Telemetry(TelemetryData::MaxZHeight(max_z_of(ls[j]).unwrap()));
    let init = ls.drop_last();
    if j == ls.len() - 1 {
        assert(ls.remove(j) =~= init);
        assert(queued_lines(init) + Seq::<Seq<char>>::empty() =~= queued_lines(init));
        assert(max_z_actions(ls) == max_z_actions(init) + seq![a]);
        assert(max_z_actions(ls)[max_z_actions(init).len() as int] == a);
    } else {
        lemma_max_z_line_reported_not_queued(init, j);
        assert(init[j] == ls[j]);
        assert(ls.remove(j).drop_last() =~= init.remove(j));
        assert(ls.remove(j).last() == ls.last());
        let prev = max_z_actions(init);
        let k = choose|k: int| 0 <= k < prev.len() && prev[k] == a;
        let tail = match max_z_of(ls.last()) {
            Some(d) => seq![Action::Telemetry(TelemetryData::MaxZHeight(d))],
            None => Seq::<Action>::empty(),
        };
        assert(max_z_actions(ls) == prev + tail);
        assert((prev + tail)[k] == a);
    }
}

} // verus!
