//! Telemetry read from a command just before it is sent: target
//! temperatures, Z height and fan duty.
use vstd::prelude::*;
use crate::decimal::{Decimal, digits_u32, parse_digits_u32, parse_spec};
use crate::models::TelemetryData;
use crate::text::{
    chars_of, contains, contains_str, digit_point_pred, digit_pred, digit_run_end, is_digit,
    is_digit_or_point, is_white_space, lemma_run_end_bounds, run_end, slice_of, white_space,
};

verus! {

/// `M1<d><d> S<d>` starts at `i`: a temperature-setting command with a value.
pub open spec fn temp_head_at(s: Seq<char>, i: int) -> bool {
    0 <= i && i + 6 < s.len() && s[i] == 'M' && s[i + 1] == '1' && is_digit(s[i + 2]) && is_digit(
        s[i + 3],
    ) && white_space(s[i + 4]) && s[i + 5] == 'S' && is_digit(s[i + 6])
}

/// The last index at or below `i` where `temp_head_at` holds.
pub open spec fn last_temp_head(s: Seq<char>, i: int) -> Option<int>
    decreases i + 1,
{
    if i < 0 {
        None
    } else if temp_head_at(s, i) {
        Some(i)
    } else {
        last_temp_head(s, i - 1)
    }
}

/// The value field of the last temperature-setting command in `s`.
pub open spec fn temp_field(s: Seq<char>) -> Option<Seq<char>> {
    match last_temp_head(s, s.len() - 1) {
        Some(i) => Some(s.subrange(i + 6, run_end(s, i + 6, digit_pred()))),
        None => None,
    }
}

/// `G1` followed by white space starts at `i`.
pub open spec fn move_head_at(s: Seq<char>, i: int) -> bool {
    0 <= i && i + 2 < s.len() && s[i] == 'G' && s[i + 1] == '1' && white_space(s[i + 2])
}

/// The first index at or above `i` where `move_head_at` holds.
pub open spec fn first_move_head(s: Seq<char>, i: int) -> Option<int>
    decreases s.len() - i,
{
    if i < 0 || i >= s.len() {
        None
    } else if move_head_at(s, i) {
        Some(i)
    } else {
        first_move_head(s, i + 1)
    }
}

/// `Z` followed by a digit or point stands at `k`.
pub open spec fn z_at(s: Seq<char>, k: int) -> bool {
    0 <= k && k + 1 < s.len() && s[k] == 'Z' && is_digit_or_point(s[k + 1])
}

/// The last index in `lo..=i` where `z_at` holds.
pub open spec fn last_z(s: Seq<char>, lo: int, i: int) -> Option<int>
    decreases i + 1 - lo,
{
    if i < lo {
        None
    } else if z_at(s, i) {
        Some(i)
    } else {
        last_z(s, lo, i - 1)
    }
}

/// The Z field of a move: after the first `G1 `, the last `Z` with a
/// number.
pub open spec fn z_field(s: Seq<char>) -> Option<Seq<char>> {
    match first_move_head(s, 0) {
        Some(j) => match last_z(s, j + 3, s.len() - 1) {
            Some(k) => Some(s.subrange(k + 1, run_end(s, k + 1, digit_point_pred()))),
            None => None,
        },
        None => None,
    }
}

/// `M106` followed by white space starts at `i`.
pub open spec fn fan_head_at(s: Seq<char>, i: int) -> bool {
    0 <= i && i + 4 < s.len() && s[i] == 'M' && s[i + 1] == '1' && s[i + 2] == '0' && s[i + 3]
        == '6' && white_space(s[i + 4])
}

pub open spec fn first_fan_head(s: Seq<char>, i: int) -> Option<int>
    decreases s.len() - i,
{
    if i < 0 || i >= s.len() {
        None
    } else if fan_head_at(s, i) {
        Some(i)
    } else {
        first_fan_head(s, i + 1)
    }
}

/// The last index at or below `i` that holds `c`.
pub open spec fn last_index_of(s: Seq<char>, c: char, i: int) -> Option<int>
    decreases i + 1,
{
    if i < 0 {
        None
    } else if i < s.len() && s[i] == c {
        Some(i)
    } else {
        last_index_of(s, c, i - 1)
    }
}

/// The duty field of a fan command: the run of digits and points after the
/// last `S`, where an `M106 ` stands before that `S`. It may be empty.
pub open spec fn fan_field(s: Seq<char>) -> Option<Seq<char>> {
    match (first_fan_head(s, 0), last_index_of(s, 'S', s.len() - 1)) {
        (Some(i), Some(k)) => if i + 5 <= k {
            Some(s.subrange(k + 1, run_end(s, k + 1, digit_point_pred())))
        } else {
            None
        },
        _ => None,
    }
}

/// What the target-temperature rule publishes for a command.
pub open spec fn target_telemetry(s: Seq<char>) -> Seq<TelemetryData> {
    let v = match temp_field(s) {
        Some(f) => digits_u32(f),
        None => 0,
    };
    if v == 0 {
        Seq::empty()
    } else if contains(s, "M104 S"@) {
        seq![TelemetryData::TargetExtruderTemp(v)]
    } else if contains(s, "M140 S"@) {
        seq![TelemetryData::TargetBedTemp(v)]
    } else {
        Seq::empty()
    }
}

pub open spec fn z_telemetry(s: Seq<char>) -> Seq<TelemetryData> {
    match z_field(s) {
        Some(f) => match parse_spec(f) {
            Some(d) => seq![TelemetryData::ZHeight(d)],
            None => Seq::empty(),
        },
        None => Seq::empty(),
    }
}

pub open spec fn fan_telemetry(s: Seq<char>) -> Seq<TelemetryData> {
    match fan_field(s) {
        Some(f) => match parse_spec(f) {
            Some(d) => seq![TelemetryData::FanSpeed(d)],
            None => Seq::empty(),
        },
        None => Seq::empty(),
    }
}

/// All the telemetry published before sending `s`, in order.
pub open spec fn presend_spec(s: Seq<char>) -> Seq<TelemetryData> {
    target_telemetry(s) + z_telemetry(s) + fan_telemetry(s)
}

fn is_digit_char(c: char) -> (r: bool)
    ensures
        r == is_digit(c),
{
    '0' <= c && c <= '9'
}

fn find_temp_field(v: &Vec<char>) -> (r: Option<(usize, usize)>)
    ensures
        r matches Some((a, b)) ==> a <= b <= v@.len() && temp_field(v@) == Some(
            v@.subrange(a as int, b as int),
        ),
        r is None ==> temp_field(v@) is None,
{
    let mut i: usize = v.len();
    while i > 0
        invariant
            i <= v@.len(),
            last_temp_head(v@, v@.len() - 1) == last_temp_head(v@, i - 1),
        decreases i,
    {
        let k = i - 1;
        if v.len() - k > 6 && v[k] == 'M' && v[k + 1] == '1' && is_digit_char(v[k + 2])
            && is_digit_char(v[k + 3]) && is_white_space(v[k + 4]) && v[k + 5] == 'S'
            && is_digit_char(v[k + 6]) {
            let e = digit_run_end(v, k + 6, false);
            proof {
                lemma_run_end_bounds(v@, k + 6, digit_pred());
            }
            return Some((k + 6, e));
        }
        i = k;
    }
    None
}

fn find_z_field(v: &Vec<char>) -> (r: Option<(usize, usize)>)
    ensures
        r matches Some((a, b)) ==> a <= b <= v@.len() && z_field(v@) == Some(
            v@.subrange(a as int, b as int),
        ),
        r is None ==> z_field(v@) is None,
{
    let mut j: usize = 0;
    assert(first_move_head(v@, 0) == first_move_head(v@, j as int));
    while j < v.len() && !(v.len() - j > 2 && v[j] == 'G' && v[j + 1] == '1' && is_white_space(
        v[j + 2],
    ))
        invariant
            j <= v@.len(),
            first_move_head(v@, 0) == first_move_head(v@, j as int),
        decreases v.len() - j,
    {
        j = j + 1;
    }
    if j >= v.len() {
        return None;
    }
    let lo = j + 3;
    let mut i: usize = v.len();
    while i > lo
        invariant
            lo <= v@.len(),
            lo <= i <= v@.len(),
            first_move_head(v@, 0) == Some(j as int),
            lo == j + 3,
            last_z(v@, lo as int, v@.len() - 1) == last_z(v@, lo as int, i - 1),
        decreases i,
    {
        let k = i - 1;
        if k + 1 < v.len() && v[k] == 'Z' && (is_digit_char(v[k + 1]) || v[k + 1] == '.') {
            let e = digit_run_end(v, k + 1, true);
            proof {
                lemma_run_end_bounds(v@, k + 1, digit_point_pred());
            }
            return Some((k + 1, e));
        }
        i = k;
    }
    None
}

fn find_fan_field(v: &Vec<char>) -> (r: Option<(usize, usize)>)
    ensures
        r matches Some((a, b)) ==> a <= b <= v@.len() && fan_field(v@) == Some(
            v@.subrange(a as int, b as int),
        ),
        r is None ==> fan_field(v@) is None,
{
    let mut j: usize = 0;
    assert(first_fan_head(v@, 0) == first_fan_head(v@, j as int));
    while j < v.len() && !(v.len() - j > 4 && v[j] == 'M' && v[j + 1] == '1' && v[j + 2] == '0'
        && v[j + 3] == '6' && is_white_space(v[j + 4]))
        invariant
            j <= v@.len(),
            first_fan_head(v@, 0) == first_fan_head(v@, j as int),
        decreases v.len() - j,
    {
        j = j + 1;
    }
    let mut i: usize = v.len();
    while i > 0 && v[i - 1] != 'S'
        invariant
            i <= v@.len(),
            last_index_of(v@, 'S', v@.len() - 1) == last_index_of(v@, 'S', i - 1),
        decreases i,
    {
        i = i - 1;
    }
    if j >= v.len() || i == 0 {
        return None;
    }
    let k = i - 1;
    if j + 5 > k {
        return None;
    }
    let e = digit_run_end(v, k + 1, true);
    proof {
        lemma_run_end_bounds(v@, k + 1, digit_point_pred());
    }
    Some((k + 1, e))
}

/// The telemetry to publish before sending `cmd`: a non-zero target from
/// `M104 S<n>` (extruder) or `M140 S<n>` (bed), the Z of a `G1` move, and
/// the duty of an `M106` fan command, in that order.
pub fn presend_telemetry(cmd: &str) -> (r: Vec<TelemetryData>)
    ensures
        r@ == presend_spec(cmd@),
{
    let v = chars_of(cmd);
    let mut out: Vec<TelemetryData> = Vec::new();
    let value = match find_temp_field(&v) {
        Some((a, b)) => parse_digits_u32(&slice_of(&v, a, b)),
        None => 0,
    };
    if value != 0 {
        if contains_str(&v, "M104 S") {
            out.push(TelemetryData::TargetExtruderTemp(value));
        } else if contains_str(&v, "M140 S") {
            out.push(TelemetryData::TargetBedTemp(value));
        }
    }
    assert(out@ =~= target_telemetry(cmd@));
    let ghost t = out@;
    match find_z_field(&v) {
        Some((a, b)) => match Decimal::parse(&slice_of(&v, a, b)) {
            Some(d) => out.push(TelemetryData::ZHeight(d)),
            None => {},
        },
        None => {},
    }
    assert(out@ =~= t + z_telemetry(cmd@));
    let ghost tz = out@;
    match find_fan_field(&v) {
        Some((a, b)) => match Decimal::parse(&slice_of(&v, a, b)) {
            Some(d) => out.push(TelemetryData::FanSpeed(d)),
            None => {},
        },
        None => {},
    }
    assert(out@ =~= tz + fan_telemetry(cmd@));
    out
}

} // verus!
