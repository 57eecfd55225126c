//! The text of the per-cycle lines of a signal's timing diagram.
use vstd::prelude::*;
use crate::cycle::Cycle;

verus! {

/// The character of a decimal digit.
pub open spec fn digit_char(d: nat) -> char {
    if d == 0 { '0' } else if d == 1 { '1' } else if d == 2 { '2' } else if d == 3 { '3' }
    else if d == 4 { '4' } else if d == 5 { '5' } else if d == 6 { '6' } else if d == 7 { '7' }
    else if d == 8 { '8' } else { '9' }
}

/// `n` written in decimal, without leading zeros.
pub open spec fn decimal(n: nat) -> Seq<char>
    decreases n,
{
    if n < 10 { seq![digit_char(n)] } else { decimal(n / 10).push(digit_char(n % 10)) }
}

/// `t` tenths written with exactly one decimal place, as `12.3`.
pub open spec fn tenths(t: nat) -> Seq<char> {
    decimal(t / 10) + seq!['.', digit_char(t % 10)]
}

/// A signed amount of tenths with one decimal place.
pub open spec fn signed_tenths(v: int) -> Seq<char> {
    if v < 0 { seq!['-'] + tenths((-v) as nat) } else { tenths(v as nat) }
}

/// A duration of `d` tenths of a second, as `10 s` or `10.5 s`.
pub open spec fn seconds(d: nat) -> Seq<char> {
    if d % 10 == 0 {
        decimal(d / 10) + seq![' ', 's']
    } else {
        decimal(d / 10) + seq!['.', digit_char(d % 10), ' ', 's']
    }
}

pub open spec fn overtime_word() -> Seq<char> {
    seq!['O', 'V', 'E', 'R', 'T', 'I', 'M', 'E']
}

/// What a cycle's line says after its number.
#[derive(Clone, Copy, Debug, PartialEq, Eq, Structural)]
pub enum LabelStatus {
    /// An inactive cycle: its duration, in tenths of a second.
    Duration { duration: u64 },
    /// The active cycle: time spent in it and its duration, in tenths of a second.
    Progress { elapsed: i128, duration: u64 },
    /// The active cycle has run past its duration.
    Overtime,
}

/// The line of one cycle in the timing diagram.
#[derive(Clone, Copy, Debug, PartialEq, Eq, Structural)]
pub struct CycleLabel {
    /// The cycle's position, counted from one.
    pub number: usize,
    pub status: LabelStatus,
}

/// The line of the cycle at `idx` of duration `duration`, where `current` is
/// the active cycle and `time_left` its remaining time, if known.
pub open spec fn label_for(idx: nat, duration: u64, current: nat, time_left: Option<i64>) -> CycleLabel {
    CycleLabel {
        number: (idx + 1) as usize,
        status: if idx == current && time_left is Some {
            if time_left->0 < 0 {
                LabelStatus::Overtime
            } else {
                LabelStatus::Progress { elapsed: (duration - time_left->0) as i128, duration }
            }
        } else {
            LabelStatus::Duration { duration }
        },
    }
}

pub open spec fn head_text(number: nat) -> Seq<char> {
    seq!['C', 'y', 'c', 'l', 'e', ' '] + decimal(number) + seq![':', ' ']
}

pub open spec fn tail_text(status: LabelStatus) -> Seq<char> {
    match status {
        LabelStatus::Duration { duration } => seconds(duration as nat),
        LabelStatus::Progress { elapsed, duration } => signed_tenths(elapsed as int) + seq!['s', ' ', '/', ' ']
            + seconds(duration as nat),
        LabelStatus::Overtime => overtime_word(),
    }
}

fn digit_str(d: u64) -> (r: &'static str)
    requires
        d < 10,
    ensures
        r@ == seq![digit_char(d as nat)],
{
    proof {
        reveal_strlit("0"); reveal_strlit("1"); reveal_strlit("2"); reveal_strlit("3");
        reveal_strlit("4"); reveal_strlit("5"); reveal_strlit("6"); reveal_strlit("7");
        reveal_strlit("8"); reveal_strlit("9");
    }
    let r = if d == 0 { "0" } else if d == 1 { "1" } else if d == 2 { "2" } else if d == 3 { "3" }
    else if d == 4 { "4" } else if d == 5 { "5" } else if d == 6 { "6" } else if d == 7 { "7" }
    else if d == 8 { "8" } else { "9" };
    assert(r@ =~= seq![digit_char(d as nat)]);
    r
}

/// Appends `n` in decimal to `s`.
pub fn push_decimal(s: &mut String, n: u64)
    ensures
        final(s)@ == old(s)@ + decimal(n as nat),
    decreases n,
{
    if n >= 10 {
        push_decimal(s, n / 10);
    }
    s.append(digit_str(n % 10));
    proof {
        if n >= 10 {
            assert(old(s)@ + decimal(n as nat) =~= old(s)@ + decimal((n / 10) as nat) + seq![digit_char((n % 10) as nat)]);
        } else {
            assert(decimal(n as nat) == seq![digit_char(n as nat)]);
            assert((n % 10) == n);
        }
    }
}

/// Appends `t` tenths with one decimal place to `s`.
fn push_tenths(s: &mut String, t: u128)
    requires
        t <= u64::MAX,
    ensures
        final(s)@ == old(s)@ + tenths(t as nat),
{
    push_decimal(s, (t / 10) as u64);
    s.append(".");
    s.append(digit_str((t % 10) as u64));
    proof { reveal_strlit("."); }
    assert(final(s)@ =~= old(s)@ + tenths(t as nat));
}

/// Appends a duration of `d` tenths of a second to `s`.
fn push_seconds(s: &mut String, d: u64)
    ensures
        final(s)@ == old(s)@ + seconds(d as nat),
{
    push_decimal(s, d / 10);
    if d % 10 != 0 {
        s.append(".");
        s.append(digit_str(d % 10));
    }
    s.append(" s");
    proof { reveal_strlit("."); reveal_strlit(" s"); }
    assert(final(s)@ =~= old(s)@ + seconds(d as nat));
}

impl CycleLabel {
    /// The part of the line before its status: `Cycle 3: `.
    pub fn head(&self) -> (r: String)
        ensures
            r@ == head_text(self.number as nat),
    {
        let mut s = String::new();
        s.append("Cycle ");
        push_decimal(&mut s, self.number as u64);
        s.append(": ");
        proof { reveal_strlit("Cycle "); reveal_strlit(": "); }
        assert(s@ =~= head_text(self.number as nat));
        s
    }

    /// The status part of the line, as `10 s`, `3.0s / 10 s` or `OVERTIME`.
    pub fn tail(&self) -> (r: String)
        requires
            self.status matches LabelStatus::Progress { elapsed, .. } ==> -u64::MAX <= elapsed <= u64::MAX,
        ensures
            r@ == tail_text(self.status),
    {
        let mut s = String::new();
        match self.status {
            LabelStatus::Duration { duration } => {
                push_seconds(&mut s, duration);
            },
            LabelStatus::Progress { elapsed, duration } => {
                if elapsed < 0 {
                    s.append("-");
                    push_tenths(&mut s, (-elapsed) as u128);
                } else {
                    push_tenths(&mut s, elapsed as u128);
                }
                s.append("s / ");
                push_seconds(&mut s, duration);
                proof { reveal_strlit("-"); reveal_strlit("s / "); }
            },
            LabelStatus::Overtime => {
                s.append("OVERTIME");
                proof { reveal_strlit("OVERTIME"); }
            },
        }
        assert(s@ =~= tail_text(self.status));
        s
    }

    /// Whether the status part is drawn in the alert color.
    pub fn tail_alert(&self) -> (r: bool)
        ensures
            r == (self.status is Overtime),
    {
        match self.status {
            LabelStatus::Overtime => true,
            _ => false,
        }
    }

    /// The whole line.
    pub fn text(&self) -> (r: String)
        requires
            self.status matches LabelStatus::Progress { elapsed, .. } ==> -u64::MAX <= elapsed <= u64::MAX,
        ensures
            r@ == head_text(self.number as nat) + tail_text(self.status),
    {
        let h = self.head();
        let t = self.tail();
        h.concat(t.as_str())
    }
}

/// The lines of a signal's cycles, in cycle order. The cycle at
/// `current_cycle` shows its progress when `time_left` (tenths of a second)
/// is given, or `OVERTIME` when that is negative.
pub fn cycle_labels(cycles: &Vec<Cycle>, current_cycle: usize, time_left: Option<i64>) -> (r: Vec<CycleLabel>)
    ensures
        r@.len() == cycles@.len(),
        forall|k: int| 0 <= k < cycles@.len() ==> #[trigger] r@[k] == label_for(k as nat, cycles@[k].duration, current_cycle as nat, time_left),
{
    let mut r: Vec<CycleLabel> = Vec::new();
    let mut k: usize = 0;
    while k < cycles.len()
        invariant
            k <= cycles@.len(),
            r@.len() == k,
            forall|j: int| 0 <= j < k ==> #[trigger] r@[j] == label_for(j as nat, cycles@[j].duration, current_cycle as nat, time_left),
        decreases cycles@.len() - k,
    {
        let duration = cycles[k].duration;
        let status = match time_left {
            Some(t) if k == current_cycle => {
                if t < 0 {
                    LabelStatus::Overtime
                } else {
                    LabelStatus::Progress { elapsed: duration as i128 - t as i128, duration }
                }
            },
            _ => LabelStatus::Duration { duration },
        };
        r.push(CycleLabel { number: k + 1, status });
        k = k + 1;
    }
    r
}

/// A negative remaining time shows the active cycle's status as the word
/// `OVERTIME` in the alert color, whatever its magnitude.
pub proof fn law_overtime_label(current: nat, duration: u64, time_left: i64)
    requires
        time_left < 0,
    ensures
        label_for(current, duration, current, Some(time_left)).status is Overtime,
        tail_text(label_for(current, duration, current, Some(time_left)).status) == overtime_word(),
{
}

} // verus!
