//! What the quiz dialog shows: its state line, the attempt's deadline and the time left.
use vstd::prelude::*;
use crate::models::{QuizAnswerControl, QuizAnswerKind};
use crate::state::QuizModalData;
use crate::text::{int_decimal, nat_decimal, push_decimal, push_i64, push_str};

verus! {

/// The state line of the quiz dialog.
pub open spec fn status_text_spec(m: QuizModalData) -> Seq<char> {
    if m.loading {
        "loading"@
    } else if m.saving {
        "saving"@
    } else if m.finishing {
        "finishing"@
    } else if m.ai_filling {
        "AI filling..."@
    } else {
        match m.attempt {
            Some(a) => "attempt #"@ + int_decimal(a.attempt.id as int) + " "@ + a.attempt.state@,
            None => "ready"@,
        }
    }
}

/// The state line of the quiz dialog: what it is busy with, else the attempt, else ready.
pub fn status_text(modal: &QuizModalData) -> (r: String)
    ensures
        r@ == status_text_spec(*modal),
{
    if modal.loading {
        "loading".to_owned()
    } else if modal.saving {
        "saving".to_owned()
    } else if modal.finishing {
        "finishing".to_owned()
    } else if modal.ai_filling {
        "AI filling...".to_owned()
    } else {
        match &modal.attempt {
            Some(a) => {
                let mut s = String::new();
                push_str(&mut s, "attempt #");
                push_i64(&mut s, a.attempt.id);
                push_str(&mut s, " ");
                push_str(&mut s, a.attempt.state.as_str());
                s
            },
            None => "ready".to_owned(),
        }
    }
}

/// The end of the attempt by its own time limit: its finish time when set, else its start
/// plus the quiz's time limit.
pub open spec fn own_deadline(m: QuizModalData) -> Option<int> {
    match m.attempt {
        None => None,
        Some(a) => match a.attempt.timefinish {
            Some(f) if f > 0 => Some(f as int),
            _ => match m.summary {
                Some(s) => match (s.timelimit, a.attempt.timestart) {
                    (Some(l), Some(t)) if l > 0 => Some(t + l),
                    _ => None,
                },
                None => None,
            },
        },
    }
}

/// When the attempt must end: its own deadline, capped by the quiz's closing time.
pub open spec fn deadline_spec(m: QuizModalData) -> Option<int> {
    match m.attempt {
        None => None,
        Some(_) => {
            let close = match m.summary {
                Some(s) => match s.timeclose {
                    Some(c) if c > 0 => Some(c as int),
                    _ => None,
                },
                None => None,
            };
            match (own_deadline(m), close) {
                (Some(d), Some(c)) => Some(if d <= c { d } else { c }),
                (Some(d), None) => Some(d),
                (None, Some(c)) => Some(c),
                (None, None) => None,
            }
        },
    }
}

/// Start plus time limit stays inside `i64` wherever the deadline adds them.
pub open spec fn deadline_fits(m: QuizModalData) -> bool {
    own_deadline(m) matches Some(d) ==> i64::MIN <= d <= i64::MAX
}

/// Whether the attempt's own deadline (its start plus the time limit, when it has not
/// finished) can be computed in an `i64`.
pub fn deadline_computable(modal: &QuizModalData) -> (r: bool)
    ensures
        r == deadline_fits(*modal),
{
    let attempt = match &modal.attempt {
        Some(a) => &a.attempt,
        None => return true,
    };
    match attempt.timefinish {
        Some(f) if f > 0 => return true,
        _ => {},
    }
    match &modal.summary {
        Some(s) => match (s.timelimit, attempt.timestart) {
            (Some(l), Some(t)) if l > 0 => t.checked_add(l).is_some(),
            _ => true,
        },
        None => true,
    }
}

/// When the attempt must end, if anything limits it.
pub fn quiz_deadline(modal: &QuizModalData) -> (r: Option<i64>)
    requires
        deadline_fits(*modal),
    ensures
        match deadline_spec(*modal) {
            Some(d) => r == Some(d as i64),
            None => r is None,
        },
{
    let attempt = match &modal.attempt {
        Some(a) => &a.attempt,
        None => return None,
    };
    let mut deadline: Option<i64> = match attempt.timefinish {
        Some(f) if f > 0 => Some(f),
        _ => match &modal.summary {
            Some(s) => match (s.timelimit, attempt.timestart) {
                (Some(l), Some(t)) if l > 0 => Some(t + l),
                _ => None,
            },
            None => None,
        },
    };
    match &modal.summary {
        Some(s) => match s.timeclose {
            Some(c) if c > 0 => {
                deadline = Some(match deadline {
                    Some(d) => if d <= c { d } else { c },
                    None => c,
                });
            },
            _ => {},
        },
        None => {},
    }
    deadline
}

/// A number written with at least two digits.
pub open spec fn two_digits(n: nat) -> Seq<char> {
    if n < 10 {
        "0"@ + nat_decimal(n)
    } else {
        nat_decimal(n)
    }
}

/// `HH:MM:SS` for a number of seconds, negative counting as zero; hours may take more digits.
pub open spec fn duration_text(seconds: int) -> Seq<char> {
    let s: nat = if seconds > 0 { seconds as nat } else { 0 };
    two_digits(s / 3600) + ":"@ + two_digits((s % 3600) / 60) + ":"@ + two_digits(s % 60)
}

fn push_two_digits(out: &mut String, n: u64)
    ensures
        final(out)@ == old(out)@ + two_digits(n as nat),
{
    if n < 10 {
        push_str(out, "0");
    }
    push_decimal(out, n);
}

/// Formats a number of seconds as `HH:MM:SS`.
pub fn format_duration(seconds: i64) -> (r: String)
    ensures
        r@ == duration_text(seconds as int),
{
    let s: u64 = if seconds > 0 { seconds as u64 } else { 0 };
    let mut out = String::new();
    push_two_digits(&mut out, s / 3600);
    push_str(&mut out, ":");
    push_two_digits(&mut out, (s % 3600) / 60);
    push_str(&mut out, ":");
    push_two_digits(&mut out, s % 60);
    out
}

/// What the dialog shows as time left at `now` (Unix seconds): the time until the deadline
/// (zero once past), or "No limit".
pub open spec fn time_remaining_spec(m: QuizModalData, now: i64) -> Seq<char> {
    match deadline_spec(m) {
        Some(d) => {
            let left = d - now;
            duration_text(if left < i64::MIN { i64::MIN as int } else if left > i64::MAX { i64::MAX as int } else { left })
        },
        None => "No limit"@,
    }
}

/// The time left at `now` as the dialog shows it.
pub fn time_remaining_at(modal: &QuizModalData, now: i64) -> (r: String)
    requires
        deadline_fits(*modal),
    ensures
        r@ == time_remaining_spec(*modal, now),
{
    if modal.attempt.is_none() {
        return "No limit".to_owned();
    }
    let deadline = match quiz_deadline(modal) {
        Some(d) => d,
        None => return "No limit".to_owned(),
    };
    let wide: i128 = deadline as i128 - now as i128;
    let left: i64 = if wide < i64::MIN as i128 {
        i64::MIN
    } else if wide > i64::MAX as i128 {
        i64::MAX
    } else {
        wide as i64
    };
    format_duration(left)
}

/// The time left now, as the dialog shows it.
pub fn time_remaining_text(modal: &QuizModalData) -> (r: String)
    requires
        deadline_fits(*modal),
    ensures
        exists|now: i64| r@ == time_remaining_spec(*modal, now),
{
    let now = crate::clock::unix_now();
    time_remaining_at(modal, now)
}

/// The positions of the controls that are shown: all but the hidden ones.
pub open spec fn visible_positions(cs: Seq<QuizAnswerControl>) -> Seq<int>
    decreases cs.len(),
{
    if cs.len() == 0 {
        Seq::empty()
    } else if cs.last().kind == QuizAnswerKind::Hidden {
        visible_positions(cs.drop_last())
    } else {
        visible_positions(cs.drop_last()).push(cs.len() - 1)
    }
}

/// The controls that are shown, in order: all but the hidden ones.
pub fn visible_controls(controls: &[QuizAnswerControl]) -> (r: Vec<&QuizAnswerControl>)
    ensures
        r@.len() == visible_positions(controls@).len(),
        forall|k: int| 0 <= k < r@.len() ==> *r@[k] == controls@[#[trigger] visible_positions(controls@)[k]],
{
    let mut out: Vec<&QuizAnswerControl> = Vec::new();
    let mut i: usize = 0;
    while i < controls.len()
        invariant
            i <= controls@.len(),
            out@.len() == visible_positions(controls@.take(i as int)).len(),
            forall|k: int| 0 <= k < out@.len() ==> *out@[k] == controls@[#[trigger] visible_positions(controls@.take(i as int))[k]],
        decreases controls.len() - i,
    {
        assert(controls@.take(i + 1).drop_last() =~= controls@.take(i as int));
        if controls[i].kind != QuizAnswerKind::Hidden {
            out.push(&controls[i]);
        }
        i += 1;
    }
    assert(controls@.take(controls@.len() as int) =~= controls@);
    out
}

} // verus!
