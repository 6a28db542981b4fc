//! The form payload that saves or submits the answers of a quiz attempt, and how a refused
//! start of an attempt is recognised.
use vstd::prelude::*;
use crate::models::{controls_view, QuizAttemptData, QuizQuestion};
use crate::quiz_html::{answer_params, build_answer_params, pairs_view};
use crate::text::{chars_of, contains_chars, contains_seq, nat_decimal, push_decimal, push_str};

verus! {

/// The answer pairs of every question, in question order.
pub open spec fn questions_params(qs: Seq<QuizQuestion>) -> Seq<(Seq<char>, Seq<char>)>
    decreases qs.len(),
{
    if qs.len() == 0 {
        Seq::empty()
    } else {
        questions_params(qs.drop_last()) + answer_params(controls_view(qs.last().controls@))
    }
}

/// The form key `data[i][field]`.
pub open spec fn data_key(i: nat, field: Seq<char>) -> Seq<char> {
    "data["@ + nat_decimal(i) + "]["@ + field + "]"@
}

/// The form entries for answer pairs: pair `i` becomes `data[i][name]` and `data[i][value]`.
pub open spec fn payload_entries(p: Seq<(Seq<char>, Seq<char>)>) -> Seq<(Seq<char>, Seq<char>)>
    decreases p.len(),
{
    if p.len() == 0 {
        Seq::empty()
    } else {
        let i = (p.len() - 1) as nat;
        payload_entries(p.drop_last()) + seq![
            (data_key(i, "name"@), p.last().0),
            (data_key(i, "value"@), p.last().1),
        ]
    }
}

fn data_key_exec(i: usize, field: &str) -> (r: String)
    ensures
        r@ == data_key(i as nat, field@),
{
    let mut s = String::new();
    push_str(&mut s, "data[");
    push_decimal(&mut s, i as u64);
    push_str(&mut s, "][");
    push_str(&mut s, field);
    push_str(&mut s, "]");
    s
}

/// Appends the answers of every question of `attempt` to `params` as numbered
/// `data[i][name]` / `data[i][value]` form entries.
pub fn append_answer_data(params: &mut Vec<(String, String)>, attempt: &QuizAttemptData)
    ensures
        pairs_view(final(params)@) == pairs_view(old(params)@) + payload_entries(
            questions_params(attempt.questions@),
        ),
{
    let ghost start = pairs_view(params@);
    let ghost start_len = params@.len();
    let ghost qs = attempt.questions@;
    let mut idx: usize = 0;
    let mut qi: usize = 0;
    while qi < attempt.questions.len()
        invariant
            qi <= qs.len(),
            qs == attempt.questions@,
            idx == questions_params(qs.take(qi as int)).len(),
            params@.len() == start_len + 2 * idx,
            pairs_view(params@) == start + payload_entries(questions_params(qs.take(qi as int))),
        decreases qs.len() - qi,
    {
        let question: &QuizQuestion = &attempt.questions[qi];
        let pairs = build_answer_params(question.controls.as_slice());
        let ghost pv = pairs_view(pairs@);
        let ghost done = questions_params(qs.take(qi as int));
        assert(qs.take(qi + 1).drop_last() =~= qs.take(qi as int));
        assert(questions_params(qs.take(qi + 1)) == done + pv);
        let mut j: usize = 0;
        while j < pairs.len()
            invariant
                j <= pairs@.len(),
                pv == pairs_view(pairs@),
                idx == (done + pv.take(j as int)).len(),
                params@.len() == start_len + 2 * idx,
                pairs_view(params@) == start + payload_entries(done + pv.take(j as int)),
            decreases pairs@.len() - j,
        {
            let ghost flat = done + pv.take(j as int);
            let ghost next = done + pv.take(j + 1);
            assert(next.drop_last() =~= flat);
            assert(next.last() == pv[j as int]);
            let name_key = data_key_exec(idx, "name");
            let value_key = data_key_exec(idx, "value");
            let name = pairs[j].0.clone();
            let value = pairs[j].1.clone();
            assert(name@ == pv[j as int].0 && value@ == pv[j as int].1);
            assert(payload_entries(next) == payload_entries(flat) + seq![
                (data_key(idx as nat, "name"@), pv[j as int].0),
                (data_key(idx as nat, "value"@), pv[j as int].1),
            ]);
            let ghost before = params@;
            let ghost entries = seq![(name_key@, name@), (value_key@, value@)];
            params.push((name_key, name));
            params.push((value_key, value));
            let total: usize = params.len();
            assert(pairs_view(params@) =~= pairs_view(before) + entries);
            assert(pairs_view(params@) =~= start + payload_entries(next));
            idx = idx + 1;
            j = j + 1;
        }
        assert(pv.take(pv.len() as int) =~= pv);
        qi = qi + 1;
    }
    assert(qs.take(qs.len() as int) =~= qs);
}


/// Whether Moodle refused to start a quiz attempt because one is still open: its message
/// holds the error code `attemptstillinprogress`. The open attempt is then resumed.
pub fn attempt_still_in_progress(message: &str) -> (r: bool)
    ensures
        r == contains_seq(message@, "attemptstillinprogress"@),
{
    contains_chars(chars_of(message).as_slice(), chars_of("attemptstillinprogress").as_slice())
}

} // verus!
