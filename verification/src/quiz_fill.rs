//! Filling the controls of the current quiz question from a plugin's answers.
use vstd::prelude::*;
use crate::models::{
    clone_opt, controls_view, opt_view, options_view, ControlView, OptionView, QuizAnswerControl,
    QuizAnswerKind, QuizAnswerOption, QuizAttemptData, QuizQuestion,
};
use crate::plugins::{AiFillResponse, ControlAnswer};
use crate::state::QuizModalData;
use crate::text::{chars_eq, chars_of, trim, trim_str};
use crate::course_tree::strings_view;

verus! {

/// A plugin's answer for one control, as plain values.
pub struct AnswerView {
    pub control_name: Seq<char>,
    pub selected_values: Seq<Seq<char>>,
    pub text_value: Option<Seq<char>>,
}

impl View for ControlAnswer {
    type V = AnswerView;

    open spec fn view(&self) -> AnswerView {
        AnswerView {
            control_name: self.control_name@,
            selected_values: strings_view(self.selected_values@),
            text_value: opt_view(self.text_value),
        }
    }
}

/// Views of answers.
pub open spec fn answers_view(s: Seq<ControlAnswer>) -> Seq<AnswerView> {
    s.map_values(|a: ControlAnswer| a@)
}

/// An option with its selection replaced.
pub open spec fn with_selected(o: OptionView, selected: bool) -> OptionView {
    OptionView { name: o.name, label: o.label, value: o.value, selected }
}

/// Whether a multiple-choice option is named by the answer, by its value or its input name.
pub open spec fn multi_picks(o: OptionView, values: Seq<Seq<char>>) -> bool {
    values.contains(o.value) || (o.name matches Some(n) && values.contains(n))
}

/// The options after a choice: selected exactly where `pick` says so.
pub open spec fn options_after(os: Seq<OptionView>, a: AnswerView, single: bool) -> Seq<OptionView> {
    Seq::new(
        os.len(),
        |i: int|
            with_selected(
                os[i],
                if single {
                    os[i].value == a.selected_values[0]
                } else {
                    multi_picks(os[i], a.selected_values)
                },
            ),
    )
}

/// Some option changed its selection.
pub open spec fn selection_changed(before: Seq<OptionView>, after: Seq<OptionView>) -> bool {
    exists|i: int| 0 <= i < before.len() && #[trigger] before[i].selected != after[i].selected
}

/// Some option is selected.
pub open spec fn any_selected(os: Seq<OptionView>) -> bool {
    exists|i: int| 0 <= i < os.len() && #[trigger] os[i].selected
}

/// One answer applied to its control, and whether it counts as filled: a choice counts when
/// it changed the selection or leaves something selected, a text when it is not blank after
/// trimming; hidden and unsupported controls are left alone.
pub open spec fn fill_control_spec(c: ControlView, a: AnswerView) -> (ControlView, bool) {
    match c.kind {
        QuizAnswerKind::SingleChoice => if a.selected_values.len() > 0 {
            let after = options_after(c.options, a, true);
            (
                ControlView { name: c.name, kind: c.kind, options: after, value: c.value },
                selection_changed(c.options, after) || any_selected(after),
            )
        } else {
            (c, false)
        },
        QuizAnswerKind::MultiChoice => {
            let after = options_after(c.options, a, false);
            (
                ControlView { name: c.name, kind: c.kind, options: after, value: c.value },
                selection_changed(c.options, after) || any_selected(after),
            )
        },
        QuizAnswerKind::Text => match a.text_value {
            Some(t) => if trim(t).len() > 0 {
                (ControlView { name: c.name, kind: c.kind, options: c.options, value: trim(t) }, true)
            } else {
                (c, false)
            },
            None => (c, false),
        },
        _ => (c, false),
    }
}

/// The first control at or after `from` with the given name.
pub open spec fn first_control_named(cs: Seq<ControlView>, name: Seq<char>, from: int) -> Option<int>
    decreases cs.len() - from,
{
    if from < 0 || from >= cs.len() {
        None
    } else if cs[from].name == name {
        Some(from)
    } else {
        first_control_named(cs, name, from + 1)
    }
}

/// The controls after applying the answers in order, each to the first control with its
/// name, and how many answers filled a control.
pub open spec fn ai_fill(cs: Seq<ControlView>, answers: Seq<AnswerView>) -> (Seq<ControlView>, nat)
    decreases answers.len(),
{
    if answers.len() == 0 {
        (cs, 0)
    } else {
        let prev = ai_fill(cs, answers.drop_last());
        let a = answers.last();
        match first_control_named(prev.0, a.control_name, 0) {
            None => prev,
            Some(k) => {
                let f = fill_control_spec(prev.0[k], a);
                (prev.0.update(k, f.0), prev.1 + if f.1 { 1nat } else { 0nat })
            },
        }
    }
}

proof fn lemma_first_control_named_bounds(cs: Seq<ControlView>, name: Seq<char>, from: int)
    ensures
        first_control_named(cs, name, from) matches Some(k) ==> 0 <= from <= k < cs.len(),
    decreases cs.len() - from,
{
    if 0 <= from < cs.len() && cs[from].name != name {
        lemma_first_control_named_bounds(cs, name, from + 1);
    }
}

proof fn lemma_ai_fill_count(cs: Seq<ControlView>, answers: Seq<AnswerView>)
    ensures
        ai_fill(cs, answers).1 <= answers.len(),
        ai_fill(cs, answers).0.len() == cs.len(),
    decreases answers.len(),
{
    if answers.len() > 0 {
        lemma_ai_fill_count(cs, answers.drop_last());
        let prev = ai_fill(cs, answers.drop_last());
        lemma_first_control_named_bounds(prev.0, answers.last().control_name, 0);
    }
}

fn copy_option(o: &QuizAnswerOption, selected: bool) -> (r: QuizAnswerOption)
    ensures
        r@ == with_selected(o@, selected),
{
    QuizAnswerOption {
        name: clone_opt(&o.name),
        label: o.label.clone(),
        value: o.value.clone(),
        selected,
    }
}

fn strings_contain(values: &Vec<String>, key: &String) -> (r: bool)
    ensures
        r == strings_view(values@).contains(key@),
{
    crate::course_tree::contains_string(values, key)
}

fn choose_options(c: &mut QuizAnswerControl, a: &ControlAnswer, single: bool) -> (r: bool)
    requires
        single ==> a.selected_values@.len() > 0,
    ensures
        options_view(final(c).options@) == options_after(options_view(old(c).options@), a@, single),
        final(c).name == old(c).name,
        final(c).kind == old(c).kind,
        final(c).value == old(c).value,
        r == (selection_changed(options_view(old(c).options@), options_view(final(c).options@))
            || any_selected(options_view(final(c).options@))),
{
    let ghost before = options_view(c.options@);
    let ghost target = options_after(before, a@, single);
    let mut out: Vec<QuizAnswerOption> = Vec::new();
    let mut changed = false;
    let mut any = false;
    let mut i: usize = 0;
    while i < c.options.len()
        invariant
            i <= c.options@.len(),
            before == options_view(c.options@),
            target == options_after(before, a@, single),
            single ==> a.selected_values@.len() > 0,
            options_view(out@) == target.take(i as int),
            changed == (exists|j: int| 0 <= j < i && #[trigger] before[j].selected != target[j].selected),
            any == (exists|j: int| 0 <= j < i && #[trigger] target[j].selected),
        decreases c.options.len() - i,
    {
        let o = &c.options[i];
        let pick = if single {
            let first = &a.selected_values[0];
            assert(strings_view(a.selected_values@)[0] == a.selected_values@[0]@);
            chars_eq(&chars_of(o.value.as_str()), &chars_of(first.as_str()))
        } else {
            let by_value = strings_contain(&a.selected_values, &o.value);
            let by_name = match &o.name {
                Some(n) => strings_contain(&a.selected_values, n),
                None => false,
            };
            by_value || by_name
        };
        assert(before[i as int] == o@);
        assert(target[i as int] == with_selected(o@, pick));
        assert(before[i as int].selected == o.selected);
        assert(target[i as int].selected == pick);
        if o.selected != pick {
            changed = true;
        }
        if pick {
            any = true;
        }
        let ghost prev_out = options_view(out@);
        out.push(copy_option(o, pick));
        assert(options_view(out@) =~= prev_out.push(with_selected(o@, pick)));
        assert(target.take(i + 1) =~= target.take(i as int).push(target[i as int]));
        assert(options_view(out@) =~= target.take(i + 1));
        i += 1;
    }
    assert(target.take(target.len() as int) =~= target);
    assert(options_view(out@) =~= target);
    c.options = out;
    changed || any
}

fn fill_control(c: &mut QuizAnswerControl, a: &ControlAnswer) -> (r: bool)
    ensures
        final(c)@ == fill_control_spec(old(c)@, a@).0,
        r == fill_control_spec(old(c)@, a@).1,
{
    match c.kind {
        QuizAnswerKind::SingleChoice => {
            if a.selected_values.len() > 0 {
                choose_options(c, a, true)
            } else {
                false
            }
        },
        QuizAnswerKind::MultiChoice => choose_options(c, a, false),
        QuizAnswerKind::Text => match &a.text_value {
            Some(t) => {
                let text = trim_str(t.as_str());
                if !text.as_str().is_empty() {
                    c.value = text;
                    true
                } else {
                    proof {
                        assert(text@.len() == 0);
                    }
                    false
                }
            },
            None => false,
        },
        _ => false,
    }
}

fn find_control(cs: &Vec<QuizAnswerControl>, name: &String) -> (r: Option<usize>)
    ensures
        match r {
            Some(k) => first_control_named(controls_view(cs@), name@, 0) == Some(k as int),
            None => first_control_named(controls_view(cs@), name@, 0) is None,
        },
{
    let ghost cv = controls_view(cs@);
    let nc = chars_of(name.as_str());
    let mut i: usize = 0;
    while i < cs.len()
        invariant
            i <= cs@.len(),
            cv == controls_view(cs@),
            nc@ == name@,
            first_control_named(cv, name@, 0) == first_control_named(cv, name@, i as int),
        decreases cs.len() - i,
    {
        if chars_eq(&chars_of(cs[i].name.as_str()), &nc) {
            return Some(i);
        }
        i += 1;
    }
    None
}

fn fill_controls(controls: &mut Vec<QuizAnswerControl>, answers: &Vec<ControlAnswer>) -> (r: usize)
    ensures
        controls_view(final(controls)@) == ai_fill(controls_view(old(controls)@), answers_view(answers@)).0,
        r == ai_fill(controls_view(old(controls)@), answers_view(answers@)).1,
{
    let ghost cv0 = controls_view(controls@);
    let ghost av = answers_view(answers@);
    let mut filled: usize = 0;
    let mut i: usize = 0;
    while i < answers.len()
        invariant
            i <= answers@.len(),
            av == answers_view(answers@),
            controls_view(controls@) == ai_fill(cv0, av.take(i as int)).0,
            filled == ai_fill(cv0, av.take(i as int)).1,
            filled <= i,
        decreases answers.len() - i,
    {
        proof {
            lemma_ai_fill_count(cv0, av.take(i + 1));
        }
        assert(av.take(i + 1).drop_last() =~= av.take(i as int));
        assert(av.take(i + 1).last() == answers@[i as int]@);
        let answer = &answers[i];
        proof {
            lemma_first_control_named_bounds(controls_view(controls@), answer.control_name@, 0);
        }
        match find_control(controls, &answer.control_name) {
            None => {},
            Some(k) => {
                let ghost prev = controls_view(controls@);
                let f = fill_control(&mut controls[k], answer);
                assert(controls_view(controls@) =~= prev.update(
                    k as int,
                    fill_control_spec(prev[k as int], answer@).0,
                ));
                if f {
                    filled = filled + 1;
                }
            },
        }
        i += 1;
    }
    assert(av.take(av.len() as int) =~= av);
    filled
}

/// The question with its controls replaced.
pub open spec fn question_with_controls(q: QuizQuestion, cs: Seq<ControlView>, filled: QuizQuestion) -> bool {
    &&& filled.slot == q.slot
    &&& filled.number == q.number
    &&& filled.name == q.name
    &&& filled.text == q.text
    &&& filled.html == q.html
    &&& filled.unsupported == q.unsupported
    &&& controls_view(filled.controls@) == cs
}

/// The fields of the quiz dialog other than its attempt.
pub open spec fn same_modal_except_attempt(a: QuizModalData, b: QuizModalData) -> bool {
    &&& a.course_id == b.course_id
    &&& a.quiz_id == b.quiz_id
    &&& a.cmid == b.cmid
    &&& a.quiz_name == b.quiz_name
    &&& a.course_name == b.course_name
    &&& a.module_description == b.module_description
    &&& a.module_url == b.module_url
    &&& a.summary == b.summary
    &&& a.loading == b.loading
    &&& a.saving == b.saving
    &&& a.finishing == b.finishing
    &&& a.ai_filling == b.ai_filling
    &&& a.confirm_finish == b.confirm_finish
    &&& a.error == b.error
    &&& a.selected_question == b.selected_question
    &&& a.selected_control == b.selected_control
    &&& a.selected_option == b.selected_option
    &&& a.editing_text == b.editing_text
}

/// The attempt after a plugin's answers were applied to the selected question of `before`:
/// that question's controls are filled as `ai_fill` says and every other part of the
/// attempt is unchanged; without an attempt or a selected question it stays as it was.
pub open spec fn ai_filled_attempt(before: QuizModalData, after: Option<QuizAttemptData>, response: AiFillResponse) -> bool {
    match before.attempt {
        Some(att) if before.selected_question < att.questions@.len() => {
            let q = att.questions@[before.selected_question as int];
            let res = ai_fill(controls_view(q.controls@), answers_view(response.answers@));
            &&& after matches Some(fa)
            &&& fa.attempt == att.attempt
            &&& fa.warnings == att.warnings
            &&& fa.questions@.len() == att.questions@.len()
            &&& forall|i: int| 0 <= i < att.questions@.len() && i != before.selected_question
                ==> #[trigger] fa.questions@[i] == att.questions@[i]
            &&& question_with_controls(q, res.0, fa.questions@[before.selected_question as int])
        },
        _ => after == before.attempt,
    }
}

/// Applies a plugin's answers to the controls of the selected question and returns how
/// many answers filled a control. Without an attempt or a selected question nothing
/// changes and the count is zero.
pub fn apply_ai_fill(modal: &mut QuizModalData, response: &AiFillResponse) -> (r: usize)
    ensures
        same_modal_except_attempt(*final(modal), *old(modal)),
        match old(modal).attempt {
            Some(att) if old(modal).selected_question < att.questions@.len() => {
                let q = att.questions@[old(modal).selected_question as int];
                let res = ai_fill(controls_view(q.controls@), answers_view(response.answers@));
                &&& final(modal).attempt matches Some(fa)
                &&& fa.attempt == att.attempt
                &&& fa.warnings == att.warnings
                &&& fa.questions@.len() == att.questions@.len()
                &&& forall|i: int| 0 <= i < att.questions@.len() && i != old(modal).selected_question
                    ==> #[trigger] fa.questions@[i] == att.questions@[i]
                &&& question_with_controls(q, res.0, fa.questions@[old(modal).selected_question as int])
                &&& r == res.1
            },
            _ => *final(modal) == *old(modal) && r == 0,
        },
{
    let sq = modal.selected_question;
    let mut attempt = match modal.attempt.take() {
        Some(a) => a,
        None => return 0,
    };
    if sq >= attempt.questions.len() {
        modal.attempt = Some(attempt);
        return 0;
    }
    let ghost old_questions = attempt.questions@;
    let mut controls: Vec<QuizAnswerControl> = Vec::new();
    std::mem::swap(&mut controls, &mut attempt.questions[sq].controls);
    let filled = fill_controls(&mut controls, &response.answers);
    std::mem::swap(&mut controls, &mut attempt.questions[sq].controls);
    assert forall|i: int| 0 <= i < old_questions.len() && i != sq implies #[trigger] attempt.questions@[i]
        == old_questions[i] by {}
    modal.attempt = Some(attempt);
    filled
}

} // verus!
