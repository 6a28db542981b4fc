//! Turning Moodle's JSON replies into the library's records.
use vstd::prelude::*;
use crate::html::decode_entities;
use crate::json::{
    as_array, as_bool, as_decoded, as_f64_bits, as_i64, as_str, field, field_of, get, get_opt, j_array,
    j_bool, j_decoded, j_f64_bits, j_i64, j_str, j_visible, opt_ref, progress_value_bits, visible_number,
    JsonValue,
};
use crate::models::{
    opt_view, AssignmentDetail, AssignmentSubmissionStatus, Course, CourseModule, CourseSection,
    ModuleContentItem, QuizAttempt, QuizAttemptData, QuizQuestion, QuizSummary, QuizWarning, UpcomingAssignment,
    controls_view,
};
use crate::quiz_html::{can_parse_question_controls, inputs_from, parse_question_controls, question_controls,
    question_text, question_text_from_html};
use crate::text::{chars_eq, chars_eq_str, chars_lt, chars_of, i64_string, int_decimal, lowercase, push_str, seq_lt, to_lowercase};

verus! {

/// Whether a value is an object.
pub open spec fn is_object(v: JsonValue) -> bool {
    v is Object
}

// ---------------------------------------------------------------------------------------
// Tokens and errors

/// The token reply: the token, and the error, error code and debugging text when the
/// login was refused.
pub fn normalize_token_response(value: &JsonValue) -> (r: (Option<String>, Option<String>, Option<String>, Option<String>))
    ensures
        opt_view(r.0) == j_str(field(*value, "token"@)),
        opt_view(r.1) == j_str(field(*value, "error"@)),
        opt_view(r.2) == j_str(field(*value, "errorcode"@)),
        opt_view(r.3) == j_str(field(*value, "debuginfo"@)),
{
    (
        as_str(get(value, "token")),
        as_str(get(value, "error")),
        as_str(get(value, "errorcode")),
        as_str(get(value, "debuginfo")),
    )
}

/// `label=text` fragments of the error members that are present, joined by ` | `.
pub open spec fn exception_fragments(v: JsonValue) -> Seq<Seq<char>> {
    let m = j_str(field(v, "message"@));
    let c = j_str(field(v, "errorcode"@));
    let e = j_str(field(v, "exception"@));
    let d = j_str(field(v, "debuginfo"@));
    (if m is Some { seq!["message="@ + m->0] } else { Seq::empty() }) + (if c is Some {
        seq!["errorcode="@ + c->0]
    } else {
        Seq::empty()
    }) + (if e is Some { seq!["exception="@ + e->0] } else { Seq::empty() }) + (if d is Some {
        seq!["debuginfo="@ + d->0]
    } else {
        Seq::empty()
    })
}

/// Fragments joined by ` | `.
pub open spec fn join_bar(parts: Seq<Seq<char>>) -> Seq<char>
    decreases parts.len(),
{
    if parts.len() == 0 {
        Seq::empty()
    } else if parts.len() == 1 {
        parts[0]
    } else {
        join_bar(parts.drop_last()) + " | "@ + parts.last()
    }
}

/// The error a Moodle reply reports: present when it has a message, an error code or an
/// exception name; all four members that are present, as `name=value` joined by ` | `.
pub open spec fn moodle_exception(v: JsonValue) -> Option<Seq<char>> {
    if !is_object(v) || (j_str(field(v, "message"@)) is None && j_str(field(v, "errorcode"@)) is None
        && j_str(field(v, "exception"@)) is None) {
        None
    } else {
        Some(join_bar(exception_fragments(v)))
    }
}

/// The error a Moodle reply reports, if it reports one.
pub fn extract_moodle_exception(value: &JsonValue) -> (r: Option<String>)
    ensures
        opt_view(r) == moodle_exception(*value),
{
    match value {
        JsonValue::Object(_) => {},
        _ => {
            return None;
        },
    }
    let message = as_str(get(value, "message"));
    let errorcode = as_str(get(value, "errorcode"));
    let exception = as_str(get(value, "exception"));
    let debuginfo = as_str(get(value, "debuginfo"));
    if message.is_none() && errorcode.is_none() && exception.is_none() {
        return None;
    }
    let ghost frags = exception_fragments(*value);
    let mut out = String::new();
    let mut n: usize = 0;
    let ghost mut done: Seq<Seq<char>> = Seq::empty();
    match &message {
        Some(m) => {
            push_str(&mut out, "message=");
            push_str(&mut out, m.as_str());
            n = n + 1;
            proof {
                done = done.push("message="@ + m@);
            }
        },
        None => {},
    }
    assert(out@ =~= join_bar(done));
    match &errorcode {
        Some(c) => {
            if n > 0 {
                push_str(&mut out, " | ");
            }
            push_str(&mut out, "errorcode=");
            push_str(&mut out, c.as_str());
            n = n + 1;
            proof {
                assert(done.push("errorcode="@ + c@).drop_last() =~= done);
                done = done.push("errorcode="@ + c@);
            }
        },
        None => {},
    }
    assert(out@ =~= join_bar(done));
    match &exception {
        Some(e) => {
            if n > 0 {
                push_str(&mut out, " | ");
            }
            push_str(&mut out, "exception=");
            push_str(&mut out, e.as_str());
            n = n + 1;
            proof {
                assert(done.push("exception="@ + e@).drop_last() =~= done);
                done = done.push("exception="@ + e@);
            }
        },
        None => {},
    }
    assert(out@ =~= join_bar(done));
    match &debuginfo {
        Some(d) => {
            if n > 0 {
                push_str(&mut out, " | ");
            }
            push_str(&mut out, "debuginfo=");
            push_str(&mut out, d.as_str());
            proof {
                assert(done.push("debuginfo="@ + d@).drop_last() =~= done);
                done = done.push("debuginfo="@ + d@);
            }
        },
        None => {},
    }
    assert(done =~= frags);
    Some(out)
}

// ---------------------------------------------------------------------------------------
// Courses

/// The members a course needs: an id, a short name and a full name.
pub open spec fn course_ok(v: JsonValue) -> bool {
    &&& j_i64(field(v, "id"@)) is Some
    &&& j_str(field(v, "shortname"@)) is Some
    &&& j_str(field(v, "fullname"@)) is Some
}

/// The progress member: nothing when absent or `null`, else the double it reads as.
pub open spec fn progress_of(f: Option<JsonValue>) -> Option<u64> {
    match f {
        Some(JsonValue::Null) => None,
        _ => j_f64_bits(f),
    }
}

/// A course read from an object: its names decoded, its link taken from `courseurl` or
/// else from `viewurl`.
pub open spec fn course_matches(v: JsonValue, c: Course) -> bool {
    &&& Some(c.id) == j_i64(field(v, "id"@))
    &&& Some(c.shortname@) == j_decoded(field(v, "shortname"@))
    &&& Some(c.fullname@) == j_decoded(field(v, "fullname"@))
    &&& opt_view(c.displayname) == j_decoded(field(v, "displayname"@))
    &&& c.categoryid == j_i64(field(v, "categoryid"@))
    &&& opt_view(c.categoryname) == j_decoded(field(v, "categoryname"@))
    &&& opt_view(c.summary) == j_decoded(field(v, "summary"@))
    &&& c.visible == j_visible(field(v, "visible"@))
    &&& c.progress_bits == progress_of(field(v, "progress"@))
    &&& opt_view(c.courseurl) == (if j_str(field(v, "courseurl"@)) is Some {
        j_str(field(v, "courseurl"@))
    } else {
        j_str(field(v, "viewurl"@))
    })
}

/// A course from its JSON object; nothing when the id or a name is missing.
pub fn normalize_course(value: &JsonValue) -> (r: Option<Course>)
    ensures
        r is Some <==> course_ok(*value),
        r matches Some(c) ==> course_matches(*value, c),
{
    let id = match as_i64(get(value, "id")) {
        Some(id) => id,
        None => {
            return None;
        },
    };
    let shortname = match as_decoded(get(value, "shortname")) {
        Some(s) => s,
        None => {
            return None;
        },
    };
    let fullname = match as_decoded(get(value, "fullname")) {
        Some(s) => s,
        None => {
            return None;
        },
    };
    let courseurl = match as_str(get(value, "courseurl")) {
        Some(u) => Some(u),
        None => as_str(get(value, "viewurl")),
    };
    Some(Course {
        id,
        shortname,
        fullname,
        displayname: as_decoded(get(value, "displayname")),
        categoryid: as_i64(get(value, "categoryid")),
        categoryname: as_decoded(get(value, "categoryname")),
        summary: as_decoded(get(value, "summary")),
        visible: visible_number(get(value, "visible")),
        progress_bits: progress_value_bits(get(value, "progress")),
        courseurl,
    })
}

// ---------------------------------------------------------------------------------------
// Course contents

/// A file or link of a module, read from an object.
pub open spec fn content_matches(v: JsonValue, c: ModuleContentItem) -> bool {
    &&& opt_view(c.kind) == j_decoded(field(v, "type"@))
    &&& opt_view(c.filename) == j_decoded(field(v, "filename"@))
    &&& opt_view(c.filepath) == j_str(field(v, "filepath"@))
    &&& c.filesize == j_i64(field(v, "filesize"@))
    &&& opt_view(c.fileurl) == j_str(field(v, "fileurl"@))
    &&& opt_view(c.mimetype) == j_decoded(field(v, "mimetype"@))
    &&& c.timemodified == j_i64(field(v, "timemodified"@))
    &&& opt_view(c.url) == j_str(field(v, "url"@))
}

fn normalize_module_content(value: &JsonValue) -> (r: Option<ModuleContentItem>)
    ensures
        r is Some <==> is_object(*value),
        r matches Some(c) ==> content_matches(*value, c),
{
    match value {
        JsonValue::Object(_) => {},
        _ => {
            return None;
        },
    }
    Some(ModuleContentItem {
        kind: as_decoded(get(value, "type")),
        filename: as_decoded(get(value, "filename")),
        filepath: as_str(get(value, "filepath")),
        filesize: as_i64(get(value, "filesize")),
        fileurl: as_str(get(value, "fileurl")),
        mimetype: as_decoded(get(value, "mimetype")),
        timemodified: as_i64(get(value, "timemodified")),
        url: as_str(get(value, "url")),
    })
}

/// The objects among some values, in order.
pub open spec fn objects(s: Seq<JsonValue>) -> Seq<JsonValue>
    decreases s.len(),
{
    if s.len() == 0 {
        Seq::empty()
    } else if is_object(s.last()) {
        objects(s.drop_last()).push(s.last())
    } else {
        objects(s.drop_last())
    }
}

/// The values of an optional array member (none when it is absent or not an array).
pub open spec fn array_items(f: Option<JsonValue>) -> Seq<JsonValue> {
    match j_array(f) {
        Some(items) => items,
        None => Seq::empty(),
    }
}

fn collect_contents(items: &Vec<JsonValue>) -> (out: Vec<ModuleContentItem>)
    ensures
        out@.len() == objects(items@).len(),
        forall|k: int| 0 <= k < out@.len() ==> content_matches(#[trigger] objects(items@)[k], out@[k]),
{
    let mut out: Vec<ModuleContentItem> = Vec::new();
    let mut i: usize = 0;
    while i < items.len()
        invariant
            i <= items@.len(),
            out@.len() == objects(items@.take(i as int)).len(),
            forall|k: int|
                0 <= k < out@.len() ==> content_matches(#[trigger] objects(items@.take(i as int))[k], out@[k]),
        decreases items.len() - i,
    {
        assert(items@.take(i + 1).drop_last() =~= items@.take(i as int));
        assert(items@.take(i + 1).last() == items@[i as int]);
        match normalize_module_content(&items[i]) {
            Some(c) => {
                out.push(c);
            },
            None => {},
        }
        i += 1;
    }
    assert(items@.take(items@.len() as int) =~= items@);
    out
}

/// The members a module needs: an id and a name.
pub open spec fn module_ok(v: JsonValue) -> bool {
    &&& j_i64(field(v, "id"@)) is Some
    &&& j_decoded(field(v, "name"@)) is Some
}

/// A module read from an object, with the objects of its `contents` array.
pub open spec fn module_matches(v: JsonValue, m: CourseModule) -> bool {
    let contents = objects(array_items(field(v, "contents"@)));
    &&& Some(m.id) == j_i64(field(v, "id"@))
    &&& Some(m.name@) == j_decoded(field(v, "name"@))
    &&& m.instance == j_i64(field(v, "instance"@))
    &&& opt_view(m.modname) == j_decoded(field(v, "modname"@))
    &&& opt_view(m.description) == j_decoded(field(v, "description"@))
    &&& opt_view(m.url) == j_str(field(v, "url"@))
    &&& m.visible == j_visible(field(v, "visible"@))
    &&& m.contents@.len() == contents.len()
    &&& forall|k: int| 0 <= k < contents.len() ==> content_matches(#[trigger] contents[k], m.contents@[k])
}

fn normalize_module(value: &JsonValue) -> (r: Option<CourseModule>)
    ensures
        r is Some <==> module_ok(*value),
        r matches Some(m) ==> module_matches(*value, m),
{
    let id = match as_i64(get(value, "id")) {
        Some(id) => id,
        None => {
            return None;
        },
    };
    let name = match as_decoded(get(value, "name")) {
        Some(n) => n,
        None => {
            return None;
        },
    };
    let contents = match as_array(get(value, "contents")) {
        Some(items) => collect_contents(items),
        None => {
            let v: Vec<ModuleContentItem> = Vec::new();
            assert(objects(Seq::<JsonValue>::empty()).len() == 0);
            v
        },
    };
    Some(CourseModule {
        id,
        instance: as_i64(get(value, "instance")),
        name,
        modname: as_decoded(get(value, "modname")),
        description: as_decoded(get(value, "description")),
        url: as_str(get(value, "url")),
        visible: visible_number(get(value, "visible")),
        contents,
    })
}

/// The values among some that read as modules, in order.
pub open spec fn module_values(s: Seq<JsonValue>) -> Seq<JsonValue>
    decreases s.len(),
{
    if s.len() == 0 {
        Seq::empty()
    } else if module_ok(s.last()) {
        module_values(s.drop_last()).push(s.last())
    } else {
        module_values(s.drop_last())
    }
}

fn collect_modules(items: &Vec<JsonValue>) -> (out: Vec<CourseModule>)
    ensures
        out@.len() == module_values(items@).len(),
        forall|k: int| 0 <= k < out@.len() ==> module_matches(#[trigger] module_values(items@)[k], out@[k]),
{
    let mut out: Vec<CourseModule> = Vec::new();
    let mut i: usize = 0;
    while i < items.len()
        invariant
            i <= items@.len(),
            out@.len() == module_values(items@.take(i as int)).len(),
            forall|k: int|
                0 <= k < out@.len() ==> module_matches(#[trigger] module_values(items@.take(i as int))[k], out@[k]),
        decreases items.len() - i,
    {
        assert(items@.take(i + 1).drop_last() =~= items@.take(i as int));
        assert(items@.take(i + 1).last() == items@[i as int]);
        match normalize_module(&items[i]) {
            Some(m) => {
                out.push(m);
            },
            None => {},
        }
        i += 1;
    }
    assert(items@.take(items@.len() as int) =~= items@);
    out
}

/// A section read from an object, with the entries of its `modules` array that read as
/// modules.
pub open spec fn section_matches(v: JsonValue, s: CourseSection) -> bool {
    let modules = module_values(array_items(field(v, "modules"@)));
    &&& Some(s.id) == j_i64(field(v, "id"@))
    &&& opt_view(s.name) == j_decoded(field(v, "name"@))
    &&& s.section == j_i64(field(v, "section"@))
    &&& opt_view(s.summary) == j_decoded(field(v, "summary"@))
    &&& s.visible == j_visible(field(v, "visible"@))
    &&& s.modules@.len() == modules.len()
    &&& forall|k: int| 0 <= k < modules.len() ==> module_matches(#[trigger] modules[k], s.modules@[k])
}

/// A course section from its JSON object; nothing when it has no id.
pub fn normalize_section(value: &JsonValue) -> (r: Option<CourseSection>)
    ensures
        r is Some <==> j_i64(field(*value, "id"@)) is Some,
        r matches Some(s) ==> section_matches(*value, s),
{
    let id = match as_i64(get(value, "id")) {
        Some(id) => id,
        None => {
            return None;
        },
    };
    let modules = match as_array(get(value, "modules")) {
        Some(items) => collect_modules(items),
        None => {
            let v: Vec<CourseModule> = Vec::new();
            assert(module_values(Seq::<JsonValue>::empty()).len() == 0);
            v
        },
    };
    Some(CourseSection {
        id,
        name: as_decoded(get(value, "name")),
        section: as_i64(get(value, "section")),
        summary: as_decoded(get(value, "summary")),
        visible: visible_number(get(value, "visible")),
        modules,
    })
}

// ---------------------------------------------------------------------------------------
// Assignments

/// The members an assignment needs: an id, a course-module id, a course (its own or the
/// one it was listed under) and a name.
pub open spec fn detail_ok(v: JsonValue, fallback_course_id: Option<i64>) -> bool {
    &&& j_i64(field(v, "id"@)) is Some
    &&& j_i64(field(v, "cmid"@)) is Some
    &&& (j_i64(field(v, "course"@)) is Some || fallback_course_id is Some)
    &&& j_decoded(field(v, "name"@)) is Some
}

/// The first of two optional values that is present.
pub open spec fn either<T>(a: Option<T>, b: Option<T>) -> Option<T> {
    if a is Some {
        a
    } else {
        b
    }
}

/// An assignment read from an object.
pub open spec fn detail_matches(v: JsonValue, fallback_course_id: Option<i64>, d: AssignmentDetail) -> bool {
    &&& Some(d.id) == j_i64(field(v, "id"@))
    &&& Some(d.cmid) == j_i64(field(v, "cmid"@))
    &&& Some(d.course_id) == either(j_i64(field(v, "course"@)), fallback_course_id)
    &&& Some(d.name@) == j_decoded(field(v, "name"@))
    &&& opt_view(d.intro) == j_decoded(field(v, "intro"@))
    &&& d.intro_format == j_i64(field(v, "introformat"@))
    &&& d.always_show_description == j_bool(field(v, "alwaysshowdescription"@))
    &&& d.allowsubmissionsfromdate == j_i64(field(v, "allowsubmissionsfromdate"@))
    &&& d.duedate == j_i64(field(v, "duedate"@))
    &&& d.cutoffdate == j_i64(field(v, "cutoffdate"@))
    &&& d.gradingduedate == j_i64(field(v, "gradingduedate"@))
    &&& d.grade_bits == j_f64_bits(field(v, "grade"@))
    &&& d.teamsubmission == j_bool(field(v, "teamsubmission"@))
    &&& d.requireallteammemberssubmit == j_bool(field(v, "requireallteammemberssubmit"@))
    &&& d.maxattempts == j_i64(field(v, "maxattempts"@))
    &&& d.sendnotifications == j_bool(field(v, "sendnotifications"@))
}

fn normalize_assignment_detail(value: &JsonValue, fallback_course_id: Option<i64>) -> (r: Option<AssignmentDetail>)
    ensures
        r is Some <==> detail_ok(*value, fallback_course_id),
        r matches Some(d) ==> detail_matches(*value, fallback_course_id, d),
{
    let id = match as_i64(get(value, "id")) {
        Some(id) => id,
        None => {
            return None;
        },
    };
    let cmid = match as_i64(get(value, "cmid")) {
        Some(c) => c,
        None => {
            return None;
        },
    };
    let course_id = match as_i64(get(value, "course")) {
        Some(c) => c,
        None => match fallback_course_id {
            Some(c) => c,
            None => {
                return None;
            },
        },
    };
    let name = match as_decoded(get(value, "name")) {
        Some(n) => n,
        None => {
            return None;
        },
    };
    Some(AssignmentDetail {
        id,
        cmid,
        course_id,
        name,
        intro: as_decoded(get(value, "intro")),
        intro_format: as_i64(get(value, "introformat")),
        always_show_description: as_bool(get(value, "alwaysshowdescription")),
        allowsubmissionsfromdate: as_i64(get(value, "allowsubmissionsfromdate")),
        duedate: as_i64(get(value, "duedate")),
        cutoffdate: as_i64(get(value, "cutoffdate")),
        gradingduedate: as_i64(get(value, "gradingduedate")),
        grade_bits: as_f64_bits(get(value, "grade")),
        teamsubmission: as_bool(get(value, "teamsubmission")),
        requireallteammemberssubmit: as_bool(get(value, "requireallteammemberssubmit")),
        maxattempts: as_i64(get(value, "maxattempts")),
        sendnotifications: as_bool(get(value, "sendnotifications")),
    })
}

/// The assignments of one course's list that read as assignments, each with the course's id.
pub open spec fn detail_sources(items: Seq<JsonValue>, course_id: i64) -> Seq<(JsonValue, i64)>
    decreases items.len(),
{
    if items.len() == 0 {
        Seq::empty()
    } else if detail_ok(items.last(), Some(course_id)) {
        detail_sources(items.drop_last(), course_id).push((items.last(), course_id))
    } else {
        detail_sources(items.drop_last(), course_id)
    }
}

/// What one course entry contributes: nothing when it has no id, is not the course asked
/// for, or has no assignment list.
pub open spec fn course_detail_sources(c: JsonValue, course_id_filter: Option<i64>) -> Seq<(JsonValue, i64)> {
    match j_i64(field(c, "id"@)) {
        None => Seq::empty(),
        Some(id) => if course_id_filter is Some && course_id_filter->0 != id {
            Seq::empty()
        } else {
            match j_array(field(c, "assignments"@)) {
                Some(items) => detail_sources(items, id),
                None => Seq::empty(),
            }
        },
    }
}

/// What a list of course entries contributes, in order.
pub open spec fn all_detail_sources(courses: Seq<JsonValue>, course_id_filter: Option<i64>) -> Seq<(JsonValue, i64)>
    decreases courses.len(),
{
    if courses.len() == 0 {
        Seq::empty()
    } else {
        all_detail_sources(courses.drop_last(), course_id_filter) + course_detail_sources(
            courses.last(),
            course_id_filter,
        )
    }
}

/// Assignments read pairwise from their sources.
pub open spec fn details_match(srcs: Seq<(JsonValue, i64)>, out: Seq<AssignmentDetail>) -> bool {
    &&& out.len() == srcs.len()
    &&& forall|k: int| 0 <= k < out.len() ==> detail_matches(#[trigger] srcs[k].0, Some(srcs[k].1), out[k])
}

fn push_course_details(out: &mut Vec<AssignmentDetail>, items: &Vec<JsonValue>, course_id: i64)
    ensures
        final(out)@.len() == old(out)@.len() + detail_sources(items@, course_id).len(),
        forall|k: int| 0 <= k < old(out)@.len() ==> final(out)@[k] == old(out)@[k],
        forall|k: int|
            0 <= k < detail_sources(items@, course_id).len() ==> detail_matches(
                #[trigger] detail_sources(items@, course_id)[k].0,
                Some(course_id),
                final(out)@[old(out)@.len() + k],
            ),
{
    let ghost base = old(out)@;
    let mut j: usize = 0;
    while j < items.len()
        invariant
            j <= items@.len(),
            out@.len() == base.len() + detail_sources(items@.take(j as int), course_id).len(),
            forall|k: int| 0 <= k < base.len() ==> out@[k] == base[k],
            forall|k: int|
                0 <= k < detail_sources(items@.take(j as int), course_id).len() ==> detail_matches(
                    #[trigger] detail_sources(items@.take(j as int), course_id)[k].0,
                    Some(course_id),
                    out@[base.len() + k],
                ),
            forall|k: int|
                0 <= k < detail_sources(items@.take(j as int), course_id).len() ==> (
                #[trigger] detail_sources(items@.take(j as int), course_id)[k]).1 == course_id,
        decreases items.len() - j,
    {
        assert(items@.take(j + 1).drop_last() =~= items@.take(j as int));
        assert(items@.take(j + 1).last() == items@[j as int]);
        match normalize_assignment_detail(&items[j], Some(course_id)) {
            Some(d) => {
                out.push(d);
            },
            None => {},
        }
        j += 1;
    }
    assert(items@.take(items@.len() as int) =~= items@);
}

/// The assignments of a `mod_assign_get_assignments` reply, course by course, keeping
/// only the course asked for when one is given.
pub fn normalize_course_assignments(value: &JsonValue, course_id_filter: Option<i64>) -> (r: Vec<AssignmentDetail>)
    ensures
        details_match(all_detail_sources(array_items(field(*value, "courses"@)), course_id_filter), r@),
{
    let courses = match as_array(get(value, "courses")) {
        Some(items) => items,
        None => {
            let r: Vec<AssignmentDetail> = Vec::new();
            assert(all_detail_sources(Seq::<JsonValue>::empty(), course_id_filter).len() == 0);
            return r;
        },
    };
    let ghost cs = courses@;
    let mut out: Vec<AssignmentDetail> = Vec::new();
    let mut i: usize = 0;
    while i < courses.len()
        invariant
            i <= cs.len(),
            cs == courses@,
            details_match(all_detail_sources(cs.take(i as int), course_id_filter), out@),
        decreases courses.len() - i,
    {
        assert(cs.take(i + 1).drop_last() =~= cs.take(i as int));
        assert(cs.take(i + 1).last() == cs[i as int]);
        let ghost before = out@;
        let ghost prev = all_detail_sources(cs.take(i as int), course_id_filter);
        let raw = &courses[i];
        let id_opt = as_i64(get(raw, "id"));
        if let Some(course_id) = id_opt {
            let wanted = match course_id_filter {
                Some(f) => f == course_id,
                None => true,
            };
            if wanted {
                if let Some(items) = as_array(get(raw, "assignments")) {
                    push_course_details(&mut out, items, course_id);
                    proof {
                        let added = detail_sources(items@, course_id);
                        let all = prev + added;
                        assert(all_detail_sources(cs.take(i + 1), course_id_filter) =~= all);
                        assert forall|k: int| 0 <= k < out@.len() implies detail_matches(
                            #[trigger] all[k].0,
                            Some(all[k].1),
                            out@[k],
                        ) by {
                            if k < prev.len() {
                                assert(out@[k] == before[k]);
                            } else {
                                lemma_detail_sources_course(items@, course_id, k - prev.len());
                                assert(all[k] == added[k - prev.len()]);
                            }
                        }
                    }
                } else {
                    assert(all_detail_sources(cs.take(i + 1), course_id_filter) =~= prev);
                }
            } else {
                assert(all_detail_sources(cs.take(i + 1), course_id_filter) =~= prev);
            }
        } else {
            assert(all_detail_sources(cs.take(i + 1), course_id_filter) =~= prev);
        }
        i += 1;
    }
    assert(cs.take(cs.len() as int) =~= cs);
    out
}

proof fn lemma_detail_sources_course(items: Seq<JsonValue>, course_id: i64, k: int)
    requires
        0 <= k < detail_sources(items, course_id).len(),
    ensures
        detail_sources(items, course_id)[k].1 == course_id,
    decreases items.len(),
{
    if items.len() > 0 {
        let rest = detail_sources(items.drop_last(), course_id);
        if k < rest.len() {
            lemma_detail_sources_course(items.drop_last(), course_id, k);
        }
    }
}

// ---------------------------------------------------------------------------------------
// Submission status

/// The `lastattempt` member of a status reply.
pub open spec fn last_attempt(v: JsonValue) -> Option<JsonValue> {
    field(v, "lastattempt"@)
}

/// The submission of the last attempt.
pub open spec fn last_submission(v: JsonValue) -> Option<JsonValue> {
    field_of(last_attempt(v), "submission"@)
}

/// The submission state, from the last attempt's submission or else the top level.
pub open spec fn status_submission(v: JsonValue) -> Option<Seq<char>> {
    either(j_decoded(field_of(last_submission(v), "status"@)), j_decoded(field(v, "submissionstatus"@)))
}

/// The grading state, from the last attempt or else the top level.
pub open spec fn status_grading(v: JsonValue) -> Option<Seq<char>> {
    either(j_decoded(field_of(last_attempt(v), "gradingstatus"@)), j_decoded(field(v, "gradingstatus"@)))
}

/// Whether the owner may edit: `caneditowner`, else `canedit`.
pub open spec fn status_can_edit(v: JsonValue) -> Option<bool> {
    either(j_bool(field(v, "caneditowner"@)), j_bool(field(v, "canedit"@)))
}

/// Whether the submission is locked: from the last attempt, else the top level.
pub open spec fn status_locked(v: JsonValue) -> Option<bool> {
    either(j_bool(field_of(last_attempt(v), "locked"@)), j_bool(field(v, "locked"@)))
}

/// When the submission was last changed: the submission's time, else the attempt's.
pub open spec fn status_modified(v: JsonValue) -> Option<i64> {
    either(j_i64(field_of(last_submission(v), "timemodified"@)), j_i64(field_of(last_attempt(v), "timemodified"@)))
}

/// Whether a status reply says anything at all.
pub open spec fn status_present(v: JsonValue) -> bool {
    status_submission(v) is Some || status_grading(v) is Some || j_bool(field(v, "cansubmit"@)) is Some
        || status_can_edit(v) is Some || status_locked(v) is Some || status_modified(v) is Some
}

/// The submission status of an assignment from a `mod_assign_get_submission_status`
/// reply; nothing when the reply says none of it.
pub fn normalize_submission_status(value: &JsonValue) -> (r: Option<AssignmentSubmissionStatus>)
    ensures
        r is Some <==> status_present(*value),
        r matches Some(st) ==> {
            &&& opt_view(st.submission_status) == status_submission(*value)
            &&& opt_view(st.grading_status) == status_grading(*value)
            &&& st.can_submit == j_bool(field(*value, "cansubmit"@))
            &&& st.can_edit == status_can_edit(*value)
            &&& st.is_locked == status_locked(*value)
            &&& st.last_modified == status_modified(*value)
        },
{
    let la = get(value, "lastattempt");
    let sub = get_opt(la, "submission");
    let submission_status = match as_decoded(get_opt(sub, "status")) {
        Some(x) => Some(x),
        None => as_decoded(get(value, "submissionstatus")),
    };
    let grading_status = match as_decoded(get_opt(la, "gradingstatus")) {
        Some(x) => Some(x),
        None => as_decoded(get(value, "gradingstatus")),
    };
    let can_submit = as_bool(get(value, "cansubmit"));
    let can_edit = match as_bool(get(value, "caneditowner")) {
        Some(x) => Some(x),
        None => as_bool(get(value, "canedit")),
    };
    let is_locked = match as_bool(get_opt(la, "locked")) {
        Some(x) => Some(x),
        None => as_bool(get(value, "locked")),
    };
    let last_modified = match as_i64(get_opt(sub, "timemodified")) {
        Some(x) => Some(x),
        None => as_i64(get_opt(la, "timemodified")),
    };
    if submission_status.is_none() && grading_status.is_none() && can_submit.is_none() && can_edit.is_none()
        && is_locked.is_none() && last_modified.is_none() {
        return None;
    }
    Some(AssignmentSubmissionStatus {
        submission_status,
        grading_status,
        can_submit,
        can_edit,
        is_locked,
        last_modified,
    })
}

// ---------------------------------------------------------------------------------------
// Upcoming assignments

/// An upcoming assignment as plain values.
pub struct UpView {
    pub id: i64,
    pub name: Seq<char>,
    pub due_date: i64,
    pub course_id: i64,
    pub course_short_name: Option<Seq<char>>,
    pub course_full_name: Option<Seq<char>>,
}

/// The plain values of an upcoming assignment.
pub open spec fn upcoming_view(u: UpcomingAssignment) -> UpView {
    UpView {
        id: u.id,
        name: u.name@,
        due_date: u.due_date,
        course_id: u.course_id,
        course_short_name: opt_view(u.course_short_name),
        course_full_name: opt_view(u.course_full_name),
    }
}

/// The plain values of a list of upcoming assignments.
pub open spec fn upcoming_views(s: Seq<UpcomingAssignment>) -> Seq<UpView> {
    s.map_values(|u: UpcomingAssignment| upcoming_view(u))
}

/// An assignment entry that is listed as upcoming at `now`: it has an id, a non-empty
/// name and a positive due date that is not before `now`.
pub open spec fn upcoming_ok(a: JsonValue, now: i64) -> bool {
    &&& j_i64(field(a, "id"@)) is Some
    &&& j_decoded(field(a, "name"@)) is Some
    &&& j_decoded(field(a, "name"@))->0.len() > 0
    &&& j_i64(field(a, "duedate"@)) is Some
    &&& j_i64(field(a, "duedate"@))->0 > 0
    &&& j_i64(field(a, "duedate"@))->0 >= now
}

/// The upcoming entry that an assignment of a course reads as.
pub open spec fn upcoming_of(a: JsonValue, course_id: i64, c: JsonValue) -> UpView {
    UpView {
        id: j_i64(field(a, "id"@))->0,
        name: j_decoded(field(a, "name"@))->0,
        due_date: j_i64(field(a, "duedate"@))->0,
        course_id,
        course_short_name: j_decoded(field(c, "shortname"@)),
        course_full_name: j_decoded(field(c, "fullname"@)),
    }
}

/// The upcoming entries of one course's assignment list, in order.
pub open spec fn upcoming_in(items: Seq<JsonValue>, course_id: i64, c: JsonValue, now: i64) -> Seq<UpView>
    decreases items.len(),
{
    if items.len() == 0 {
        Seq::empty()
    } else if upcoming_ok(items.last(), now) {
        upcoming_in(items.drop_last(), course_id, c, now).push(upcoming_of(items.last(), course_id, c))
    } else {
        upcoming_in(items.drop_last(), course_id, c, now)
    }
}

/// What one course entry contributes: nothing without an id or an assignment list.
pub open spec fn course_upcoming(c: JsonValue, now: i64) -> Seq<UpView> {
    match (j_i64(field(c, "id"@)), j_array(field(c, "assignments"@))) {
        (Some(id), Some(items)) => upcoming_in(items, id, c, now),
        _ => Seq::empty(),
    }
}

/// The upcoming entries of a list of course entries, in the order they are listed.
pub open spec fn listed_upcoming(courses: Seq<JsonValue>, now: i64) -> Seq<UpView>
    decreases courses.len(),
{
    if courses.len() == 0 {
        Seq::empty()
    } else {
        listed_upcoming(courses.drop_last(), now) + course_upcoming(courses.last(), now)
    }
}

/// The course an entry is shown under: its full name, else its short name, else nothing.
pub open spec fn course_label(u: UpView) -> Seq<char> {
    match u.course_full_name {
        Some(f) => f,
        None => match u.course_short_name {
            Some(s) => s,
            None => Seq::empty(),
        },
    }
}

/// The order of the list: by due date, then by course label, then by name (both
/// compared lower-cased), then by id.
pub open spec fn up_before(a: UpView, b: UpView) -> bool {
    let ca = lowercase(course_label(a));
    let cb = lowercase(course_label(b));
    let na = lowercase(a.name);
    let nb = lowercase(b.name);
    ||| a.due_date < b.due_date
    ||| a.due_date == b.due_date && seq_lt(ca, cb)
    ||| a.due_date == b.due_date && ca == cb && seq_lt(na, nb)
    ||| a.due_date == b.due_date && ca == cb && na == nb && a.id < b.id
}

/// Where `x` goes in an ordered list: before the first entry it comes before.
pub open spec fn up_insert_position(s: Seq<UpView>, x: UpView, from: int) -> int
    decreases s.len() - from,
{
    if from < 0 || from >= s.len() {
        s.len() as int
    } else if up_before(x, s[from]) {
        from
    } else {
        up_insert_position(s, x, from + 1)
    }
}

/// The entries in order (a stable insertion sort).
pub open spec fn sort_upcoming(s: Seq<UpView>) -> Seq<UpView>
    decreases s.len(),
{
    if s.len() == 0 {
        Seq::empty()
    } else {
        let rest = sort_upcoming(s.drop_last());
        rest.insert(up_insert_position(rest, s.last(), 0), s.last())
    }
}

/// No entry comes before one listed ahead of it.
pub open spec fn upcoming_sorted(s: Seq<UpView>) -> bool {
    forall|i: int, j: int| 0 <= i < j < s.len() ==> !up_before(#[trigger] s[j], #[trigger] s[i])
}

proof fn lemma_up_before_order(a: UpView, b: UpView, c: UpView)
    ensures
        !(up_before(a, b) && up_before(b, a)),
        up_before(a, b) && up_before(b, c) ==> up_before(a, c),
{
    let (ca, cb, cc) = (lowercase(course_label(a)), lowercase(course_label(b)), lowercase(course_label(c)));
    let (na, nb, nc) = (lowercase(a.name), lowercase(b.name), lowercase(c.name));
    crate::text::lemma_seq_lt_trichotomy(ca, cb);
    crate::text::lemma_seq_lt_trichotomy(na, nb);
    crate::text::lemma_seq_lt_trichotomy(cb, cc);
    crate::text::lemma_seq_lt_trichotomy(nb, nc);
    crate::text::lemma_seq_lt_trichotomy(ca, cc);
    crate::text::lemma_seq_lt_trichotomy(na, nc);
    if seq_lt(ca, cb) && seq_lt(cb, cc) {
        crate::text::lemma_seq_lt_transitive(ca, cb, cc);
    }
    if seq_lt(na, nb) && seq_lt(nb, nc) {
        crate::text::lemma_seq_lt_transitive(na, nb, nc);
    }
}

proof fn lemma_up_insert_position(s: Seq<UpView>, x: UpView, from: int)
    requires
        0 <= from <= s.len(),
    ensures
        from <= up_insert_position(s, x, from) <= s.len(),
        forall|i: int| from <= i < up_insert_position(s, x, from) ==> !up_before(x, #[trigger] s[i]),
        up_insert_position(s, x, from) < s.len() ==> up_before(x, s[up_insert_position(s, x, from)]),
    decreases s.len() - from,
{
    if from < s.len() && !up_before(x, s[from]) {
        lemma_up_insert_position(s, x, from + 1);
    }
}

/// The ordered list is sorted and holds the same entries.
pub proof fn lemma_sort_upcoming(s: Seq<UpView>)
    ensures
        upcoming_sorted(sort_upcoming(s)),
        sort_upcoming(s).to_multiset() == s.to_multiset(),
        sort_upcoming(s).len() == s.len(),
    decreases s.len(),
{
    broadcast use vstd::seq_lib::to_multiset_insert, vstd::seq_lib::to_multiset_build;
    if s.len() > 0 {
        let rest = sort_upcoming(s.drop_last());
        let x = s.last();
        lemma_sort_upcoming(s.drop_last());
        lemma_up_insert_position(rest, x, 0);
        let p = up_insert_position(rest, x, 0);
        let t = rest.insert(p, x);
        rest.insert_ensures(p, x);
        assert forall|i: int, j: int| 0 <= i < j < t.len() implies !up_before(#[trigger] t[j], #[trigger] t[i]) by {
            if j < p {
                assert(t[i] == rest[i] && t[j] == rest[j]);
            } else if j == p {
                assert(t[i] == rest[i]);
                assert(!up_before(x, rest[i]));
            } else if i == p {
                assert(t[j] == rest[j - 1]);
                assert(up_before(x, rest[p]));
                if p < j - 1 {
                    assert(!up_before(rest[j - 1], rest[p]));
                }
                lemma_up_before_order(rest[j - 1], x, rest[p]);
                lemma_up_before_order(x, rest[p], x);
            } else if i < p {
                assert(t[i] == rest[i] && t[j] == rest[j - 1]);
            } else {
                assert(t[i] == rest[i - 1] && t[j] == rest[j - 1]);
            }
        }
        assert(s.drop_last().push(x) =~= s);
        assert(t.to_multiset() == rest.to_multiset().insert(x));
        assert(s.drop_last().push(x).to_multiset() == s.drop_last().to_multiset().insert(x));
    } else {
        assert(sort_upcoming(s) =~= s);
    }
}

/// The sort keys of an entry, held beside it while the list is built.
struct UpKey {
    due_date: i64,
    course: Vec<char>,
    name: Vec<char>,
    id: i64,
}

spec fn key_fits(k: UpKey, u: UpView) -> bool {
    &&& k.due_date == u.due_date
    &&& k.course@ == lowercase(course_label(u))
    &&& k.name@ == lowercase(u.name)
    &&& k.id == u.id
}

fn up_key(u: &UpcomingAssignment) -> (k: UpKey)
    ensures
        key_fits(k, upcoming_view(*u)),
{
    let label = match &u.course_full_name {
        Some(f) => to_lowercase(f.as_str()),
        None => match &u.course_short_name {
            Some(s) => to_lowercase(s.as_str()),
            None => {
                proof {
                    reveal_strlit("");
                    assert(""@ =~= Seq::<char>::empty());
                }
                to_lowercase("")
            },
        },
    };
    UpKey {
        due_date: u.due_date,
        course: chars_of(label.as_str()),
        name: chars_of(to_lowercase(u.name.as_str()).as_str()),
        id: u.id,
    }
}

fn key_before(a: &UpKey, b: &UpKey) -> (r: bool)
    ensures
        forall|x: UpView, y: UpView| key_fits(*a, x) && key_fits(*b, y) ==> r == up_before(x, y),
{
    if a.due_date != b.due_date {
        return a.due_date < b.due_date;
    }
    if chars_lt(&a.course, &b.course) {
        return true;
    }
    if !chars_eq(&a.course, &b.course) {
        return false;
    }
    if chars_lt(&a.name, &b.name) {
        return true;
    }
    if !chars_eq(&a.name, &b.name) {
        return false;
    }
    a.id < b.id
}

fn insert_upcoming(out: &mut Vec<UpcomingAssignment>, keys: &mut Vec<UpKey>, x: UpcomingAssignment)
    requires
        old(keys)@.len() == old(out)@.len(),
        forall|k: int| 0 <= k < old(out)@.len() ==> key_fits(#[trigger] old(keys)@[k], upcoming_view(old(out)@[k])),
    ensures
        final(keys)@.len() == final(out)@.len(),
        forall|k: int| 0 <= k < final(out)@.len() ==> key_fits(#[trigger] final(keys)@[k], upcoming_view(final(out)@[k])),
        upcoming_views(final(out)@) == upcoming_views(old(out)@).insert(
            up_insert_position(upcoming_views(old(out)@), upcoming_view(x), 0),
            upcoming_view(x),
        ),
{
    let ghost ov = upcoming_views(out@);
    let kx = up_key(&x);
    let ghost vx = upcoming_view(x);
    let mut p: usize = 0;
    while p < out.len() && !key_before(&kx, &keys[p])
        invariant
            p <= out@.len(),
            keys@.len() == out@.len(),
            ov == upcoming_views(out@),
            key_fits(kx, upcoming_view(x)),
            vx == upcoming_view(x),
            forall|k: int| 0 <= k < out@.len() ==> key_fits(#[trigger] keys@[k], upcoming_view(out@[k])),
            up_insert_position(ov, upcoming_view(x), 0) == up_insert_position(ov, upcoming_view(x), p as int),
        decreases out.len() - p,
    {
        assert(ov[p as int] == upcoming_view(out@[p as int]));
        assert(key_fits(keys@[p as int], ov[p as int]));
        assert(!up_before(vx, ov[p as int]));
        p += 1;
    }
    if p < out.len() {
        assert(ov[p as int] == upcoming_view(out@[p as int]));
        assert(key_fits(keys@[p as int], ov[p as int]));
        assert(up_before(vx, ov[p as int]));
    }
    assert(up_insert_position(ov, vx, 0) == p);
    let ghost before_out = out@;
    let ghost before_keys = keys@;
    out.insert(p, x);
    keys.insert(p, kx);
    assert(upcoming_views(out@) =~= ov.insert(p as int, vx));
    assert forall|k: int| 0 <= k < out@.len() implies key_fits(#[trigger] keys@[k], upcoming_view(out@[k])) by {
        if k < p {
            assert(keys@[k] == before_keys[k] && out@[k] == before_out[k]);
        } else if k > p {
            assert(keys@[k] == before_keys[k - 1] && out@[k] == before_out[k - 1]);
        }
    }
}

fn push_course_upcoming(
    out: &mut Vec<UpcomingAssignment>,
    keys: &mut Vec<UpKey>,
    items: &Vec<JsonValue>,
    course_id: i64,
    course: &JsonValue,
    now: i64,
)
    requires
        old(keys)@.len() == old(out)@.len(),
        forall|k: int| 0 <= k < old(out)@.len() ==> key_fits(#[trigger] old(keys)@[k], upcoming_view(old(out)@[k])),
    ensures
        final(keys)@.len() == final(out)@.len(),
        forall|k: int| 0 <= k < final(out)@.len() ==> key_fits(#[trigger] final(keys)@[k], upcoming_view(final(out)@[k])),
        forall|pre: Seq<UpView>|
            upcoming_views(old(out)@) == #[trigger] sort_upcoming(pre) ==> upcoming_views(final(out)@) == sort_upcoming(
                pre + upcoming_in(items@, course_id, *course, now),
            ),
{
    let ghost start = upcoming_views(out@);
    let short = as_decoded(get(course, "shortname"));
    let full = as_decoded(get(course, "fullname"));
    let mut j: usize = 0;
    while j < items.len()
        invariant
            j <= items@.len(),
            keys@.len() == out@.len(),
            forall|k: int| 0 <= k < out@.len() ==> key_fits(#[trigger] keys@[k], upcoming_view(out@[k])),
            opt_view(short) == j_decoded(field(*course, "shortname"@)),
            opt_view(full) == j_decoded(field(*course, "fullname"@)),
            forall|pre: Seq<UpView>|
                start == #[trigger] sort_upcoming(pre) ==> upcoming_views(out@) == sort_upcoming(
                    pre + upcoming_in(items@.take(j as int), course_id, *course, now),
                ),
        decreases items.len() - j,
    {
        assert(items@.take(j + 1).drop_last() =~= items@.take(j as int));
        assert(items@.take(j + 1).last() == items@[j as int]);
        let a = &items[j];
        let ghost cur = upcoming_in(items@.take(j as int), course_id, *course, now);
        let id = as_i64(get(a, "id"));
        let name = as_decoded(get(a, "name"));
        let due = as_i64(get(a, "duedate"));
        match (id, name, due) {
            (Some(id), Some(name), Some(due)) => {
                if !name.as_str().is_empty() && due > 0 && due >= now {
                    let ghost before = upcoming_views(out@);
                    let x = UpcomingAssignment {
                        id,
                        name,
                        due_date: due,
                        course_id,
                        course_short_name: crate::models::clone_opt(&short),
                        course_full_name: crate::models::clone_opt(&full),
                    };
                    assert(upcoming_view(x) == upcoming_of(items@[j as int], course_id, *course));
                    insert_upcoming(out, keys, x);
                    assert forall|pre: Seq<UpView>| start == #[trigger] sort_upcoming(pre) implies upcoming_views(out@)
                        == sort_upcoming(pre + upcoming_in(items@.take(j + 1), course_id, *course, now)) by {
                        let nxt = pre + upcoming_in(items@.take(j + 1), course_id, *course, now);
                        assert(nxt.drop_last() =~= pre + cur);
                        assert(nxt.last() == upcoming_of(items@[j as int], course_id, *course));
                    }
                } else {
                    assert(upcoming_in(items@.take(j + 1), course_id, *course, now) == cur);
                }
            },
            _ => {
                assert(upcoming_in(items@.take(j + 1), course_id, *course, now) == cur);
            },
        }
        j += 1;
    }
    assert(items@.take(items@.len() as int) =~= items@);
}

/// The assignments of a `mod_assign_get_assignments` reply that are due at or after
/// `now_timestamp`, ordered by due date, course, name and id.
pub fn normalize_upcoming_assignments(value: &JsonValue, now_timestamp: i64) -> (r: Vec<UpcomingAssignment>)
    ensures
        upcoming_views(r@) == sort_upcoming(listed_upcoming(array_items(field(*value, "courses"@)), now_timestamp)),
{
    let mut out: Vec<UpcomingAssignment> = Vec::new();
    let mut keys: Vec<UpKey> = Vec::new();
    assert(upcoming_views(out@) =~= sort_upcoming(Seq::empty()));
    let courses = match as_array(get(value, "courses")) {
        Some(items) => items,
        None => {
            return out;
        },
    };
    let ghost cs = courses@;
    let mut i: usize = 0;
    while i < courses.len()
        invariant
            i <= cs.len(),
            cs == courses@,
            keys@.len() == out@.len(),
            forall|k: int| 0 <= k < out@.len() ==> key_fits(#[trigger] keys@[k], upcoming_view(out@[k])),
            upcoming_views(out@) == sort_upcoming(listed_upcoming(cs.take(i as int), now_timestamp)),
        decreases courses.len() - i,
    {
        assert(cs.take(i + 1).drop_last() =~= cs.take(i as int));
        assert(cs.take(i + 1).last() == cs[i as int]);
        let ghost prev = listed_upcoming(cs.take(i as int), now_timestamp);
        let raw = &courses[i];
        match (as_i64(get(raw, "id")), as_array(get(raw, "assignments"))) {
            (Some(course_id), Some(items)) => {
                push_course_upcoming(&mut out, &mut keys, items, course_id, raw, now_timestamp);
                assert(listed_upcoming(cs.take(i + 1), now_timestamp) == prev + upcoming_in(
                    items@,
                    course_id,
                    *raw,
                    now_timestamp,
                ));
            },
            _ => {
                assert(listed_upcoming(cs.take(i + 1), now_timestamp) =~= prev);
            },
        }
        i += 1;
    }
    assert(cs.take(cs.len() as int) =~= cs);
    out
}

/// The upcoming list is ordered, and holds exactly the entries the reply lists as due at
/// or after `now` (as a multiset).
pub proof fn law_upcoming_sorted(value: JsonValue, now: i64)
    ensures
        upcoming_sorted(sort_upcoming(listed_upcoming(array_items(field(value, "courses"@)), now))),
        sort_upcoming(listed_upcoming(array_items(field(value, "courses"@)), now)).to_multiset()
            == listed_upcoming(array_items(field(value, "courses"@)), now).to_multiset(),
{
    lemma_sort_upcoming(listed_upcoming(array_items(field(value, "courses"@)), now));
}

// ---------------------------------------------------------------------------------------
// Token replies and site information

/// The reasons a token reply gives for a refused login: its error, error code and
/// debugging text, those that are present.
pub open spec fn token_reasons(v: JsonValue) -> Seq<Seq<char>> {
    let e = j_str(field(v, "error"@));
    let c = j_str(field(v, "errorcode"@));
    let d = j_str(field(v, "debuginfo"@));
    (if e is Some { seq![e->0] } else { Seq::empty() }) + (if c is Some { seq![c->0] } else { Seq::empty() }) + (
    if d is Some {
        seq![d->0]
    } else {
        Seq::empty()
    })
}

/// The token of a token reply, or the message for a refused login: the reasons joined
/// by ` | `, or `Token request failed` when there are none.
pub fn token_from_response(value: &JsonValue) -> (r: Result<String, String>)
    ensures
        match j_str(field(*value, "token"@)) {
            Some(t) => r matches Ok(tok) && tok@ == t,
            None => r matches Err(e) && e@ == (if token_reasons(*value).len() == 0 {
                "Token request failed"@
            } else {
                join_bar(token_reasons(*value))
            }),
        },
{
    let (token, error, errorcode, debuginfo) = normalize_token_response(value);
    if let Some(t) = token {
        return Ok(t);
    }
    let ghost reasons = token_reasons(*value);
    let mut out = String::new();
    let mut n: usize = 0;
    let ghost mut done: Seq<Seq<char>> = Seq::empty();
    match &error {
        Some(e) => {
            push_str(&mut out, e.as_str());
            n = 1;
            proof {
                done = done.push(e@);
            }
        },
        None => {},
    }
    assert(out@ =~= join_bar(done));
    match &errorcode {
        Some(c) => {
            if n > 0 {
                push_str(&mut out, " | ");
            }
            push_str(&mut out, c.as_str());
            n = n + 1;
            proof {
                assert(done.push(c@).drop_last() =~= done);
                done = done.push(c@);
            }
        },
        None => {},
    }
    assert(out@ =~= join_bar(done));
    match &debuginfo {
        Some(d) => {
            if n > 0 {
                push_str(&mut out, " | ");
            }
            push_str(&mut out, d.as_str());
            n = n + 1;
            proof {
                assert(done.push(d@).drop_last() =~= done);
                done = done.push(d@);
            }
        },
        None => {},
    }
    assert(done =~= reasons);
    if n == 0 {
        return Err("Token request failed".to_string());
    }
    Err(out)
}

/// The id of the signed-in user in a site-information reply.
pub fn site_user_id(value: &JsonValue) -> (r: Option<i64>)
    ensures
        r == j_i64(field(*value, "userid"@)),
{
    as_i64(get(value, "userid"))
}

/// The next page of a paged reply: its `nextpage` when that is a number not below zero.
pub fn next_page(value: &JsonValue) -> (r: Option<i64>)
    ensures
        r == (match j_i64(field(*value, "nextpage"@)) {
            Some(p) => if p >= 0 { Some(p) } else { None },
            None => None,
        }),
{
    match as_i64(get(value, "nextpage")) {
        Some(p) => if p >= 0 {
            Some(p)
        } else {
            None
        },
        None => None,
    }
}

// ---------------------------------------------------------------------------------------
// Lists of courses and sections

/// The entries of a list that read as courses, in order.
pub open spec fn course_values(s: Seq<JsonValue>) -> Seq<JsonValue>
    decreases s.len(),
{
    if s.len() == 0 {
        Seq::empty()
    } else if course_ok(s.last()) {
        course_values(s.drop_last()).push(s.last())
    } else {
        course_values(s.drop_last())
    }
}

/// What a course entry is ordered by: its decoded full name, lower-cased.
pub open spec fn course_key(v: JsonValue) -> Seq<char> {
    lowercase(j_decoded(field(v, "fullname"@))->0)
}

/// Where `x` goes among entries ordered by name: before the first whose name is larger.
pub open spec fn course_insert_position(s: Seq<JsonValue>, x: JsonValue, from: int) -> int
    decreases s.len() - from,
{
    if from < 0 || from >= s.len() {
        s.len() as int
    } else if seq_lt(course_key(x), course_key(s[from])) {
        from
    } else {
        course_insert_position(s, x, from + 1)
    }
}

/// The entries ordered by lower-cased full name, ties kept in their order.
pub open spec fn sort_courses(s: Seq<JsonValue>) -> Seq<JsonValue>
    decreases s.len(),
{
    if s.len() == 0 {
        Seq::empty()
    } else {
        let rest = sort_courses(s.drop_last());
        rest.insert(course_insert_position(rest, s.last(), 0), s.last())
    }
}

/// Courses read pairwise from their entries.
pub open spec fn courses_match(srcs: Seq<JsonValue>, out: Seq<Course>) -> bool {
    &&& out.len() == srcs.len()
    &&& forall|k: int| 0 <= k < out.len() ==> course_matches(#[trigger] srcs[k], out[k])
}

/// The courses of an enrolment reply (a list), ordered by full name ignoring case;
/// nothing when the reply is not a list.
pub fn normalize_courses(value: &JsonValue) -> (r: Option<Vec<Course>>)
    ensures
        match j_array(Some(*value)) {
            Some(items) => r matches Some(cs) && courses_match(sort_courses(course_values(items)), cs@),
            None => r is None,
        },
{
    let items = match value {
        JsonValue::Array(items) => items,
        _ => {
            return None;
        },
    };
    let mut out: Vec<Course> = Vec::new();
    let mut keys: Vec<Vec<char>> = Vec::new();
    let mut i: usize = 0;
    while i < items.len()
        invariant
            i <= items@.len(),
            keys@.len() == out@.len(),
            courses_match(sort_courses(course_values(items@.take(i as int))), out@),
            forall|k: int| 0 <= k < out@.len() ==> (#[trigger] keys@[k])@ == lowercase(out@[k].fullname@),
        decreases items.len() - i,
    {
        assert(items@.take(i + 1).drop_last() =~= items@.take(i as int));
        assert(items@.take(i + 1).last() == items@[i as int]);
        let ghost sorted = sort_courses(course_values(items@.take(i as int)));
        match normalize_course(&items[i]) {
            Some(c) => {
                let key = chars_of(to_lowercase(c.fullname.as_str()).as_str());
                let ghost x = items@[i as int];
                assert(key@ == course_key(x));
                let mut p: usize = 0;
                while p < out.len() && !chars_lt(&key, &keys[p])
                    invariant
                        p <= out@.len(),
                        keys@.len() == out@.len(),
                        courses_match(sorted, out@),
                        forall|k: int| 0 <= k < out@.len() ==> (#[trigger] keys@[k])@ == lowercase(out@[k].fullname@),
                        key@ == course_key(x),
                        course_insert_position(sorted, x, 0) == course_insert_position(sorted, x, p as int),
                    decreases out.len() - p,
                {
                    assert(course_matches(sorted[p as int], out@[p as int]));
                    assert(keys@[p as int]@ == course_key(sorted[p as int]));
                    p += 1;
                }
                if p < out.len() {
                    assert(course_matches(sorted[p as int], out@[p as int]));
                    assert(keys@[p as int]@ == course_key(sorted[p as int]));
                }
                assert(course_insert_position(sorted, x, 0) == p);
                let ghost before_out = out@;
                let ghost before_keys = keys@;
                out.insert(p, c);
                keys.insert(p, key);
                let ghost nxt = sort_courses(course_values(items@.take(i + 1)));
                assert(course_values(items@.take(i + 1)) == course_values(items@.take(i as int)).push(x));
                assert(course_values(items@.take(i + 1)).drop_last() =~= course_values(items@.take(i as int)));
                assert(nxt == sorted.insert(p as int, x));
                assert forall|k: int| 0 <= k < out@.len() implies course_matches(#[trigger] nxt[k], out@[k]) && (
                keys@[k])@ == lowercase(out@[k].fullname@) by {
                    if k < p {
                        assert(out@[k] == before_out[k] && keys@[k] == before_keys[k]);
                    } else if k > p {
                        assert(out@[k] == before_out[k - 1] && keys@[k] == before_keys[k - 1]);
                    }
                }
            },
            None => {
                assert(course_values(items@.take(i + 1)) == course_values(items@.take(i as int)));
            },
        }
        i += 1;
    }
    assert(items@.take(items@.len() as int) =~= items@);
    Some(out)
}

/// The entries of a list that read as sections, in order.
pub open spec fn section_values(s: Seq<JsonValue>) -> Seq<JsonValue>
    decreases s.len(),
{
    if s.len() == 0 {
        Seq::empty()
    } else if j_i64(field(s.last(), "id"@)) is Some {
        section_values(s.drop_last()).push(s.last())
    } else {
        section_values(s.drop_last())
    }
}

/// The sections of a course-contents reply (a list); nothing when the reply is not a list.
pub fn normalize_sections(value: &JsonValue) -> (r: Option<Vec<CourseSection>>)
    ensures
        match j_array(Some(*value)) {
            Some(items) => r matches Some(ss) && {
                &&& ss@.len() == section_values(items).len()
                &&& forall|k: int| 0 <= k < ss@.len() ==> section_matches(#[trigger] section_values(items)[k], ss@[k])
            },
            None => r is None,
        },
{
    let items = match value {
        JsonValue::Array(items) => items,
        _ => {
            return None;
        },
    };
    let mut out: Vec<CourseSection> = Vec::new();
    let mut i: usize = 0;
    while i < items.len()
        invariant
            i <= items@.len(),
            out@.len() == section_values(items@.take(i as int)).len(),
            forall|k: int|
                0 <= k < out@.len() ==> section_matches(#[trigger] section_values(items@.take(i as int))[k], out@[k]),
        decreases items.len() - i,
    {
        assert(items@.take(i + 1).drop_last() =~= items@.take(i as int));
        assert(items@.take(i + 1).last() == items@[i as int]);
        match normalize_section(&items[i]) {
            Some(sec) => {
                out.push(sec);
            },
            None => {},
        }
        i += 1;
    }
    assert(items@.take(items@.len() as int) =~= items@);
    Some(out)
}

// ---------------------------------------------------------------------------------------
// Quizzes

/// The attempt object of a reply: its `attempt` member when that is an object, else the
/// value itself (an entry of an attempt list).
pub open spec fn attempt_object(v: JsonValue) -> JsonValue {
    match field(v, "attempt"@) {
        Some(a) => if is_object(a) {
            a
        } else {
            v
        },
        None => v,
    }
}

/// An attempt needs an id and the id of its quiz.
pub open spec fn attempt_ok(v: JsonValue) -> bool {
    &&& j_i64(field(attempt_object(v), "id"@)) is Some
    &&& j_i64(field(attempt_object(v), "quiz"@)) is Some
}

/// The state of an attempt (empty when it gives none).
pub open spec fn attempt_state(v: JsonValue) -> Seq<char> {
    match j_str(field(attempt_object(v), "state"@)) {
        Some(s) => s,
        None => Seq::empty(),
    }
}

/// An attempt read from a reply.
pub open spec fn attempt_matches(v: JsonValue, a: QuizAttempt) -> bool {
    let o = attempt_object(v);
    &&& Some(a.id) == j_i64(field(o, "id"@))
    &&& Some(a.quiz) == j_i64(field(o, "quiz"@))
    &&& a.state@ == attempt_state(v)
    &&& a.currentpage == j_i64(field(o, "currentpage"@))
    &&& a.timestart == j_i64(field(o, "timestart"@))
    &&& a.timefinish == j_i64(field(o, "timefinish"@))
}

/// The attempt of a start-attempt reply, or an entry of an attempt list.
pub fn normalize_quiz_attempt(value: &JsonValue) -> (r: Option<QuizAttempt>)
    ensures
        r is Some <==> attempt_ok(*value),
        r matches Some(a) ==> attempt_matches(*value, a),
{
    let o = match get(value, "attempt") {
        Some(a) => match a {
            JsonValue::Object(_) => a,
            _ => value,
        },
        None => value,
    };
    let id = match as_i64(get(o, "id")) {
        Some(id) => id,
        None => {
            return None;
        },
    };
    let quiz = match as_i64(get(o, "quiz")) {
        Some(q) => q,
        None => {
            return None;
        },
    };
    let state = match as_str(get(o, "state")) {
        Some(s) => s,
        None => String::new(),
    };
    Some(QuizAttempt {
        id,
        quiz,
        state,
        currentpage: as_i64(get(o, "currentpage")),
        timestart: as_i64(get(o, "timestart")),
        timefinish: as_i64(get(o, "timefinish")),
    })
}

fn copy_attempt(a: &QuizAttempt) -> (r: QuizAttempt)
    ensures
        r == *a,
{
    QuizAttempt {
        id: a.id,
        quiz: a.quiz,
        state: a.state.clone(),
        currentpage: a.currentpage,
        timestart: a.timestart,
        timefinish: a.timefinish,
    }
}

/// The entries of a list that read as attempts, in order.
pub open spec fn attempt_values(s: Seq<JsonValue>) -> Seq<JsonValue>
    decreases s.len(),
{
    if s.len() == 0 {
        Seq::empty()
    } else if attempt_ok(s.last()) {
        attempt_values(s.drop_last()).push(s.last())
    } else {
        attempt_values(s.drop_last())
    }
}

/// The first attempt from `from` on that is in progress.
pub open spec fn first_in_progress(s: Seq<JsonValue>, from: int) -> Option<int>
    decreases s.len() - from,
{
    if from < 0 || from >= s.len() {
        None
    } else if attempt_state(s[from]) == "inprogress"@ {
        Some(from)
    } else {
        first_in_progress(s, from + 1)
    }
}

/// The attempt to resume from an attempt-list reply: the first one in progress, else the
/// first one; nothing when the list is missing or holds no attempt.
pub fn pick_unfinished_attempt(value: &JsonValue) -> (r: Option<QuizAttempt>)
    ensures
        match j_array(field(*value, "attempts"@)) {
            Some(items) => {
                let c = attempt_values(items);
                if c.len() == 0 {
                    r is None
                } else {
                    let k = match first_in_progress(c, 0) {
                        Some(k) => k,
                        None => 0,
                    };
                    r matches Some(a) && attempt_matches(c[k], a)
                }
            },
            None => r is None,
        },
{
    let items = match as_array(get(value, "attempts")) {
        Some(items) => items,
        None => {
            return None;
        },
    };
    let mut found: Vec<QuizAttempt> = Vec::new();
    let mut i: usize = 0;
    while i < items.len()
        invariant
            i <= items@.len(),
            found@.len() == attempt_values(items@.take(i as int)).len(),
            forall|k: int|
                0 <= k < found@.len() ==> attempt_matches(#[trigger] attempt_values(items@.take(i as int))[k], found@[k]),
        decreases items.len() - i,
    {
        assert(items@.take(i + 1).drop_last() =~= items@.take(i as int));
        assert(items@.take(i + 1).last() == items@[i as int]);
        match normalize_quiz_attempt(&items[i]) {
            Some(a) => {
                found.push(a);
            },
            None => {},
        }
        i += 1;
    }
    assert(items@.take(items@.len() as int) =~= items@);
    let ghost c = attempt_values(items@);
    let mut k: usize = 0;
    while k < found.len()
        invariant
            k <= found@.len(),
            found@.len() == c.len(),
            c == attempt_values(items@),
            j_array(field(*value, "attempts"@)) == Some(items@),
            forall|j: int| 0 <= j < found@.len() ==> attempt_matches(#[trigger] c[j], found@[j]),
            first_in_progress(c, 0) == first_in_progress(c, k as int),
        decreases found.len() - k,
    {
        assert(attempt_matches(c[k as int], found@[k as int]));
        if chars_eq_str(&chars_of(found[k].state.as_str()), "inprogress") {
            return Some(copy_attempt(&found[k]));
        }
        k += 1;
    }
    if found.len() == 0 {
        None
    } else {
        assert(attempt_matches(c[0], found@[0]));
        Some(copy_attempt(&found[0]))
    }
}

/// A quiz entry that is listed: it has an id, a course module and a name, and belongs to
/// the course asked for (its own course, else the one asked for).
pub open spec fn quiz_ok(v: JsonValue, course_id_filter: Option<i64>) -> bool {
    &&& j_i64(field(v, "id"@)) is Some
    &&& j_i64(field(v, "coursemodule"@)) is Some
    &&& j_decoded(field(v, "name"@)) is Some
    &&& either(j_i64(field(v, "course"@)), course_id_filter) is Some
    &&& (course_id_filter is Some ==> either(j_i64(field(v, "course"@)), course_id_filter) == course_id_filter)
}

/// A quiz read from its entry.
pub open spec fn quiz_matches(v: JsonValue, course_id_filter: Option<i64>, q: QuizSummary) -> bool {
    &&& Some(q.id) == j_i64(field(v, "id"@))
    &&& Some(q.course_id) == either(j_i64(field(v, "course"@)), course_id_filter)
    &&& Some(q.cmid) == j_i64(field(v, "coursemodule"@))
    &&& Some(q.name@) == j_decoded(field(v, "name"@))
    &&& opt_view(q.intro) == j_decoded(field(v, "intro"@))
    &&& q.timeopen == j_i64(field(v, "timeopen"@))
    &&& q.timeclose == j_i64(field(v, "timeclose"@))
    &&& q.timelimit == j_i64(field(v, "timelimit"@))
    &&& q.attempts == j_i64(field(v, "attempts"@))
}

/// The listed quiz entries, in order.
pub open spec fn quiz_values(s: Seq<JsonValue>, course_id_filter: Option<i64>) -> Seq<JsonValue>
    decreases s.len(),
{
    if s.len() == 0 {
        Seq::empty()
    } else if quiz_ok(s.last(), course_id_filter) {
        quiz_values(s.drop_last(), course_id_filter).push(s.last())
    } else {
        quiz_values(s.drop_last(), course_id_filter)
    }
}

fn normalize_quiz(value: &JsonValue, course_id_filter: Option<i64>) -> (r: Option<QuizSummary>)
    ensures
        r is Some <==> quiz_ok(*value, course_id_filter),
        r matches Some(q) ==> quiz_matches(*value, course_id_filter, q),
{
    let id = match as_i64(get(value, "id")) {
        Some(id) => id,
        None => {
            return None;
        },
    };
    let cmid = match as_i64(get(value, "coursemodule")) {
        Some(c) => c,
        None => {
            return None;
        },
    };
    let name = match as_decoded(get(value, "name")) {
        Some(n) => n,
        None => {
            return None;
        },
    };
    let course_id = match as_i64(get(value, "course")) {
        Some(c) => c,
        None => match course_id_filter {
            Some(c) => c,
            None => {
                return None;
            },
        },
    };
    match course_id_filter {
        Some(f) => if f != course_id {
            return None;
        },
        None => {},
    }
    Some(QuizSummary {
        id,
        course_id,
        cmid,
        name,
        intro: as_decoded(get(value, "intro")),
        timeopen: as_i64(get(value, "timeopen")),
        timeclose: as_i64(get(value, "timeclose")),
        timelimit: as_i64(get(value, "timelimit")),
        attempts: as_i64(get(value, "attempts")),
    })
}

/// The quizzes of a `mod_quiz_get_quizzes_by_courses` reply, keeping only the course
/// asked for when one is given.
pub fn normalize_course_quizzes(value: &JsonValue, course_id_filter: Option<i64>) -> (r: Vec<QuizSummary>)
    ensures
        r@.len() == quiz_values(array_items(field(*value, "quizzes"@)), course_id_filter).len(),
        forall|k: int|
            0 <= k < r@.len() ==> quiz_matches(
                #[trigger] quiz_values(array_items(field(*value, "quizzes"@)), course_id_filter)[k],
                course_id_filter,
                r@[k],
            ),
{
    let mut out: Vec<QuizSummary> = Vec::new();
    let items = match as_array(get(value, "quizzes")) {
        Some(items) => items,
        None => {
            assert(quiz_values(Seq::<JsonValue>::empty(), course_id_filter).len() == 0);
            return out;
        },
    };
    let mut i: usize = 0;
    while i < items.len()
        invariant
            i <= items@.len(),
            out@.len() == quiz_values(items@.take(i as int), course_id_filter).len(),
            forall|k: int|
                0 <= k < out@.len() ==> quiz_matches(
                    #[trigger] quiz_values(items@.take(i as int), course_id_filter)[k],
                    course_id_filter,
                    out@[k],
                ),
        decreases items.len() - i,
    {
        assert(items@.take(i + 1).drop_last() =~= items@.take(i as int));
        assert(items@.take(i + 1).last() == items@[i as int]);
        match normalize_quiz(&items[i], course_id_filter) {
            Some(q) => {
                out.push(q);
            },
            None => {},
        }
        i += 1;
    }
    assert(items@.take(items@.len() as int) =~= items@);
    out
}

/// The question number: a text as it is, an integer in decimal.
pub open spec fn question_number(f: Option<JsonValue>) -> Option<Seq<char>> {
    match f {
        Some(JsonValue::String(t)) => Some(t.text@),
        Some(JsonValue::Number(n)) => match n.int {
            Some(i) => Some(int_decimal(i as int)),
            None => None,
        },
        _ => None,
    }
}

/// The HTML of a question (empty when it gives none).
pub open spec fn question_html(v: JsonValue) -> Seq<char> {
    match j_str(field(v, "html"@)) {
        Some(h) => h,
        None => Seq::empty(),
    }
}

/// A question read from its entry: its text and controls parsed from its HTML; a question
/// whose inputs cannot be read is marked unsupported and has no controls.
pub open spec fn question_matches(v: JsonValue, q: QuizQuestion) -> bool {
    let h = question_html(v);
    &&& Some(q.slot) == j_i64(field(v, "slot"@))
    &&& opt_view(q.number) == question_number(field(v, "number"@))
    &&& q.name@ == (match j_str(field(v, "type"@)) {
        Some(t) => t,
        None => Seq::empty(),
    })
    &&& q.html@ == h
    &&& q.text@ == question_text(h)
    &&& q.unsupported == (inputs_from(h, 0) is None)
    &&& controls_view(q.controls@) == (if inputs_from(h, 0) is Some {
        question_controls(h)
    } else {
        Seq::empty()
    })
}

fn normalize_question(value: &JsonValue) -> (r: Option<QuizQuestion>)
    ensures
        r is Some <==> j_i64(field(*value, "slot"@)) is Some,
        r matches Some(q) ==> question_matches(*value, q),
{
    let slot = match as_i64(get(value, "slot")) {
        Some(s) => s,
        None => {
            return None;
        },
    };
    let number = match get(value, "number") {
        Some(JsonValue::String(t)) => Some(t.text.clone()),
        Some(JsonValue::Number(n)) => match n.int {
            Some(i) => Some(i64_string(i)),
            None => None,
        },
        _ => None,
    };
    let name = match as_str(get(value, "type")) {
        Some(t) => t,
        None => String::new(),
    };
    let html = match as_str(get(value, "html")) {
        Some(h) => h,
        None => String::new(),
    };
    let parsable = can_parse_question_controls(html.as_str());
    let controls = if parsable {
        parse_question_controls(html.as_str())
    } else {
        let v: Vec<crate::models::QuizAnswerControl> = Vec::new();
        assert(controls_view(v@) =~= Seq::empty());
        v
    };
    Some(QuizQuestion {
        slot,
        number,
        name,
        text: question_text_from_html(html.as_str()),
        html,
        controls,
        unsupported: !parsable,
    })
}

/// The entries of a list that read as questions, in order.
pub open spec fn question_values(s: Seq<JsonValue>) -> Seq<JsonValue>
    decreases s.len(),
{
    if s.len() == 0 {
        Seq::empty()
    } else if j_i64(field(s.last(), "slot"@)) is Some {
        question_values(s.drop_last()).push(s.last())
    } else {
        question_values(s.drop_last())
    }
}

/// A warning read from its entry.
pub open spec fn warning_matches(v: JsonValue, w: QuizWarning) -> bool {
    &&& opt_view(w.item) == j_str(field(v, "item"@))
    &&& w.itemid == j_i64(field(v, "itemid"@))
    &&& w.warningcode@ == (match j_str(field(v, "warningcode"@)) {
        Some(c) => c,
        None => Seq::empty(),
    })
    &&& w.message@ == (match j_str(field(v, "message"@)) {
        Some(m) => m,
        None => Seq::empty(),
    })
}

fn collect_questions(items: &Vec<JsonValue>) -> (out: Vec<QuizQuestion>)
    ensures
        out@.len() == question_values(items@).len(),
        forall|k: int| 0 <= k < out@.len() ==> question_matches(#[trigger] question_values(items@)[k], out@[k]),
{
    let mut out: Vec<QuizQuestion> = Vec::new();
    let mut i: usize = 0;
    while i < items.len()
        invariant
            i <= items@.len(),
            out@.len() == question_values(items@.take(i as int)).len(),
            forall|k: int|
                0 <= k < out@.len() ==> question_matches(#[trigger] question_values(items@.take(i as int))[k], out@[k]),
        decreases items.len() - i,
    {
        assert(items@.take(i + 1).drop_last() =~= items@.take(i as int));
        assert(items@.take(i + 1).last() == items@[i as int]);
        match normalize_question(&items[i]) {
            Some(q) => {
                out.push(q);
            },
            None => {},
        }
        i += 1;
    }
    assert(items@.take(items@.len() as int) =~= items@);
    out
}

fn collect_warnings(items: &Vec<JsonValue>) -> (out: Vec<QuizWarning>)
    ensures
        out@.len() == objects(items@).len(),
        forall|k: int| 0 <= k < out@.len() ==> warning_matches(#[trigger] objects(items@)[k], out@[k]),
{
    let mut out: Vec<QuizWarning> = Vec::new();
    let mut i: usize = 0;
    while i < items.len()
        invariant
            i <= items@.len(),
            out@.len() == objects(items@.take(i as int)).len(),
            forall|k: int| 0 <= k < out@.len() ==> warning_matches(#[trigger] objects(items@.take(i as int))[k], out@[k]),
        decreases items.len() - i,
    {
        assert(items@.take(i + 1).drop_last() =~= items@.take(i as int));
        assert(items@.take(i + 1).last() == items@[i as int]);
        let w = &items[i];
        match w {
            JsonValue::Object(_) => {
                out.push(QuizWarning {
                    item: as_str(get(w, "item")),
                    itemid: as_i64(get(w, "itemid")),
                    warningcode: match as_str(get(w, "warningcode")) {
                        Some(c) => c,
                        None => String::new(),
                    },
                    message: match as_str(get(w, "message")) {
                        Some(m) => m,
                        None => String::new(),
                    },
                });
            },
            _ => {},
        }
        i += 1;
    }
    assert(items@.take(items@.len() as int) =~= items@);
    out
}

/// The attempt, questions and warnings of a `mod_quiz_get_attempt_data` reply; nothing
/// when it holds no readable attempt.
pub fn normalize_quiz_attempt_data(value: &JsonValue) -> (r: Option<QuizAttemptData>)
    ensures
        r is Some <==> attempt_ok(*value),
        r matches Some(d) ==> {
            let qs = question_values(array_items(field(*value, "questions"@)));
            let ws = objects(array_items(field(*value, "warnings"@)));
            &&& attempt_matches(*value, d.attempt)
            &&& d.questions@.len() == qs.len()
            &&& forall|k: int| 0 <= k < qs.len() ==> question_matches(#[trigger] qs[k], d.questions@[k])
            &&& d.warnings@.len() == ws.len()
            &&& forall|k: int| 0 <= k < ws.len() ==> warning_matches(#[trigger] ws[k], d.warnings@[k])
        },
{
    let attempt = match normalize_quiz_attempt(value) {
        Some(a) => a,
        None => {
            return None;
        },
    };
    let questions = match as_array(get(value, "questions")) {
        Some(items) => collect_questions(items),
        None => {
            let v: Vec<QuizQuestion> = Vec::new();
            assert(question_values(Seq::<JsonValue>::empty()).len() == 0);
            v
        },
    };
    let warnings = match as_array(get(value, "warnings")) {
        Some(items) => collect_warnings(items),
        None => {
            let v: Vec<QuizWarning> = Vec::new();
            assert(objects(Seq::<JsonValue>::empty()).len() == 0);
            v
        },
    };
    Some(QuizAttemptData { attempt, questions, warnings })
}

/// No entry of a list comes before one listed ahead of it by lower-cased full name.
pub open spec fn courses_sorted(s: Seq<JsonValue>) -> bool {
    forall|i: int, j: int| 0 <= i < j < s.len() ==> !seq_lt(course_key(#[trigger] s[j]), course_key(#[trigger] s[i]))
}

proof fn lemma_course_insert_position(s: Seq<JsonValue>, x: JsonValue, from: int)
    requires
        0 <= from <= s.len(),
    ensures
        from <= course_insert_position(s, x, from) <= s.len(),
        forall|i: int|
            from <= i < course_insert_position(s, x, from) ==> !seq_lt(course_key(x), course_key(#[trigger] s[i])),
        course_insert_position(s, x, from) < s.len() ==> seq_lt(
            course_key(x),
            course_key(s[course_insert_position(s, x, from)]),
        ),
    decreases s.len() - from,
{
    if from < s.len() && !seq_lt(course_key(x), course_key(s[from])) {
        lemma_course_insert_position(s, x, from + 1);
    }
}

/// The course list is ordered by lower-cased full name and holds the same entries.
pub proof fn law_courses_sorted(s: Seq<JsonValue>)
    ensures
        courses_sorted(sort_courses(s)),
        sort_courses(s).to_multiset() == s.to_multiset(),
        sort_courses(s).len() == s.len(),
    decreases s.len(),
{
    broadcast use vstd::seq_lib::to_multiset_insert, vstd::seq_lib::to_multiset_build;
    if s.len() > 0 {
        let rest = sort_courses(s.drop_last());
        let x = s.last();
        law_courses_sorted(s.drop_last());
        lemma_course_insert_position(rest, x, 0);
        let p = course_insert_position(rest, x, 0);
        let t = rest.insert(p, x);
        rest.insert_ensures(p, x);
        assert forall|i: int, j: int| 0 <= i < j < t.len() implies !seq_lt(course_key(#[trigger] t[j]), course_key(#[trigger] t[i])) by {
            if j < p {
                assert(t[i] == rest[i] && t[j] == rest[j]);
            } else if j == p {
                assert(t[i] == rest[i]);
                assert(!seq_lt(course_key(x), course_key(rest[i])));
            } else if i == p {
                assert(t[j] == rest[j - 1]);
                assert(seq_lt(course_key(x), course_key(rest[p])));
                if p < j - 1 {
                    assert(!seq_lt(course_key(rest[j - 1]), course_key(rest[p])));
                }
                crate::text::lemma_seq_lt_trichotomy(course_key(rest[j - 1]), course_key(rest[p]));
                crate::text::lemma_seq_lt_trichotomy(course_key(x), course_key(rest[j - 1]));
                if seq_lt(course_key(rest[j - 1]), course_key(x)) && course_key(rest[p]) != course_key(rest[j - 1]) {
                    crate::text::lemma_seq_lt_transitive(course_key(rest[p]), course_key(rest[j - 1]), course_key(x));
                    crate::text::lemma_seq_lt_trichotomy(course_key(x), course_key(rest[p]));
                }
            } else if i < p {
                assert(t[i] == rest[i] && t[j] == rest[j - 1]);
            } else {
                assert(t[i] == rest[i - 1] && t[j] == rest[j - 1]);
            }
        }
        assert(s.drop_last().push(x) =~= s);
        assert(t.to_multiset() == rest.to_multiset().insert(x));
        assert(s.drop_last().push(x).to_multiset() == s.drop_last().to_multiset().insert(x));
    } else {
        assert(sort_courses(s) =~= s);
    }
}

proof fn lemma_upcoming_in_due(items: Seq<JsonValue>, course_id: i64, c: JsonValue, now: i64, k: int)
    requires
        0 <= k < upcoming_in(items, course_id, c, now).len(),
    ensures
        upcoming_in(items, course_id, c, now)[k].due_date >= now,
        upcoming_in(items, course_id, c, now)[k].due_date > 0,
        upcoming_in(items, course_id, c, now)[k].name.len() > 0,
    decreases items.len(),
{
    if items.len() > 0 {
        let prev = upcoming_in(items.drop_last(), course_id, c, now);
        if k < prev.len() {
            lemma_upcoming_in_due(items.drop_last(), course_id, c, now, k);
        }
    }
}

proof fn lemma_listed_upcoming_due(courses: Seq<JsonValue>, now: i64, k: int)
    requires
        0 <= k < listed_upcoming(courses, now).len(),
    ensures
        listed_upcoming(courses, now)[k].due_date >= now,
        listed_upcoming(courses, now)[k].due_date > 0,
        listed_upcoming(courses, now)[k].name.len() > 0,
    decreases courses.len(),
{
    if courses.len() > 0 {
        let prev = listed_upcoming(courses.drop_last(), now);
        let last = course_upcoming(courses.last(), now);
        if k < prev.len() {
            lemma_listed_upcoming_due(courses.drop_last(), now, k);
        } else {
            let c = courses.last();
            match (j_i64(field(c, "id"@)), j_array(field(c, "assignments"@))) {
                (Some(id), Some(items)) => {
                    lemma_upcoming_in_due(items, id, c, now, k - prev.len());
                },
                _ => {},
            }
        }
    }
}

/// Nothing listed as upcoming is past: every entry is due at or after `now` (and has a
/// due date and a name).
pub proof fn law_upcoming_not_past(value: JsonValue, now: i64, k: int)
    requires
        0 <= k < sort_upcoming(listed_upcoming(array_items(field(value, "courses"@)), now)).len(),
    ensures
        sort_upcoming(listed_upcoming(array_items(field(value, "courses"@)), now))[k].due_date >= now,
        sort_upcoming(listed_upcoming(array_items(field(value, "courses"@)), now))[k].due_date > 0,
        sort_upcoming(listed_upcoming(array_items(field(value, "courses"@)), now))[k].name.len() > 0,
{
    let listed = listed_upcoming(array_items(field(value, "courses"@)), now);
    let sorted = sort_upcoming(listed);
    lemma_sort_upcoming(listed);
    vstd::seq_lib::to_multiset_contains(sorted, sorted[k]);
    assert(sorted.contains(sorted[k]));
    vstd::seq_lib::to_multiset_contains(listed, sorted[k]);
    let j = choose|j: int| 0 <= j < listed.len() && listed[j] == sorted[k];
    lemma_listed_upcoming_due(array_items(field(value, "courses"@)), now, j);
}


/// A module keeps the link Moodle gives it: when its object's `url` member is a string, the
/// module's url is that string; otherwise it has none.
pub proof fn law_module_keeps_its_url(v: JsonValue, m: CourseModule)
    requires
        module_matches(v, m),
    ensures
        match field(v, "url"@) {
            Some(JsonValue::String(t)) => m.url matches Some(u) && u@ == t.text@,
            _ => m.url is None,
        },
{
}

/// Every module of a section read from JSON keeps its link: the `k`-th module kept from the
/// section's `modules` array has the string its object's `url` member holds, if any.
pub proof fn law_section_modules_keep_their_urls(v: JsonValue, s: CourseSection, k: int)
    requires
        section_matches(v, s),
        0 <= k < s.modules@.len(),
    ensures
        match field(module_values(array_items(field(v, "modules"@)))[k], "url"@) {
            Some(JsonValue::String(t)) => s.modules@[k].url matches Some(u) && u@ == t.text@,
            _ => s.modules@[k].url is None,
        },
{
    let modules = module_values(array_items(field(v, "modules"@)));
    assert(module_matches(modules[k], s.modules@[k]));
    law_module_keeps_its_url(modules[k], s.modules@[k]);
}

} // verus!
