//! Text the main screen derives from its state: the tab title, the dashboard's filter over
//! upcoming assignments, and the highlighted part of a finder result.
use vstd::prelude::*;
use chrono::TimeZone;
use crate::main_keys::MainState;
use crate::models::{opt_view, Course, UpcomingAssignment};
use crate::scroll::{capped, horizontal_max, horizontal_max_for_width, wider};
use crate::settings::{display_width, pad_right, padded, str_width};
use crate::state::DashboardPane;
use crate::state::CourseView;
use crate::text::{
    chars_of, contains_chars, contains_seq, digit_char, find_from, find_seq, int_decimal, lemma_find_from_bounds,
    lowercase, push_i64, push_str, to_lowercase, trim, trim_str,
};

verus! {

/// The title of the active tab.
pub open spec fn tab_title(main: MainState) -> Seq<char> {
    if main.settings_open {
        "Settings"@
    } else {
        match main.view {
            CourseView::Dashboard => "Dashboard"@,
            CourseView::Course(c) => if c.course_short_name@.len() > 0 {
                c.course_short_name@
            } else if c.course_full_name@.len() > 0 {
                c.course_full_name@
            } else {
                "Course #"@ + int_decimal(c.course_id as int)
            },
        }
    }
}

/// The title of the active tab: the help, the dashboard, or the open course by its short
/// name, full name or id.
pub fn active_tab_title(main: &MainState) -> (r: String)
    ensures
        r@ == tab_title(*main),
{
    if main.settings_open {
        return "Settings".to_owned();
    }
    match &main.view {
        CourseView::Dashboard => "Dashboard".to_owned(),
        CourseView::Course(course) => {
            if !course.course_short_name.as_str().is_empty() {
                course.course_short_name.clone()
            } else if !course.course_full_name.as_str().is_empty() {
                course.course_full_name.clone()
            } else {
                let mut s = String::new();
                push_str(&mut s, "Course #");
                push_i64(&mut s, course.course_id);
                s
            }
        },
    }
}

/// The character positions of the first occurrence of `query_lower` in the lower-cased
/// `haystack` (none for an empty query or no occurrence).
pub open spec fn match_positions(haystack: Seq<char>, query_lower: Seq<char>) -> Seq<usize> {
    if query_lower.len() == 0 {
        Seq::empty()
    } else {
        match find_from(lowercase(haystack), query_lower, 0) {
            Some(start) => Seq::new(query_lower.len(), |i: int| (start + i) as usize),
            None => Seq::empty(),
        }
    }
}

/// Where a finder query shows up in a result, as character positions to highlight.
pub fn substring_match_indices(haystack: &str, query_lower: &str) -> (r: Vec<usize>)
    ensures
        r@ == match_positions(haystack@, query_lower@),
{
    let q = chars_of(query_lower);
    if q.len() == 0 {
        return Vec::new();
    }
    let hay = chars_of(to_lowercase(haystack).as_str());
    let start = match find_seq(&hay, &q, 0) {
        Some(s) => s,
        None => return Vec::new(),
    };
    proof {
        lemma_find_from_bounds(hay@, q@, 0);
    }
    let hn: usize = hay.len();
    let mut out: Vec<usize> = Vec::new();
    let mut i: usize = 0;
    while i < q.len()
        invariant
            i <= q@.len(),
            start + q@.len() <= hn,
            out@ == Seq::new(i as nat, |j: int| (start + j) as usize),
        decreases q.len() - i,
    {
        out.push(start + i);
        i += 1;
        assert(out@ =~= Seq::new(i as nat, |j: int| (start + j) as usize));
    }
    out
}

/// The `%Y-%m-%d %H:%M` layout: four year digits, `-`, two month digits, `-`, two day
/// digits, a space, two hour digits, `:`, two minute digits.
pub open spec fn stamp_layout(t: Seq<char>) -> bool {
    &&& t.len() == 16
    &&& t[4] == '-' && t[7] == '-' && t[10] == ' ' && t[13] == ':'
    &&& forall|i: int|
        0 <= i < 16 && i != 4 && i != 7 && i != 10 && i != 13 ==> '0' <= #[trigger] t[i] && t[i] <= '9'
}

/// `n` (from 0 to 99) as two digits.
pub open spec fn two_digit_text(n: int) -> Seq<char> {
    seq![digit_char(((n / 10) % 10) as nat), digit_char((n % 10) as nat)]
}

/// `n` (from 0 to 9999) as four digits.
pub open spec fn four_digit_text(n: int) -> Seq<char> {
    seq![
        digit_char(((n / 1000) % 10) as nat),
        digit_char(((n / 100) % 10) as nat),
        digit_char(((n / 10) % 10) as nat),
        digit_char((n % 10) as nat),
    ]
}

/// The proleptic Gregorian year, month and day of a count of days since 1970-01-01
/// (counted in 400-year eras from 0000-03-01).
pub open spec fn civil_from_days(days: int) -> (int, int, int) {
    let z = days + 719468;
    let era = z / 146097;
    let doe = z - era * 146097;
    let yoe = (doe - doe / 1460 + doe / 36524 - doe / 146096) / 365;
    let doy = doe - (365 * yoe + yoe / 4 - yoe / 100);
    let mp = (5 * doy + 2) / 153;
    let day = doy - (153 * mp + 2) / 5 + 1;
    let month = if mp < 10 { mp + 3 } else { mp - 9 };
    let year = yoe + era * 400 + (if month <= 2 { 1int } else { 0int });
    (year, month, day)
}

/// A Unix time as `%Y-%m-%d %H:%M` in UTC.
pub open spec fn utc_stamp(t: int) -> Seq<char> {
    let (year, month, day) = civil_from_days(t / 86400);
    let secs = t % 86400;
    four_digit_text(year) + "-"@ + two_digit_text(month) + "-"@ + two_digit_text(day) + " "@ + two_digit_text(
        secs / 3600,
    ) + ":"@ + two_digit_text((secs % 3600) / 60)
}

/// The UTC stamp of `seconds` moved by `offset` seconds.
pub open spec fn shifted_utc_stamp(seconds: int, offset: int) -> Seq<char> {
    utc_stamp(seconds + offset)
}

/// `t` is `seconds` written as the local time of a zone whose offset from UTC is under a
/// day either way.
pub open spec fn is_local_stamp(seconds: int, t: Seq<char>) -> bool {
    exists|offset: int| -86400 < offset < 86400 && t == #[trigger] shifted_utc_stamp(seconds, offset)
}

/// Unix times at least a day inside the years 0 to 9999 (UTC), so that their local time,
/// whatever the time zone, falls in those years.
pub open spec fn within_four_digit_years(seconds: i64) -> bool {
    -62_167_132_800 <= seconds < 253_402_214_400
}

/// `chrono::Local.timestamp_opt(seconds, 0).single()` formatted by chrono with
/// `%Y-%m-%d %H:%M`; nothing when chrono has no single local time for `seconds`. The text
/// depends on the machine's time zone; what is promised: chrono's `timestamp_opt` gives a
/// single local time for every timestamp its dates can hold (`offset/mod.rs`), which the
/// years 0 to 9999 are; that local time is the UTC time moved by the zone's offset, which
/// chrono keeps under a day either way (`FixedOffset::east_opt`, on which
/// `offset/local/unix.rs` relies); and chrono's layout for that format writes a year from 0
/// to 9999 as four digits and month, day, hour and minute as two zero-padded digits each
/// (`format/formatting.rs`, `write_year` and `write_two`) of the proleptic Gregorian
/// calendar.
#[verifier::external_body]
fn local_date_time(seconds: i64, fmt: &str) -> (r: Option<String>)
    requires
        fmt@ == "%Y-%m-%d %H:%M"@,
    ensures
        within_four_digit_years(seconds) ==> r is Some,
        within_four_digit_years(seconds) ==> (r matches Some(t) ==> stamp_layout(t@)),
        within_four_digit_years(seconds) ==> (r matches Some(t) ==> is_local_stamp(seconds as int, t@)),
{
    chrono::Local.timestamp_opt(seconds, 0).single().map(|dt| dt.format(fmt).to_string())
}

/// A due date as the local date and time `YYYY-MM-DD HH:MM`, or `(unknown)` when there is
/// no single local time for it (which happens only outside the years 0 to 9999). Within
/// those years it is the UTC time of `seconds` moved by the machine's offset from UTC.
pub fn format_timestamp(seconds: i64) -> (r: String)
    ensures
        within_four_digit_years(seconds) ==> stamp_layout(r@) && is_local_stamp(seconds as int, r@),
{
    match local_date_time(seconds, "%Y-%m-%d %H:%M") {
        Some(t) => t,
        None => "(unknown)".to_owned(),
    }
}

/// An upcoming assignment matches a lower-cased query when the query is empty or its name,
/// course short name, course full name or shown due date contains it (ignoring case).
pub open spec fn upcoming_matches(a: UpcomingAssignment, query: Seq<char>, stamp: Seq<char>) -> bool {
    query.len() == 0 || contains_seq(lowercase(a.name@), query) || contains_seq(
        lowercase(
            match opt_view(a.course_short_name) {
                Some(s) => s,
                None => Seq::empty(),
            },
        ),
        query,
    ) || contains_seq(
        lowercase(
            match opt_view(a.course_full_name) {
                Some(s) => s,
                None => Seq::empty(),
            },
        ),
        query,
    ) || contains_seq(lowercase(stamp), query)
}

/// The positions of the assignments that match, in order; `stamps[i]` is how the due date
/// of assignment `i` is shown.
pub open spec fn upcoming_filter(list: Seq<UpcomingAssignment>, query: Seq<char>, stamps: Seq<Seq<char>>) -> Seq<int>
    decreases list.len(),
{
    if list.len() == 0 {
        Seq::empty()
    } else {
        let rest = upcoming_filter(list.drop_last(), query, stamps);
        if upcoming_matches(list.last(), query, stamps[list.len() - 1]) {
            rest.push(list.len() - 1)
        } else {
            rest
        }
    }
}

fn contains_lower(text: &str, q: &Vec<char>) -> (r: bool)
    ensures
        r == contains_seq(lowercase(text@), q@),
{
    let lowered = to_lowercase(text);
    contains_chars(&chars_of(lowered.as_str()), q)
}

fn opt_text(o: &Option<String>) -> (r: &str)
    ensures
        r@ == (match opt_view(*o) {
            Some(s) => s,
            None => Seq::empty(),
        }),
{
    match o {
        Some(s) => s.as_str(),
        None => {
            proof {
                reveal_strlit("");
            }
            ""
        },
    }
}

/// The upcoming assignments that match the dashboard filter, given how each due date is
/// shown.
pub fn filter_upcoming_with(list: &Vec<UpcomingAssignment>, query: &str, stamps: &Vec<String>) -> (r: Vec<usize>)
    requires
        stamps@.len() == list@.len(),
    ensures
        r@.map_values(|x: usize| x as int) == upcoming_filter(
            list@,
            lowercase(trim(query@)),
            stamps@.map_values(|s: String| s@),
        ),
{
    let q = to_lowercase(trim_str(query).as_str());
    let qc = chars_of(q.as_str());
    let ghost sv = stamps@.map_values(|s: String| s@);
    let mut out: Vec<usize> = Vec::new();
    let mut i: usize = 0;
    while i < list.len()
        invariant
            i <= list@.len(),
            stamps@.len() == list@.len(),
            sv == stamps@.map_values(|s: String| s@),
            qc@ == lowercase(trim(query@)),
            out@.map_values(|x: usize| x as int) == upcoming_filter(list@.take(i as int), qc@, sv),
        decreases list.len() - i,
    {
        assert(list@.take(i + 1).drop_last() =~= list@.take(i as int));
        assert(list@.take(i + 1).last() == list@[i as int]);
        let a = &list[i];
        let keep = qc.len() == 0 || contains_lower(a.name.as_str(), &qc) || contains_lower(
            opt_text(&a.course_short_name),
            &qc,
        ) || contains_lower(opt_text(&a.course_full_name), &qc) || contains_lower(stamps[i].as_str(), &qc);
        assert(sv[i as int] == stamps@[i as int]@);
        let ghost before = out@.map_values(|x: usize| x as int);
        if keep {
            out.push(i);
            assert(out@.map_values(|x: usize| x as int) =~= before.push(i as int));
        }
        i += 1;
    }
    assert(list@.take(list@.len() as int) =~= list@);
    out
}

/// How the due dates of `list` are shown: one text per assignment, in the
/// `YYYY-MM-DD HH:MM` layout for every due date inside the years 0 to 9999, as
/// `format_timestamp` writes them.
pub open spec fn shown_due_dates(list: Seq<UpcomingAssignment>, stamps: Seq<Seq<char>>) -> bool {
    &&& stamps.len() == list.len()
    &&& forall|i: int|
        0 <= i < list.len() && within_four_digit_years(list[i].due_date) ==> stamp_layout(#[trigger] stamps[i])
            && is_local_stamp(list[i].due_date as int, stamps[i])
}

/// The due date of each assignment as `format_timestamp` shows it.
fn due_date_stamps(list: &Vec<UpcomingAssignment>) -> (r: Vec<String>)
    ensures
        shown_due_dates(list@, r@.map_values(|s: String| s@)),
{
    let mut stamps: Vec<String> = Vec::new();
    let mut i: usize = 0;
    while i < list.len()
        invariant
            i <= list@.len(),
            stamps@.len() == i,
            forall|j: int|
                0 <= j < i && within_four_digit_years(list@[j].due_date) ==> stamp_layout(#[trigger] stamps@[j]@)
                    && is_local_stamp(list@[j].due_date as int, stamps@[j]@),
        decreases list.len() - i,
    {
        stamps.push(format_timestamp(list[i].due_date));
        i += 1;
    }
    proof {
        let sv = stamps@.map_values(|s: String| s@);
        assert forall|j: int| 0 <= j < list@.len() && within_four_digit_years(list@[j].due_date) implies stamp_layout(
            #[trigger] sv[j],
        ) && is_local_stamp(list@[j].due_date as int, sv[j]) by {
            assert(sv[j] == stamps@[j]@);
        }
    }
    stamps
}

/// The upcoming assignments that match the dashboard filter, in order, given how each due
/// date is shown.
pub fn filtered_upcoming_with<'a>(main: &'a MainState, stamps: &Vec<String>) -> (r: Vec<&'a UpcomingAssignment>)
    requires
        stamps@.len() == main.dashboard.upcoming@.len(),
    ensures
        ({
            let picked = upcoming_filter(
                main.dashboard.upcoming@,
                lowercase(trim(main.dashboard_search_query@)),
                stamps@.map_values(|s: String| s@),
            );
            &&& r@.len() == picked.len()
            &&& forall|k: int| 0 <= k < r@.len() ==> *r@[k] == main.dashboard.upcoming@[#[trigger] picked[k]]
        }),
{
    let list = &main.dashboard.upcoming;
    let picked = filter_upcoming_with(list, main.dashboard_search_query.as_str(), stamps);
    let ghost sv = stamps@.map_values(|s: String| s@);
    let ghost pv = picked@.map_values(|x: usize| x as int);
    proof {
        lemma_upcoming_filter_bounds(list@, lowercase(trim(main.dashboard_search_query@)), sv);
    }
    let mut out: Vec<&UpcomingAssignment> = Vec::new();
    let mut k: usize = 0;
    while k < picked.len()
        invariant
            k <= picked@.len(),
            pv == picked@.map_values(|x: usize| x as int),
            pv == upcoming_filter(list@, lowercase(trim(main.dashboard_search_query@)), sv),
            forall|j: int| 0 <= j < pv.len() ==> 0 <= #[trigger] pv[j] < list@.len(),
            out@.len() == k,
            forall|j: int| 0 <= j < k ==> *out@[j] == list@[#[trigger] pv[j]],
        decreases picked@.len() - k,
    {
        assert(pv[k as int] == picked@[k as int] as int);
        out.push(&list[picked[k]]);
        k += 1;
    }
    out
}

/// The upcoming assignments that match the dashboard filter, in order, each due date shown
/// as `format_timestamp` writes it in the machine's time zone.
pub fn filtered_upcoming(main: &MainState) -> (r: Vec<&UpcomingAssignment>)
    ensures
        exists|stamps: Seq<Seq<char>>|
            #![trigger upcoming_filter(main.dashboard.upcoming@, lowercase(trim(main.dashboard_search_query@)), stamps)]
            {
                let picked = upcoming_filter(
                    main.dashboard.upcoming@,
                    lowercase(trim(main.dashboard_search_query@)),
                    stamps,
                );
                &&& shown_due_dates(main.dashboard.upcoming@, stamps)
                &&& r@.len() == picked.len()
                &&& forall|k: int| 0 <= k < r@.len() ==> *r@[k] == main.dashboard.upcoming@[#[trigger] picked[k]]
            },
{
    let stamps = due_date_stamps(&main.dashboard.upcoming);
    filtered_upcoming_with(main, &stamps)
}

proof fn lemma_upcoming_filter_bounds(list: Seq<UpcomingAssignment>, query: Seq<char>, stamps: Seq<Seq<char>>)
    ensures
        forall|j: int| 0 <= j < upcoming_filter(list, query, stamps).len() ==> 0 <= #[trigger] upcoming_filter(
            list,
            query,
            stamps,
        )[j] < list.len(),
    decreases list.len(),
{
    if list.len() > 0 {
        lemma_upcoming_filter_bounds(list.drop_last(), query, stamps);
        let rest = upcoming_filter(list.drop_last(), query, stamps);
        let all = upcoming_filter(list, query, stamps);
        assert forall|j: int| 0 <= j < all.len() implies 0 <= #[trigger] all[j] < list.len() by {
            if j < rest.len() {
                assert(all[j] == rest[j]);
            }
        }
    }
}


/// What the course column of an upcoming row shows: the course's short name, else its full
/// name, else `?`.
pub open spec fn course_label(a: UpcomingAssignment) -> Seq<char> {
    match opt_view(a.course_short_name) {
        Some(s) => s,
        None => match opt_view(a.course_full_name) {
            Some(f) => f,
            None => "?"@,
        },
    }
}

/// An upcoming row: the shown due date, two spaces, the course padded to 14 characters,
/// two spaces, the assignment's name.
pub open spec fn upcoming_row_text(stamp: Seq<char>, a: UpcomingAssignment) -> Seq<char> {
    stamp + "  "@ + padded(course_label(a), 14) + "  "@ + a.name@
}

/// The widest of the upcoming rows at `picked`, 0 when there are none.
pub open spec fn upcoming_widest(list: Seq<UpcomingAssignment>, picked: Seq<int>, stamps: Seq<Seq<char>>) -> int
    decreases picked.len(),
{
    if picked.len() == 0 {
        0
    } else {
        let i = picked.last();
        wider(upcoming_widest(list, picked.drop_last(), stamps), str_width(upcoming_row_text(stamps[i], list[i])) as int)
    }
}

/// How wide the upcoming pane's content is, given how each due date is shown: its widest
/// row, or the placeholder line when the filter leaves none.
pub open spec fn upcoming_content_width(main: MainState, stamps: Seq<Seq<char>>) -> int {
    let picked = upcoming_filter(main.dashboard.upcoming@, lowercase(trim(main.dashboard_search_query@)), stamps);
    if picked.len() == 0 {
        str_width("No upcoming assignments"@) as int
    } else {
        upcoming_widest(main.dashboard.upcoming@, picked, stamps)
    }
}

/// The columns a course row takes: the short name padded to 10 characters, a space, the
/// full name.
pub open spec fn course_row_width_spec(c: Course) -> int {
    capped(str_width(padded(c.shortname@, 10)) + 1 + str_width(c.fullname@))
}

/// The widest of the course rows, 0 when there are none.
pub open spec fn courses_widest(cs: Seq<Course>) -> int
    decreases cs.len(),
{
    if cs.len() == 0 {
        0
    } else {
        wider(courses_widest(cs.drop_last()), course_row_width_spec(cs.last()))
    }
}

/// The columns the row of `course` takes in the course pane.
pub fn course_row_width(course: &Course) -> (r: usize)
    ensures
        r == course_row_width_spec(*course),
{
    let cell = pad_right(course.shortname.as_str(), 10);
    display_width(cell.as_str()).saturating_add(1).saturating_add(display_width(course.fullname.as_str()))
}

fn course_label_text(a: &UpcomingAssignment) -> (r: &str)
    ensures
        r@ == course_label(*a),
{
    match &a.course_short_name {
        Some(s) => s.as_str(),
        None => match &a.course_full_name {
            Some(f) => f.as_str(),
            None => "?",
        },
    }
}

fn upcoming_row_width(stamp: &str, a: &UpcomingAssignment) -> (r: usize)
    ensures
        r == str_width(upcoming_row_text(stamp@, *a)),
{
    let mut t = String::new();
    push_str(&mut t, stamp);
    push_str(&mut t, "  ");
    let cell = pad_right(course_label_text(a), 14);
    push_str(&mut t, cell.as_str());
    push_str(&mut t, "  ");
    push_str(&mut t, a.name.as_str());
    assert(t@ =~= upcoming_row_text(stamp@, *a));
    display_width(t.as_str())
}

/// How far the upcoming pane can scroll sideways, given how each due date is shown.
pub fn upcoming_max_scroll_with(main: &MainState, stamps: &Vec<String>, pane_width: u16) -> (r: u16)
    requires
        stamps@.len() == main.dashboard.upcoming@.len(),
    ensures
        r == horizontal_max(upcoming_content_width(*main, stamps@.map_values(|s: String| s@)), pane_width as int),
{
    let list = &main.dashboard.upcoming;
    let picked = filter_upcoming_with(list, main.dashboard_search_query.as_str(), stamps);
    let ghost sv = stamps@.map_values(|s: String| s@);
    let ghost pv = picked@.map_values(|x: usize| x as int);
    proof {
        lemma_upcoming_filter_bounds(list@, lowercase(trim(main.dashboard_search_query@)), sv);
    }
    if picked.len() == 0 {
        return horizontal_max_for_width(display_width("No upcoming assignments"), pane_width);
    }
    let mut best: usize = 0;
    let mut k: usize = 0;
    while k < picked.len()
        invariant
            k <= picked@.len(),
            stamps@.len() == list@.len(),
            sv == stamps@.map_values(|s: String| s@),
            pv == picked@.map_values(|x: usize| x as int),
            pv == upcoming_filter(list@, lowercase(trim(main.dashboard_search_query@)), sv),
            forall|j: int| 0 <= j < pv.len() ==> 0 <= #[trigger] pv[j] < list@.len(),
            best == upcoming_widest(list@, pv.take(k as int), sv),
        decreases picked@.len() - k,
    {
        let at = picked[k];
        assert(pv[k as int] == at as int);
        assert(sv[at as int] == stamps@[at as int]@);
        let w = upcoming_row_width(stamps[at].as_str(), &list[at]);
        if w > best {
            best = w;
        }
        assert(pv.take(k + 1).drop_last() =~= pv.take(k as int));
        assert(pv.take(k + 1).last() == at as int);
        k += 1;
    }
    assert(pv.take(pv.len() as int) =~= pv);
    horizontal_max_for_width(best, pane_width)
}

/// How far a dashboard pane `pane_width` columns wide can scroll sideways over what it
/// shows. The course pane shows `shown_courses`, the courses the dashboard filter ranks;
/// the upcoming pane shows the assignments the filter keeps, each due date as
/// `format_timestamp` writes it in the machine's time zone.
pub fn max_horizontal_scroll(
    main: &MainState,
    pane: DashboardPane,
    pane_width: u16,
    shown_courses: &Vec<&Course>,
) -> (r: u16)
    ensures
        match pane {
            DashboardPane::Courses => r == horizontal_max(
                courses_widest(shown_courses@.map_values(|c: &Course| *c)),
                pane_width as int,
            ),
            DashboardPane::Upcoming => exists|stamps: Seq<Seq<char>>|
                #![trigger upcoming_content_width(*main, stamps)]
                shown_due_dates(main.dashboard.upcoming@, stamps) && r == horizontal_max(
                    upcoming_content_width(*main, stamps),
                    pane_width as int,
                ),
        },
{
    match pane {
        DashboardPane::Courses => {
            let ghost cs = shown_courses@.map_values(|c: &Course| *c);
            let mut best: usize = 0;
            let mut i: usize = 0;
            while i < shown_courses.len()
                invariant
                    i <= shown_courses@.len(),
                    cs == shown_courses@.map_values(|c: &Course| *c),
                    best == courses_widest(cs.take(i as int)),
                decreases shown_courses.len() - i,
            {
                let w = course_row_width(shown_courses[i]);
                if w > best {
                    best = w;
                }
                assert(cs.take(i + 1).drop_last() =~= cs.take(i as int));
                i += 1;
            }
            assert(cs.take(cs.len() as int) =~= cs);
            horizontal_max_for_width(best, pane_width)
        },
        DashboardPane::Upcoming => {
            let stamps = due_date_stamps(&main.dashboard.upcoming);
            let r = upcoming_max_scroll_with(main, &stamps, pane_width);
            r
        },
    }
}



/// The text a course name shows, empty when there is none.
pub open spec fn name_or_empty(o: Option<String>) -> Seq<char> {
    match opt_view(o) {
        Some(s) => s,
        None => Seq::empty(),
    }
}

/// The dashboard filter keeps assignment `i` exactly when the lower-cased query is empty or
/// occurs (ignoring case) in the assignment's name, its course's short name, its course's
/// full name or its shown due date; and it lists the kept positions in increasing order.
pub proof fn law_upcoming_filter_keeps_matches(
    list: Seq<UpcomingAssignment>,
    query: Seq<char>,
    stamps: Seq<Seq<char>>,
    i: int,
)
    requires
        0 <= i < list.len(),
    ensures
        upcoming_filter(list, query, stamps).contains(i) <==> {
            ||| query.len() == 0
            ||| contains_seq(lowercase(list[i].name@), query)
            ||| contains_seq(lowercase(name_or_empty(list[i].course_short_name)), query)
            ||| contains_seq(lowercase(name_or_empty(list[i].course_full_name)), query)
            ||| contains_seq(lowercase(stamps[i]), query)
        },
        forall|a: int, b: int|
            0 <= a < b < upcoming_filter(list, query, stamps).len() ==> #[trigger] upcoming_filter(
                list,
                query,
                stamps,
            )[a] < #[trigger] upcoming_filter(list, query, stamps)[b],
    decreases list.len(),
{
    lemma_upcoming_filter_bounds(list, query, stamps);
    let all = upcoming_filter(list, query, stamps);
    let front = list.drop_last();
    let rest = upcoming_filter(front, query, stamps);
    lemma_upcoming_filter_bounds(front, query, stamps);
    if i < list.len() - 1 {
        law_upcoming_filter_keeps_matches(front, query, stamps, i);
        assert(front[i] == list[i]);
        if all.contains(i) {
            let k = choose|k: int| 0 <= k < all.len() && all[k] == i;
            if k < rest.len() {
                assert(all[k] == rest[k]);
            }
        }
        if rest.contains(i) {
            let k = choose|k: int| 0 <= k < rest.len() && rest[k] == i;
            assert(all[k] == rest[k]);
        }
    } else {
        if all.contains(i) {
            let k = choose|k: int| 0 <= k < all.len() && all[k] == i;
            if k < rest.len() {
                assert(all[k] == rest[k]);
                assert(rest[k] < front.len());
            }
        }
        if upcoming_matches(list[i], query, stamps[i]) {
            assert(all[rest.len() as int] == i);
        }
    }
    if list.len() > 1 {
        law_upcoming_filter_keeps_matches(front, query, stamps, 0);
    }
    assert forall|a: int, b: int| 0 <= a < b < all.len() implies #[trigger] all[a] < #[trigger] all[b] by {
        assert(all[a] == rest[a]);
        if b < rest.len() {
            assert(all[b] == rest[b]);
        } else {
            assert(rest[a] < front.len());
        }
    }
}

} // verus!
