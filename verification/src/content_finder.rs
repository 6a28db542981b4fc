//! Targets of the course content finder: all rows, one module type, or one row kind.
use vstd::prelude::*;
use crate::course_tree::{CourseTreeRow, CourseTreeNodeKind, RowView, rows_view};
use crate::models::opt_view;
use crate::text::{
    chars_of, string_of, push_str, push_char, trim, lowercase, to_lowercase, trim_str, trim_bounds,
    seq_lt, chars_lt, chars_eq, chars_eq_str, uppercase_char, char_to_uppercase, is_white_space,
    lemma_seq_lt_trichotomy, lemma_seq_lt_transitive,
};
use crate::html::slice_range;

verus! {

/// How a target selects rows.
#[derive(Debug, Clone, PartialEq, Eq)]
pub enum TargetMode {
    All,
    ModuleType(String),
    RowKind(CourseTreeNodeKind),
}

/// A target of the content finder.
#[derive(Debug, Clone)]
pub struct ContentTarget {
    pub id: String,
    pub label: String,
    pub mode: TargetMode,
}

/// Position of a module type in the preferred order, or past the end for other types.
pub open spec fn type_rank(t: Seq<char>) -> int {
    if t == "assign"@ {
        0
    } else if t == "quiz"@ {
        1
    } else if t == "forum"@ {
        2
    } else if t == "resource"@ {
        3
    } else if t == "page"@ {
        4
    } else if t == "book"@ {
        5
    } else if t == "folder"@ {
        6
    } else if t == "url"@ {
        7
    } else {
        8
    }
}

/// Module types ordered by rank, then by name.
pub open spec fn type_lt(a: Seq<char>, b: Seq<char>) -> bool {
    type_rank(a) < type_rank(b) || (type_rank(a) == type_rank(b) && seq_lt(a, b))
}

/// `_` and `-` read as spaces.
pub open spec fn dashes_to_spaces(s: Seq<char>) -> Seq<char> {
    s.map_values(|c: char| if c == '_' || c == '-' { ' ' } else { c })
}

/// The label of a module type: a fixed plural for known types, else the type with `_`
/// and `-` as spaces, trimmed, first char upper-cased, followed by ` Activities`.
pub open spec fn module_type_label_spec(kind: Seq<char>) -> Seq<char> {
    if kind == "assign"@ {
        "Assignments"@
    } else if kind == "quiz"@ {
        "Quizzes"@
    } else if kind == "forum"@ {
        "Forums"@
    } else if kind == "resource"@ {
        "Resources"@
    } else if kind == "page"@ {
        "Pages"@
    } else if kind == "book"@ {
        "Books"@
    } else if kind == "folder"@ {
        "Folders"@
    } else if kind == "url"@ {
        "Link Activities"@
    } else {
        let n = trim(dashes_to_spaces(kind));
        if n.len() == 0 {
            "Other Activities"@
        } else {
            uppercase_char(n[0]) + n.drop_first() + " Activities"@
        }
    }
}

fn lit(s: &str) -> (r: String)
    ensures
        r@ == s@,
{
    string_of(&chars_of(s))
}

fn type_rank_exec(t: &[char]) -> (r: u8)
    ensures
        r as int == type_rank(t@),
{
    if chars_eq_str(t, "assign") {
        0
    } else if chars_eq_str(t, "quiz") {
        1
    } else if chars_eq_str(t, "forum") {
        2
    } else if chars_eq_str(t, "resource") {
        3
    } else if chars_eq_str(t, "page") {
        4
    } else if chars_eq_str(t, "book") {
        5
    } else if chars_eq_str(t, "folder") {
        6
    } else if chars_eq_str(t, "url") {
        7
    } else {
        8
    }
}

/// The label shown for a module type.
pub fn module_type_label(kind: &str) -> (r: String)
    ensures
        r@ == module_type_label_spec(kind@),
{
    let k = chars_of(kind);
    if chars_eq_str(&k, "assign") {
        return lit("Assignments");
    } else if chars_eq_str(&k, "quiz") {
        return lit("Quizzes");
    } else if chars_eq_str(&k, "forum") {
        return lit("Forums");
    } else if chars_eq_str(&k, "resource") {
        return lit("Resources");
    } else if chars_eq_str(&k, "page") {
        return lit("Pages");
    } else if chars_eq_str(&k, "book") {
        return lit("Books");
    } else if chars_eq_str(&k, "folder") {
        return lit("Folders");
    } else if chars_eq_str(&k, "url") {
        return lit("Link Activities");
    }
    let mut replaced: Vec<char> = Vec::new();
    let mut i: usize = 0;
    while i < k.len()
        invariant
            i <= k@.len(),
            replaced@ == dashes_to_spaces(k@.take(i as int)),
        decreases k.len() - i,
    {
        let c = k[i];
        replaced.push(if c == '_' || c == '-' { ' ' } else { c });
        i += 1;
        assert(replaced@ =~= dashes_to_spaces(k@.take(i as int)));
    }
    assert(k@.take(k@.len() as int) =~= k@);
    let (a, b) = trim_bounds(&replaced);
    if a == b {
        return lit("Other Activities");
    }
    let mut out = char_to_uppercase(replaced[a]);
    let mut j = a + 1;
    while j < b
        invariant
            a < j <= b <= replaced@.len(),
            out@ == uppercase_char(replaced@[a as int]) + replaced@.subrange(a + 1, j as int),
        decreases b - j,
    {
        push_char(&mut out, replaced[j]);
        j += 1;
        assert(out@ =~= uppercase_char(replaced@[a as int]) + replaced@.subrange(a + 1, j as int));
    }
    push_str(&mut out, " Activities");
    proof {
        let n = replaced@.subrange(a as int, b as int);
        assert(n[0] == replaced@[a as int]);
        assert(n.drop_first() =~= replaced@.subrange(a + 1, b as int));
    }
    out
}

/// Adds a type to a list sorted by `type_lt`, keeping it when already there.
pub open spec fn type_insert(types: Seq<Seq<char>>, t: Seq<char>) -> Seq<Seq<char>> {
    let p = type_pos(types, t, 0);
    if p < types.len() && types[p] == t {
        types
    } else {
        types.insert(p, t)
    }
}

/// Where `t` belongs in `types`.
pub open spec fn type_pos(types: Seq<Seq<char>>, t: Seq<char>, i: int) -> int
    decreases types.len() - i,
{
    if i < 0 || i >= types.len() {
        types.len() as int
    } else if type_lt(types[i], t) {
        type_pos(types, t, i + 1)
    } else {
        i
    }
}

/// The module type a row contributes, if any: trimmed and lower-cased, when not empty.
pub open spec fn row_module_type(r: RowView) -> Option<Seq<char>> {
    if r.kind == CourseTreeNodeKind::Module && r.module_type is Some && lowercase(
        trim(r.module_type->0),
    ).len() > 0 {
        Some(lowercase(trim(r.module_type->0)))
    } else {
        None
    }
}

/// The distinct module types of `rows`, in the preferred order.
pub open spec fn module_types(rows: Seq<RowView>) -> Seq<Seq<char>>
    decreases rows.len(),
{
    if rows.len() == 0 {
        Seq::empty()
    } else {
        let rest = module_types(rows.drop_last());
        match row_module_type(rows.last()) {
            Some(t) => type_insert(rest, t),
            None => rest,
        }
    }
}

/// The view of a target: id, label and mode.
pub struct TargetView {
    pub id: Seq<char>,
    pub label: Seq<char>,
    pub all: bool,
    pub module_type: Option<Seq<char>>,
    pub row_kind: Option<CourseTreeNodeKind>,
}

/// The view of a target.
pub open spec fn target_view(t: ContentTarget) -> TargetView {
    TargetView {
        id: t.id@,
        label: t.label@,
        all: t.mode is All,
        module_type: match t.mode {
            TargetMode::ModuleType(m) => Some(m@),
            _ => None,
        },
        row_kind: match t.mode {
            TargetMode::RowKind(k) => Some(k),
            _ => None,
        },
    }
}

/// A target that selects one row kind.
pub open spec fn kind_target(id: Seq<char>, label: Seq<char>, k: CourseTreeNodeKind) -> TargetView {
    TargetView { id, label, all: false, module_type: None, row_kind: Some(k) }
}

/// The targets: all rows, one per module type present, then the six row kinds.
pub open spec fn targets_spec(rows: Seq<RowView>) -> Seq<TargetView> {
    seq![TargetView { id: "all"@, label: "All"@, all: true, module_type: None, row_kind: None }]
        + module_types(rows).map_values(
        |t: Seq<char>|
            TargetView {
                id: "module-type:"@ + t,
                label: module_type_label_spec(t),
                all: false,
                module_type: Some(t),
                row_kind: None,
            },
    ) + seq![
        kind_target("kind:section"@, "Sections"@, CourseTreeNodeKind::Section),
        kind_target("kind:label"@, "Labels"@, CourseTreeNodeKind::Label),
        kind_target("kind:content-item"@, "Files & Items"@, CourseTreeNodeKind::ContentItem),
        kind_target("kind:module-url"@, "URLs"@, CourseTreeNodeKind::ModuleUrl),
        kind_target("kind:module-description"@, "Descriptions"@, CourseTreeNodeKind::ModuleDescription),
        kind_target("kind:summary"@, "Summaries"@, CourseTreeNodeKind::Summary),
    ]
}

fn type_lt_exec(a: &[char], b: &[char]) -> (r: bool)
    ensures
        r == type_lt(a@, b@),
{
    let ra = type_rank_exec(a);
    let rb = type_rank_exec(b);
    ra < rb || (ra == rb && chars_lt(a, b))
}

/// The view of a list of strings.
pub open spec fn strs_view(v: Seq<String>) -> Seq<Seq<char>> {
    v.map_values(|s: String| s@)
}

fn type_insert_exec(types: &mut Vec<String>, t: String)
    ensures
        strs_view(final(types)@) == type_insert(strs_view(old(types)@), t@),
{
    let ghost g = strs_view(types@);
    let tc = chars_of(t.as_str());
    let mut p: usize = 0;
    while p < types.len() && type_lt_exec(&chars_of(types[p].as_str()), &tc)
        invariant
            p <= types@.len(),
            g == strs_view(types@),
            tc@ == t@,
            type_pos(g, t@, 0) == type_pos(g, t@, p as int),
        decreases types.len() - p,
    {
        p += 1;
    }
    if p < types.len() && chars_eq(&chars_of(types[p].as_str()), &tc) {
        return;
    }
    types.insert(p, t);
    assert(strs_view(types@) =~= g.insert(p as int, t@));
}

fn target(id: String, label: String, mode: TargetMode) -> (r: ContentTarget)
    ensures
        r.id == id,
        r.label == label,
        r.mode == mode,
{
    ContentTarget { id, label, mode }
}

/// The finder targets for the rows of a course tree.
pub fn build_targets(rows: &[CourseTreeRow]) -> (r: Vec<ContentTarget>)
    ensures
        r@.map_values(|t: ContentTarget| target_view(t)) == targets_spec(rows_view(rows@)),
{
    let ghost rv = rows_view(rows@);
    let mut types: Vec<String> = Vec::new();
    let mut i: usize = 0;
    while i < rows.len()
        invariant
            i <= rows@.len(),
            rv == rows_view(rows@),
            strs_view(types@) == module_types(rv.take(i as int)),
        decreases rows.len() - i,
    {
        assert(rv.take(i + 1).drop_last() =~= rv.take(i as int));
        let row = &rows[i];
        if row.kind == CourseTreeNodeKind::Module {
            match &row.module_type {
                Some(t) => {
                    let trimmed = trim_str(t.as_str());
                    let lower = to_lowercase(trimmed.as_str());
                    if !lower.as_str().is_empty() {
                        type_insert_exec(&mut types, lower);
                    }
                },
                None => {},
            }
        }
        i += 1;
    }
    assert(rv.take(rv.len() as int) =~= rv);
    let ghost tv = module_types(rv);
    let mut out: Vec<ContentTarget> = Vec::new();
    out.push(target(lit("all"), lit("All"), TargetMode::All));
    let mut j: usize = 0;
    while j < types.len()
        invariant
            j <= types@.len(),
            strs_view(types@) == tv,
            out@.map_values(|t: ContentTarget| target_view(t)) == seq![
                TargetView { id: "all"@, label: "All"@, all: true, module_type: None, row_kind: None },
            ] + tv.take(j as int).map_values(
                |t: Seq<char>|
                    TargetView {
                        id: "module-type:"@ + t,
                        label: module_type_label_spec(t),
                        all: false,
                        module_type: Some(t),
                        row_kind: None,
                    },
            ),
        decreases types.len() - j,
    {
        let kind = &types[j];
        let mut id = lit("module-type:");
        push_str(&mut id, kind.as_str());
        let t = target(id, module_type_label(kind.as_str()), TargetMode::ModuleType(kind.clone()));
        let ghost before = out@.map_values(|t: ContentTarget| target_view(t));
        out.push(t);
        assert(out@.map_values(|t: ContentTarget| target_view(t)) =~= before.push(target_view(t)));
        j += 1;
        assert(tv.take(j as int) =~= tv.take(j - 1).push(tv[j - 1]));
        assert(out@.map_values(|t: ContentTarget| target_view(t)) =~= seq![
            TargetView { id: "all"@, label: "All"@, all: true, module_type: None, row_kind: None },
        ] + tv.take(j as int).map_values(
            |t: Seq<char>|
                TargetView {
                    id: "module-type:"@ + t,
                    label: module_type_label_spec(t),
                    all: false,
                    module_type: Some(t),
                    row_kind: None,
                },
        ));
    }
    assert(tv.take(tv.len() as int) =~= tv);
    let ghost mid = out@.map_values(|t: ContentTarget| target_view(t));
    out.push(target(lit("kind:section"), lit("Sections"), TargetMode::RowKind(CourseTreeNodeKind::Section)));
    out.push(target(lit("kind:label"), lit("Labels"), TargetMode::RowKind(CourseTreeNodeKind::Label)));
    out.push(target(lit("kind:content-item"), lit("Files & Items"), TargetMode::RowKind(CourseTreeNodeKind::ContentItem)));
    out.push(target(lit("kind:module-url"), lit("URLs"), TargetMode::RowKind(CourseTreeNodeKind::ModuleUrl)));
    out.push(target(lit("kind:module-description"), lit("Descriptions"), TargetMode::RowKind(CourseTreeNodeKind::ModuleDescription)));
    out.push(target(lit("kind:summary"), lit("Summaries"), TargetMode::RowKind(CourseTreeNodeKind::Summary)));
    assert(out@.map_values(|t: ContentTarget| target_view(t)) =~= targets_spec(rv));
    out
}

/// Whether a row belongs to a target.
pub open spec fn row_matches(r: RowView, t: TargetView) -> bool {
    if t.all {
        true
    } else if t.module_type is Some {
        r.kind == CourseTreeNodeKind::Module && r.module_type is Some && lowercase(trim(r.module_type->0)) == t.module_type->0
    } else if t.row_kind is Some {
        r.kind == t.row_kind->0
    } else {
        false
    }
}

/// The rows (as positions) that a target selects, in order.
pub open spec fn filter_spec(rows: Seq<RowView>, t: TargetView) -> Seq<int>
    decreases rows.len(),
{
    if rows.len() == 0 {
        Seq::empty()
    } else {
        let rest = filter_spec(rows.drop_last(), t);
        if row_matches(rows.last(), t) {
            rest.push(rows.len() - 1)
        } else {
            rest
        }
    }
}

/// Whether a row belongs to a target.
pub fn row_in_target(row: &CourseTreeRow, target: &ContentTarget) -> (r: bool)
    ensures
        r == row_matches(row@, target_view(*target)),
{
    match &target.mode {
        TargetMode::All => true,
        TargetMode::ModuleType(t) => {
            row.kind == CourseTreeNodeKind::Module && match &row.module_type {
                Some(m) => {
                    let l = to_lowercase(trim_str(m.as_str()).as_str());
                    chars_eq(&chars_of(l.as_str()), &chars_of(t.as_str()))
                },
                None => false,
            }
        },
        TargetMode::RowKind(k) => row.kind == *k,
    }
}

/// The positions of the rows that belong to a target, in order.
pub fn filter_positions(rows: &[CourseTreeRow], target: &ContentTarget) -> (r: Vec<usize>)
    ensures
        r@.map_values(|x: usize| x as int) == filter_spec(rows_view(rows@), target_view(*target)),
        forall|k: int| 0 <= k < r@.len() ==> r@[k] < rows@.len(),
{
    let ghost rv = rows_view(rows@);
    let ghost tv = target_view(*target);
    let mut out: Vec<usize> = Vec::new();
    let mut i: usize = 0;
    while i < rows.len()
        invariant
            i <= rows@.len(),
            rv == rows_view(rows@),
            tv == target_view(*target),
            out@.map_values(|x: usize| x as int) == filter_spec(rv.take(i as int), tv),
            forall|k: int| 0 <= k < out@.len() ==> out@[k] < i,
        decreases rows.len() - i,
    {
        assert(rv.take(i + 1).drop_last() =~= rv.take(i as int));
        assert(rv.take(i + 1).last() == rows@[i as int]@);
        let keep = row_in_target(&rows[i], target);
        let ghost before = out@.map_values(|x: usize| x as int);
        if keep {
            out.push(i);
            assert(out@.map_values(|x: usize| x as int) =~= before.push(i as int));
        }
        i += 1;
    }
    assert(rv.take(rv.len() as int) =~= rv);
    out
}

/// The rows that belong to a target, in order.
pub fn filter_by_target<'a>(rows: &'a [CourseTreeRow], target: &ContentTarget) -> (r: Vec<&'a CourseTreeRow>)
    ensures
        r@.len() == filter_spec(rows_view(rows@), target_view(*target)).len(),
        forall|k: int| 0 <= k < r@.len() ==> *r@[k] == rows@[filter_spec(rows_view(rows@), target_view(*target))[k]],
{
    let ghost fs = filter_spec(rows_view(rows@), target_view(*target));
    let positions = filter_positions(rows, target);
    assert(positions@.map_values(|x: usize| x as int).len() == positions@.len());
    let mut out: Vec<&'a CourseTreeRow> = Vec::new();
    let mut k: usize = 0;
    while k < positions.len()
        invariant
            k <= positions@.len(),
            positions@.map_values(|x: usize| x as int) == fs,
            fs == filter_spec(rows_view(rows@), target_view(*target)),
            forall|j: int| 0 <= j < positions@.len() ==> positions@[j] < rows@.len(),
            out@.len() == k,
            forall|j: int| 0 <= j < k ==> *out@[j] == rows@[fs[j]],
        decreases positions@.len() - k,
    {
        assert(fs[k as int] == positions@[k as int] as int);
        out.push(&rows[positions[k]]);
        k += 1;
    }
    out
}

/// Moves `current` (taken as an `isize`, as `as isize` does) by `delta` around a ring of
/// `len` positions.
pub fn cycle(current: usize, delta: isize, len: usize) -> (r: usize)
    requires
        len > 0 ==> len <= isize::MAX,
        len > 0 ==> isize::MIN <= (current as isize) + delta <= isize::MAX,
    ensures
        len == 0 ==> r == 0,
        len > 0 ==> r == ((current as isize) + delta) % (len as int),
{
    if len == 0 {
        return 0;
    }
    let c: isize = #[verifier::truncate] (current as isize);
    let x: i128 = c as i128 + delta as i128;
    let l: i128 = len as i128;
    let m: i128 = if x >= 0 {
        x % l
    } else {
        let n = (-x) % l;
        if n == 0 {
            0
        } else {
            l - n
        }
    };
    proof {
        if x < 0 {
            let xi: int = x as int;
            let li: int = l as int;
            let ni: int = (-xi) % li;
            let qi: int = (-xi) / li;
            vstd::arithmetic::div_mod::lemma_fundamental_div_mod(-xi, li);
            assert(-xi == li * qi + ni);
            if ni == 0 {
                assert(xi == (-qi) * li + 0) by (nonlinear_arith)
                    requires -xi == li * qi + ni, ni == 0;
                vstd::arithmetic::div_mod::lemma_fundamental_div_mod_converse(xi, li, -qi, 0);
            } else {
                assert(xi == (-qi - 1) * li + (li - ni)) by (nonlinear_arith)
                    requires -xi == li * qi + ni;
                vstd::arithmetic::div_mod::lemma_fundamental_div_mod_converse(xi, li, -qi - 1, li - ni);
            }
        }
    }
    m as usize
}


proof fn lemma_filter_positions(rows: Seq<RowView>, t: TargetView, i: int)
    requires
        0 <= i < rows.len(),
    ensures
        filter_spec(rows, t).contains(i) <==> row_matches(rows[i], t),
        forall|k: int| 0 <= k < filter_spec(rows, t).len() ==> 0 <= #[trigger] filter_spec(rows, t)[k] < rows.len(),
    decreases rows.len(),
{
    let rest = filter_spec(rows.drop_last(), t);
    let all = filter_spec(rows, t);
    if i < rows.len() - 1 {
        lemma_filter_positions(rows.drop_last(), t, i);
        assert(rows.drop_last()[i] == rows[i]);
        if all.contains(i) {
            let k = choose|k: int| 0 <= k < all.len() && all[k] == i;
            if k < rest.len() {
                assert(all[k] == rest[k]);
            }
        }
        if rest.contains(i) {
            let k = choose|k: int| 0 <= k < rest.len() && rest[k] == i;
            assert(all[k] == rest[k]);
        }
    } else {
        if rows.len() > 1 {
            lemma_filter_positions(rows.drop_last(), t, 0);
        }
        if all.contains(i) {
            let k = choose|k: int| 0 <= k < all.len() && all[k] == i;
            if k < rest.len() {
                assert(all[k] == rest[k]);
                if rows.len() > 1 {
                    assert(0 <= rest[k] < rows.len() - 1);
                }
            }
        }
        if row_matches(rows[i], t) {
            assert(all[rest.len() as int] == i);
        }
    }
    if rows.len() > 1 {
        lemma_filter_positions(rows.drop_last(), t, 0);
    }
    assert forall|k: int| 0 <= k < all.len() implies 0 <= #[trigger] all[k] < rows.len() by {
        if k < rest.len() {
            assert(all[k] == rest[k]);
        }
    }
}

/// The rows a module-type target selects are exactly the module rows whose type, trimmed
/// and lower-cased, is that type: no row of another kind or another type is listed, and
/// none of that type is missed.
pub proof fn law_module_type_target_selects_its_type(
    rows: Seq<RowView>,
    target: ContentTarget,
    module_type: Seq<char>,
    i: int,
)
    requires
        target.mode matches TargetMode::ModuleType(m) && m@ == module_type,
        0 <= i < rows.len(),
    ensures
        filter_spec(rows, target_view(target)).contains(i) <==> {
            &&& rows[i].kind == CourseTreeNodeKind::Module
            &&& rows[i].module_type matches Some(mt) && lowercase(trim(mt)) == module_type
        },
{
    lemma_filter_positions(rows, target_view(target), i);
}

/// The positions a target selects are rows of the list, in increasing order.
pub proof fn law_target_positions_ascend(rows: Seq<RowView>, t: TargetView)
    ensures
        forall|a: int, b: int|
            0 <= a < b < filter_spec(rows, t).len() ==> #[trigger] filter_spec(rows, t)[a] < #[trigger] filter_spec(
                rows,
                t,
            )[b],
        forall|k: int| 0 <= k < filter_spec(rows, t).len() ==> 0 <= #[trigger] filter_spec(rows, t)[k] < rows.len(),
    decreases rows.len(),
{
    if rows.len() > 0 {
        law_target_positions_ascend(rows.drop_last(), t);
        let rest = filter_spec(rows.drop_last(), t);
        let all = filter_spec(rows, t);
        assert forall|a: int, b: int| 0 <= a < b < all.len() implies #[trigger] all[a] < #[trigger] all[b] by {
            assert(all[a] == rest[a]);
            if b < rest.len() {
                assert(all[b] == rest[b]);
            }
        }
        assert forall|k: int| 0 <= k < all.len() implies 0 <= #[trigger] all[k] < rows.len() by {
            if k < rest.len() {
                assert(all[k] == rest[k]);
            }
        }
    }
}


/// A row-kind target selects exactly the rows of that kind, and the target of everything
/// selects every row.
pub proof fn law_kind_and_all_targets(rows: Seq<RowView>, target: ContentTarget, i: int)
    requires
        0 <= i < rows.len(),
    ensures
        target.mode is All ==> filter_spec(rows, target_view(target)).contains(i),
        target.mode matches TargetMode::RowKind(k) ==> (filter_spec(rows, target_view(target)).contains(i)
            <==> rows[i].kind == k),
{
    lemma_filter_positions(rows, target_view(target), i);
}

} // verus!
