//! How the rows of a course page hang together: every row below the top sits under an
//! earlier, expanded row one level up, and a row is expanded exactly when it can be and
//! was not collapsed.
use vstd::prelude::*;
use crate::course_tree::{
    contents_rows, course_tree, empty_tree_row, module_node_id, module_rows, modules_rows, nonempty_opt,
    normalized_type, opt_html_text, section_node_id, section_rows, sections_rows, RowView,
};
use crate::models::{opt_view, CourseModule, CourseSection, ModuleContentItem};

verus! {

/// Row `i` of `rows` is at the top level when it has no parent, and otherwise comes after
/// its parent: an expanded row, one level up, with the parent's id.
pub open spec fn parent_before(rows: Seq<RowView>, i: int) -> bool {
    match rows[i].parent_id {
        None => rows[i].depth == 0,
        Some(p) => exists|j: int|
            0 <= j < i && #[trigger] rows[j].id == p && rows[j].depth + 1 == rows[i].depth && rows[j].expanded,
    }
}

/// A row is expanded exactly when it is collapsible and its id is not among the collapsed.
pub open spec fn expansion_follows(r: RowView, collapsed: Seq<Seq<char>>) -> bool {
    r.expanded == (r.collapsible && !collapsed.contains(r.id))
}

/// Row `i` hangs together with the rows before it.
pub open spec fn row_fits(rows: Seq<RowView>, i: int, collapsed: Seq<Seq<char>>) -> bool {
    parent_before(rows, i) && expansion_follows(rows[i], collapsed)
}

/// Rows `from` up to `to` of `rows` all hang together.
pub open spec fn rows_fit(rows: Seq<RowView>, from: int, to: int, collapsed: Seq<Seq<char>>) -> bool {
    forall|i: int| from <= i < to ==> #[trigger] row_fits(rows, i, collapsed)
}

/// `rows` has, before position `end`, an expanded row with id `id` at depth `depth`.
pub open spec fn has_open_row(rows: Seq<RowView>, end: int, id: Seq<char>, depth: int) -> bool {
    exists|k: int| 0 <= k < end && #[trigger] rows[k].id == id && rows[k].depth == depth && rows[k].expanded
}

proof fn lemma_fits_extend(rows: Seq<RowView>, more: Seq<RowView>, from: int, collapsed: Seq<Seq<char>>)
    requires
        0 <= from,
        rows_fit(rows, from, rows.len() as int, collapsed),
    ensures
        rows_fit(rows + more, from, rows.len() as int, collapsed),
{
    let all = rows + more;
    assert forall|i: int| from <= i < rows.len() implies #[trigger] row_fits(all, i, collapsed) by {
        assert(row_fits(rows, i, collapsed));
        assert(all[i] == rows[i]);
        if let Some(p) = rows[i].parent_id {
            let j = choose|j: int|
                0 <= j < i && #[trigger] rows[j].id == p && rows[j].depth + 1 == rows[i].depth && rows[j].expanded;
            assert(all[j] == rows[j]);
        }
    }
}

proof fn lemma_open_row_extend(rows: Seq<RowView>, more: Seq<RowView>, end: int, id: Seq<char>, depth: int)
    requires
        end <= rows.len(),
        has_open_row(rows, end, id, depth),
    ensures
        has_open_row(rows + more, (rows.len() + more.len()) as int, id, depth),
{
    let k = choose|k: int| 0 <= k < end && #[trigger] rows[k].id == id && rows[k].depth == depth && rows[k].expanded;
    assert((rows + more)[k] == rows[k]);
}

proof fn lemma_fits_join(rows: Seq<RowView>, a: int, b: int, c: int, collapsed: Seq<Seq<char>>)
    requires
        rows_fit(rows, a, b, collapsed),
        rows_fit(rows, b, c, collapsed),
    ensures
        rows_fit(rows, a, c, collapsed),
{
    assert forall|i: int| a <= i < c implies #[trigger] row_fits(rows, i, collapsed) by {
        if i < b {
            assert(row_fits(rows, i, collapsed));
        } else {
            assert(row_fits(rows, i, collapsed));
        }
    }
}

/// Content rows all sit at depth 2 under `parent` and are never collapsible.
proof fn lemma_contents_shape(
    section_id: int,
    module_id: int,
    cs: Seq<ModuleContentItem>,
    modname: Seq<char>,
    parent: Seq<char>,
)
    ensures
        contents_rows(section_id, module_id, cs, modname, parent).len() == cs.len(),
        forall|t: int| 0 <= t < cs.len() ==> {
            let r = #[trigger] contents_rows(section_id, module_id, cs, modname, parent)[t];
            r.parent_id == Some(parent) && r.depth == 2 && !r.collapsible && !r.expanded
        },
    decreases cs.len(),
{
    if cs.len() > 0 {
        lemma_contents_shape(section_id, module_id, cs.drop_last(), modname, parent);
        let rest = contents_rows(section_id, module_id, cs.drop_last(), modname, parent);
        let all = contents_rows(section_id, module_id, cs, modname, parent);
        assert forall|t: int| 0 <= t < cs.len() implies {
            let r = #[trigger] all[t];
            r.parent_id == Some(parent) && r.depth == 2 && !r.collapsible && !r.expanded
        } by {
            if t < rest.len() {
                assert(all[t] == rest[t]);
            }
        }
    }
}

/// Rows one level below an open row `parent` at depth `pdepth`, never collapsible, fit after
/// `ctx` when `ctx` holds that open row.
proof fn lemma_children_fit(
    ctx: Seq<RowView>,
    kids: Seq<RowView>,
    parent: Seq<char>,
    pdepth: int,
    collapsed: Seq<Seq<char>>,
)
    requires
        has_open_row(ctx, ctx.len() as int, parent, pdepth),
        forall|t: int| 0 <= t < kids.len() ==> {
            let r = #[trigger] kids[t];
            r.parent_id == Some(parent) && r.depth == pdepth + 1 && !r.collapsible && !r.expanded
        },
    ensures
        rows_fit(ctx + kids, ctx.len() as int, (ctx.len() + kids.len()) as int, collapsed),
{
    let all = ctx + kids;
    let k = choose|k: int| 0 <= k < ctx.len() && #[trigger] ctx[k].id == parent && ctx[k].depth == pdepth && ctx[k].expanded;
    assert forall|i: int| ctx.len() <= i < ctx.len() + kids.len() implies #[trigger] row_fits(all, i, collapsed) by {
        let r = kids[i - ctx.len()];
        assert(all[i] == r);
        assert(all[k] == ctx[k]);
        assert(all[k].id == parent);
    }
}


/// The rows of one module fit after `ctx` when `ctx` holds its section's open header.
proof fn lemma_module_fits(
    ctx: Seq<RowView>,
    section_id: int,
    sid: Seq<char>,
    m: CourseModule,
    collapsed: Seq<Seq<char>>,
)
    requires
        has_open_row(ctx, ctx.len() as int, sid, 0),
    ensures
        rows_fit(
            ctx + module_rows(section_id, sid, m, collapsed),
            ctx.len() as int,
            (ctx.len() + module_rows(section_id, sid, m, collapsed).len()) as int,
            collapsed,
        ),
{
    let b = module_rows(section_id, sid, m, collapsed);
    let k = choose|k: int| 0 <= k < ctx.len() && #[trigger] ctx[k].id == sid && ctx[k].depth == 0 && ctx[k].expanded;
    let modname = normalized_type(opt_view(m.modname));
    let mid = module_node_id(section_id, m.id as int);
    let head_ctx = ctx + b.take(1);
    // The first row (a label, or the module's header) sits under the section.
    assert(b.len() >= 1);
    assert forall|i: int| ctx.len() <= i < ctx.len() + 1 implies #[trigger] row_fits(head_ctx, i, collapsed) by {
        assert(head_ctx[i] == b[0]);
        assert(head_ctx[k] == ctx[k]);
    }
    if modname == "label"@ || collapsed.contains(mid) {
        assert(b.take(1) =~= b);
    } else {
        let d = opt_html_text(opt_view(m.description));
        let head = b[0];
        assert(head.id == mid && head.depth == 1 && head.expanded);
        let kids = b.skip(1);
        lemma_contents_shape(section_id, m.id as int, m.contents@, modname, mid);
        assert forall|t: int| 0 <= t < kids.len() implies {
            let r = #[trigger] kids[t];
            r.parent_id == Some(mid) && r.depth == 2 && !r.collapsible && !r.expanded
        } by {
            let d_len: int = if d.len() > 0 { 1 } else { 0 };
            let u_len: int = if nonempty_opt(opt_view(m.url)) is Some { 1 } else { 0 };
            if t >= d_len + u_len {
                let cs = contents_rows(section_id, m.id as int, m.contents@, modname, mid);
                assert(kids[t] == cs[t - d_len - u_len]);
            }
        }
        assert(has_open_row(head_ctx, head_ctx.len() as int, mid, 1)) by {
            assert(head_ctx[ctx.len() as int] == head);
        }
        lemma_children_fit(head_ctx, kids, mid, 1, collapsed);
        lemma_fits_extend(head_ctx, kids, ctx.len() as int, collapsed);
        assert(head_ctx + kids =~= ctx + b);
    }
}


/// The rows of a section's modules fit after `ctx` when `ctx` holds the section's open
/// header.
proof fn lemma_modules_fit(
    ctx: Seq<RowView>,
    section_id: int,
    sid: Seq<char>,
    ms: Seq<CourseModule>,
    collapsed: Seq<Seq<char>>,
)
    requires
        has_open_row(ctx, ctx.len() as int, sid, 0),
    ensures
        rows_fit(
            ctx + modules_rows(section_id, sid, ms, collapsed),
            ctx.len() as int,
            (ctx.len() + modules_rows(section_id, sid, ms, collapsed).len()) as int,
            collapsed,
        ),
    decreases ms.len(),
{
    if ms.len() > 0 {
        let a = modules_rows(section_id, sid, ms.drop_last(), collapsed);
        let b = module_rows(section_id, sid, ms.last(), collapsed);
        lemma_modules_fit(ctx, section_id, sid, ms.drop_last(), collapsed);
        lemma_open_row_extend(ctx, a, ctx.len() as int, sid, 0);
        lemma_module_fits(ctx + a, section_id, sid, ms.last(), collapsed);
        lemma_fits_extend(ctx + a, b, ctx.len() as int, collapsed);
        assert(ctx + a + b =~= ctx + modules_rows(section_id, sid, ms, collapsed));
        lemma_fits_join(
            ctx + a + b,
            ctx.len() as int,
            (ctx.len() + a.len()) as int,
            (ctx.len() + a.len() + b.len()) as int,
            collapsed,
        );
    }
}

/// The rows of one section fit after any rows.
proof fn lemma_section_fits(ctx: Seq<RowView>, index: int, s: CourseSection, collapsed: Seq<Seq<char>>)
    ensures
        rows_fit(
            ctx + section_rows(index, s, collapsed),
            ctx.len() as int,
            (ctx.len() + section_rows(index, s, collapsed).len()) as int,
            collapsed,
        ),
{
    let b = section_rows(index, s, collapsed);
    let sid = section_node_id(s.id as int);
    let head_ctx = ctx + b.take(1);
    assert(b.len() >= 1);
    assert forall|i: int| ctx.len() <= i < ctx.len() + 1 implies #[trigger] row_fits(head_ctx, i, collapsed) by {
        assert(head_ctx[i] == b[0]);
    }
    if collapsed.contains(sid) {
        assert(b.take(1) =~= b);
    } else {
        assert(b[0].id == sid && b[0].depth == 0 && b[0].expanded);
        assert(has_open_row(head_ctx, head_ctx.len() as int, sid, 0)) by {
            assert(head_ctx[ctx.len() as int] == b[0]);
        }
        let summary = opt_html_text(opt_view(s.summary));
        let n: int = if summary.len() > 0 { 1 } else { 0 };
        let srow = b.subrange(1, 1 + n);
        let rest = b.skip(1 + n);
        let mid_ctx = head_ctx + srow;
        lemma_children_fit(head_ctx, srow, sid, 0, collapsed);
        lemma_fits_extend(head_ctx, srow, ctx.len() as int, collapsed);
        lemma_fits_join(mid_ctx, ctx.len() as int, head_ctx.len() as int, mid_ctx.len() as int, collapsed);
        lemma_open_row_extend(head_ctx, srow, head_ctx.len() as int, sid, 0);
        if s.modules@.len() == 0 {
            assert(rest.len() == 1);
            lemma_children_fit(mid_ctx, rest, sid, 0, collapsed);
        } else {
            assert(rest =~= modules_rows(s.id as int, sid, s.modules@, collapsed));
            lemma_modules_fit(mid_ctx, s.id as int, sid, s.modules@, collapsed);
        }
        lemma_fits_extend(mid_ctx, rest, ctx.len() as int, collapsed);
        assert(mid_ctx + rest =~= ctx + b);
        lemma_fits_join(ctx + b, ctx.len() as int, mid_ctx.len() as int, (ctx.len() + b.len()) as int, collapsed);
    }
}

proof fn lemma_sections_fit(ctx: Seq<RowView>, ss: Seq<CourseSection>, collapsed: Seq<Seq<char>>)
    ensures
        rows_fit(
            ctx + sections_rows(ss, collapsed),
            ctx.len() as int,
            (ctx.len() + sections_rows(ss, collapsed).len()) as int,
            collapsed,
        ),
    decreases ss.len(),
{
    if ss.len() > 0 {
        let a = sections_rows(ss.drop_last(), collapsed);
        let b = section_rows(ss.len() - 1, ss.last(), collapsed);
        lemma_sections_fit(ctx, ss.drop_last(), collapsed);
        lemma_section_fits(ctx + a, ss.len() - 1, ss.last(), collapsed);
        lemma_fits_extend(ctx + a, b, ctx.len() as int, collapsed);
        assert(ctx + a + b =~= ctx + sections_rows(ss, collapsed));
        lemma_fits_join(
            ctx + a + b,
            ctx.len() as int,
            (ctx.len() + a.len()) as int,
            (ctx.len() + a.len() + b.len()) as int,
            collapsed,
        );
    }
}

/// In the rows of a course page, a row without a parent is at the top level and every
/// other row comes after its parent, an expanded row one level up; and a row is expanded
/// exactly when it is collapsible and its id is not among the collapsed ones.
pub proof fn law_course_tree_structure(sections: Seq<CourseSection>, collapsed: Seq<Seq<char>>)
    ensures
        forall|i: int|
            0 <= i < course_tree(sections, collapsed).len() ==> #[trigger] row_fits(
                course_tree(sections, collapsed),
                i,
                collapsed,
            ),
{
    let rows = course_tree(sections, collapsed);
    if sections.len() == 0 {
        assert(rows[0] == empty_tree_row());
    } else {
        lemma_sections_fit(Seq::empty(), sections, collapsed);
        assert(Seq::<RowView>::empty() + rows =~= rows);
    }
}

} // verus!
