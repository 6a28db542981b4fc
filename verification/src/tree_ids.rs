//! The ids of the rows of a course page: how an id names its row's kind, section, module
//! and content item, and why no two rows share one.
use vstd::prelude::*;
use crate::text::{digit_char, nat_decimal, int_decimal};
use crate::course_tree::{
    contents_rows, course_tree, module_node_id, module_rows, modules_rows, nonempty_opt, normalized_type,
    opt_html_text, section_node_id, section_rows, sections_rows, RowView,
};
use crate::models::{opt_view, CourseModule, CourseSection, ModuleContentItem};

verus! {

/// No `:` in `s`.
pub open spec fn colon_free(s: Seq<char>) -> bool {
    forall|i: int| 0 <= i < s.len() ==> #[trigger] s[i] != ':'
}

proof fn lemma_nat_decimal_shape(n: nat)
    ensures
        nat_decimal(n).len() >= 1,
        n < 10 <==> nat_decimal(n).len() == 1,
        forall|i: int| 0 <= i < nat_decimal(n).len() ==> #[trigger] nat_decimal(n)[i] != ':' && nat_decimal(n)[i] != '-',
    decreases n,
{
    if n >= 10 {
        lemma_nat_decimal_shape(n / 10);
        let d = nat_decimal(n);
        assert forall|i: int| 0 <= i < d.len() implies #[trigger] d[i] != ':' && d[i] != '-' by {
            if i < d.len() - 1 {
                assert(d[i] == nat_decimal(n / 10)[i]);
            }
        }
    }
}

proof fn lemma_nat_decimal_injective(a: nat, b: nat)
    requires
        nat_decimal(a) == nat_decimal(b),
    ensures
        a == b,
    decreases a,
{
    lemma_nat_decimal_shape(a);
    lemma_nat_decimal_shape(b);
    if a >= 10 {
        let da = nat_decimal(a);
        let db = nat_decimal(b);
        assert(da.last() == digit_char(a % 10));
        assert(db.last() == digit_char(b % 10));
        assert(da.drop_last() =~= nat_decimal(a / 10));
        assert(db.drop_last() =~= nat_decimal(b / 10));
        lemma_nat_decimal_injective(a / 10, b / 10);
        assert(a % 10 == b % 10);
        vstd::arithmetic::div_mod::lemma_fundamental_div_mod(a as int, 10);
        vstd::arithmetic::div_mod::lemma_fundamental_div_mod(b as int, 10);
    } else {
        assert(nat_decimal(a)[0] == digit_char(a));
        assert(nat_decimal(b)[0] == digit_char(b));
    }
}

proof fn lemma_int_decimal(a: int, b: int)
    ensures
        colon_free(int_decimal(a)),
        int_decimal(a).len() >= 1,
        int_decimal(a) == int_decimal(b) ==> a == b,
{
    if a < 0 {
        lemma_nat_decimal_shape((-a) as nat);
        assert forall|i: int| 0 <= i < int_decimal(a).len() implies #[trigger] int_decimal(a)[i] != ':' by {
            if i > 0 {
                assert(int_decimal(a)[i] == nat_decimal((-a) as nat)[i - 1]);
            }
        }
    } else {
        lemma_nat_decimal_shape(a as nat);
    }
    if int_decimal(a) == int_decimal(b) {
        if a < 0 && b < 0 {
            assert(int_decimal(a).drop_first() =~= nat_decimal((-a) as nat));
            assert(int_decimal(b).drop_first() =~= nat_decimal((-b) as nat));
            lemma_nat_decimal_injective((-a) as nat, (-b) as nat);
        } else if a >= 0 && b >= 0 {
            lemma_nat_decimal_injective(a as nat, b as nat);
        } else if a < 0 {
            lemma_nat_decimal_shape(b as nat);
            assert(int_decimal(a)[0] == '-');
            assert(int_decimal(b)[0] == nat_decimal(b as nat)[0]);
        } else {
            lemma_nat_decimal_shape((-b) as nat);
            lemma_nat_decimal_shape(a as nat);
            assert(int_decimal(b)[0] == '-');
            assert(int_decimal(a)[0] == nat_decimal(a as nat)[0]);
        }
    }
}

/// Two texts that split at their first `:` the same way.
proof fn lemma_split_at_colon(x1: Seq<char>, y1: Seq<char>, x2: Seq<char>, y2: Seq<char>)
    requires
        x1 + y1 == x2 + y2,
        colon_free(x1),
        colon_free(x2),
        y1.len() == 0 || y1[0] == ':',
        y2.len() == 0 || y2[0] == ':',
    ensures
        x1 == x2,
        y1 == y2,
{
    let s = x1 + y1;
    if x1.len() < x2.len() {
        assert(s[x1.len() as int] == (x2 + y2)[x1.len() as int]);
        assert((x2 + y2)[x1.len() as int] == x2[x1.len() as int]);
        if y1.len() > 0 {
            assert(s[x1.len() as int] == y1[0]);
        }
        assert(false);
    } else if x2.len() < x1.len() {
        assert(s[x2.len() as int] == x1[x2.len() as int]);
        assert((x2 + y2)[x2.len() as int] == s[x2.len() as int]);
        if y2.len() > 0 {
            assert((x2 + y2)[x2.len() as int] == y2[0]);
        }
        assert(false);
    } else {
        assert(x1 =~= s.take(x1.len() as int));
        assert(x2 =~= (x2 + y2).take(x2.len() as int));
        assert(y1 =~= s.skip(x1.len() as int));
        assert(y2 =~= (x2 + y2).skip(x2.len() as int));
    }
}


/// The text before the section id in the id of a row of kind `tag`.
pub open spec fn key_prefix(tag: int) -> Seq<char> {
    if tag == 0 {
        "section:"@
    } else if tag == 1 {
        "summary:"@
    } else if tag == 2 {
        "section-empty:"@
    } else if tag == 3 {
        "label:"@
    } else if tag == 4 {
        "module:"@
    } else if tag == 5 {
        "module-description:"@
    } else if tag == 6 {
        "module-url:"@
    } else {
        "content:"@
    }
}

/// What follows the section id in the id of a row of kind `tag`.
pub open spec fn key_rest(tag: int, m: int, k: nat) -> Seq<char> {
    if tag <= 2 {
        Seq::empty()
    } else if tag <= 6 {
        ":"@ + int_decimal(m)
    } else {
        ":"@ + int_decimal(m) + ":"@ + nat_decimal(k)
    }
}

/// The id of a course-tree row of kind `tag` in section `s`, module `m`, content item `k`.
pub open spec fn row_key(tag: int, s: int, m: int, k: nat) -> Seq<char> {
    key_prefix(tag) + (int_decimal(s) + key_rest(tag, m, k))
}

/// The kind of row an id names, read off its first characters.
pub open spec fn tag_of(id: Seq<char>) -> int {
    if id[0] == 's' {
        if id[1] == 'u' {
            1
        } else if id[7] == ':' {
            0
        } else {
            2
        }
    } else if id[0] == 'l' {
        3
    } else if id[0] == 'c' {
        7
    } else if id[6] == ':' {
        4
    } else if id[7] == 'd' {
        5
    } else {
        6
    }
}

proof fn lemma_tag_of(tag: int, rest: Seq<char>)
    requires
        0 <= tag <= 7,
    ensures
        tag_of(key_prefix(tag) + rest) == tag,
{
    reveal_strlit("section:");
    reveal_strlit("summary:");
    reveal_strlit("section-empty:");
    reveal_strlit("label:");
    reveal_strlit("module:");
    reveal_strlit("module-description:");
    reveal_strlit("module-url:");
    reveal_strlit("content:");
    let p = key_prefix(tag);
    let id = p + rest;
    assert(p.len() >= 6);
    assert(id[0] == p[0] && id[1] == p[1]);
    if p.len() > 6 {
        assert(id[6] == p[6]);
    }
    if p.len() > 7 {
        assert(id[7] == p[7]);
    }
}

/// Row ids name their kind, section, module and content item without ambiguity.
pub proof fn lemma_row_key_injective(t1: int, s1: int, m1: int, k1: nat, t2: int, s2: int, m2: int, k2: nat)
    requires
        0 <= t1 <= 7,
        0 <= t2 <= 7,
        row_key(t1, s1, m1, k1) == row_key(t2, s2, m2, k2),
    ensures
        t1 == t2,
        s1 == s2,
        t1 >= 3 ==> m1 == m2,
        t1 == 7 ==> k1 == k2,
{
    lemma_tag_of(t1, int_decimal(s1) + key_rest(t1, m1, k1));
    lemma_tag_of(t2, int_decimal(s2) + key_rest(t2, m2, k2));
    let p = key_prefix(t1);
    let r1 = int_decimal(s1) + key_rest(t1, m1, k1);
    let r2 = int_decimal(s2) + key_rest(t2, m2, k2);
    assert(r1 =~= (p + r1).skip(p.len() as int));
    assert(r2 =~= (p + r2).skip(p.len() as int));
    lemma_int_decimal(s1, s2);
    lemma_int_decimal(s2, s1);
    reveal_strlit(":");
    lemma_split_at_colon(int_decimal(s1), key_rest(t1, m1, k1), int_decimal(s2), key_rest(t2, m2, k2));
    if t1 >= 3 {
        let q1 = key_rest(t1, m1, k1).drop_first();
        let q2 = key_rest(t2, m2, k2).drop_first();
        lemma_int_decimal(m1, m2);
        lemma_int_decimal(m2, m1);
        let e1: Seq<char> = if t1 == 7 { ":"@ + nat_decimal(k1) } else { Seq::empty() };
        let e2: Seq<char> = if t1 == 7 { ":"@ + nat_decimal(k2) } else { Seq::empty() };
        assert(q1 =~= int_decimal(m1) + e1);
        assert(q2 =~= int_decimal(m2) + e2);
        lemma_split_at_colon(int_decimal(m1), e1, int_decimal(m2), e2);
        if t1 == 7 {
            assert(e1.drop_first() =~= nat_decimal(k1));
            assert(e2.drop_first() =~= nat_decimal(k2));
            lemma_nat_decimal_injective(k1, k2);
        }
    }
}


/// No two rows share an id.
pub open spec fn ids_distinct(rows: Seq<RowView>) -> bool {
    forall|a: int, b: int| 0 <= a < b < rows.len() ==> #[trigger] rows[a].id != #[trigger] rows[b].id
}

/// No row of `xs` shares its id with a row of `ys`.
pub open spec fn ids_apart(xs: Seq<RowView>, ys: Seq<RowView>) -> bool {
    forall|a: int, b: int| 0 <= a < xs.len() && 0 <= b < ys.len() ==> #[trigger] xs[a].id != #[trigger] ys[b].id
}

proof fn lemma_distinct_concat(xs: Seq<RowView>, ys: Seq<RowView>)
    requires
        ids_distinct(xs),
        ids_distinct(ys),
        ids_apart(xs, ys),
    ensures
        ids_distinct(xs + ys),
{
    let all = xs + ys;
    assert forall|a: int, b: int| 0 <= a < b < all.len() implies #[trigger] all[a].id != #[trigger] all[b].id by {
        if b < xs.len() {
            assert(all[a] == xs[a] && all[b] == xs[b]);
        } else if a < xs.len() {
            assert(all[a] == xs[a] && all[b] == ys[b - xs.len()]);
        } else {
            assert(all[a] == ys[a - xs.len()] && all[b] == ys[b - xs.len()]);
        }
    }
}

proof fn lemma_contents_ids(section_id: int, module_id: int, cs: Seq<ModuleContentItem>, modname: Seq<char>, parent: Seq<char>)
    ensures
        contents_rows(section_id, module_id, cs, modname, parent).len() == cs.len(),
        forall|t: int| 0 <= t < cs.len() ==> (#[trigger] contents_rows(section_id, module_id, cs, modname, parent)[t]).id
            == row_key(7, section_id, module_id, t as nat),
    decreases cs.len(),
{
    if cs.len() > 0 {
        lemma_contents_ids(section_id, module_id, cs.drop_last(), modname, parent);
        let rest = contents_rows(section_id, module_id, cs.drop_last(), modname, parent);
        let all = contents_rows(section_id, module_id, cs, modname, parent);
        assert forall|t: int| 0 <= t < cs.len() implies (#[trigger] all[t]).id == row_key(
            7,
            section_id,
            module_id,
            t as nat,
        ) by {
            if t < rest.len() {
                assert(all[t] == rest[t]);
            } else {
                assert(all[t].id =~= row_key(7, section_id, module_id, t as nat));
            }
        }
    }
}

/// The rows of one module: their ids are distinct and all name that module.
proof fn lemma_module_ids(section_id: int, sid: Seq<char>, m: CourseModule, collapsed: Seq<Seq<char>>)
    ensures
        ids_distinct(module_rows(section_id, sid, m, collapsed)),
        forall|t: int| 0 <= t < module_rows(section_id, sid, m, collapsed).len() ==> exists|tag: int, k: nat|
            3 <= tag <= 7 && (#[trigger] module_rows(section_id, sid, m, collapsed)[t]).id == row_key(
                tag,
                section_id,
                m.id as int,
                k,
            ),
{
    let b = module_rows(section_id, sid, m, collapsed);
    let modname = normalized_type(opt_view(m.modname));
    let mid = module_node_id(section_id, m.id as int);
    let d = opt_html_text(opt_view(m.description));
    let d_len: int = if d.len() > 0 { 1 } else { 0 };
    let u_len: int = if nonempty_opt(opt_view(m.url)) is Some { 1 } else { 0 };
    let expanded = !(modname == "label"@ || collapsed.contains(mid));
    let head_tag: int = if modname == "label"@ { 3 } else { 4 };
    lemma_contents_ids(section_id, m.id as int, m.contents@, modname, mid);
    // Each row's kind and content index.
    let tag_at = |t: int| if t == 0 {
        head_tag
    } else if t - 1 < d_len {
        5int
    } else if t - 1 - d_len < u_len {
        6int
    } else {
        7int
    };
    let k_at = |t: int| if t - 1 - d_len - u_len >= 0 { (t - 1 - d_len - u_len) as nat } else { 0nat };
    assert(b[0].id =~= row_key(head_tag, section_id, m.id as int, 0));
    if expanded {
        let cs = contents_rows(section_id, m.id as int, m.contents@, modname, mid);
        assert(b.len() == 1 + d_len + u_len + cs.len());
        assert forall|t: int| 0 <= t < b.len() implies (#[trigger] b[t]).id == row_key(
            tag_at(t),
            section_id,
            m.id as int,
            k_at(t),
        ) by {
            if t == 0 {
            } else if t - 1 < d_len {
                assert(b[t].id =~= row_key(5, section_id, m.id as int, 0));
            } else if t - 1 - d_len < u_len {
                assert(b[t].id =~= row_key(6, section_id, m.id as int, 0));
            } else {
                assert(b[t] == cs[t - 1 - d_len - u_len]);
            }
        }
    } else {
        assert(b.len() == 1);
    }
    assert forall|t: int| 0 <= t < b.len() implies exists|tag: int, k: nat|
        3 <= tag <= 7 && (#[trigger] b[t]).id == row_key(tag, section_id, m.id as int, k) by {
        assert(b[t].id == row_key(tag_at(t), section_id, m.id as int, k_at(t)));
    }
    assert forall|a: int, c: int| 0 <= a < c < b.len() implies #[trigger] b[a].id != #[trigger] b[c].id by {
        if b[a].id == b[c].id {
            lemma_row_key_injective(
                tag_at(a),
                section_id,
                m.id as int,
                k_at(a),
                tag_at(c),
                section_id,
                m.id as int,
                k_at(c),
            );
        }
    }
}


/// Module ids occur once each.
pub open spec fn module_ids_distinct(ms: Seq<CourseModule>) -> bool {
    forall|i: int, j: int| 0 <= i < j < ms.len() ==> #[trigger] ms[i].id != #[trigger] ms[j].id
}

/// The id of `row` names one of the modules `ms` of section `section_id`.
pub open spec fn row_in_modules(row: RowView, section_id: int, ms: Seq<CourseModule>) -> bool {
    exists|j: int, tag: int, k: nat|
        0 <= j < ms.len() && 3 <= tag <= 7 && row.id == #[trigger] row_key(tag, section_id, ms[j].id as int, k)
}

/// Every row's id names one of the modules `ms` of section `section_id`.
pub open spec fn rows_in_modules(rows: Seq<RowView>, section_id: int, ms: Seq<CourseModule>) -> bool {
    forall|t: int| 0 <= t < rows.len() ==> #[trigger] row_in_modules(rows[t], section_id, ms)
}

/// The rows of a section's modules: distinct ids, each naming one of the modules.
proof fn lemma_modules_ids(section_id: int, sid: Seq<char>, ms: Seq<CourseModule>, collapsed: Seq<Seq<char>>)
    requires
        module_ids_distinct(ms),
    ensures
        ids_distinct(modules_rows(section_id, sid, ms, collapsed)),
        rows_in_modules(modules_rows(section_id, sid, ms, collapsed), section_id, ms),
    decreases ms.len(),
{
    let all = modules_rows(section_id, sid, ms, collapsed);
    if ms.len() > 0 {
        let front = ms.drop_last();
        assert forall|i: int, j: int| 0 <= i < j < front.len() implies #[trigger] front[i].id != #[trigger] front[j].id by {
            assert(ms[i].id != ms[j].id);
        }
        lemma_modules_ids(section_id, sid, front, collapsed);
        lemma_module_ids(section_id, sid, ms.last(), collapsed);
        let a = modules_rows(section_id, sid, front, collapsed);
        let b = module_rows(section_id, sid, ms.last(), collapsed);
        assert forall|x: int, y: int| 0 <= x < a.len() && 0 <= y < b.len() implies #[trigger] a[x].id != #[trigger] b[y].id by {
            assert(row_in_modules(a[x], section_id, front));
            let (j, t1, k1) = choose|j: int, tag: int, k: nat|
                0 <= j < front.len() && 3 <= tag <= 7 && a[x].id == row_key(tag, section_id, front[j].id as int, k);
            let (t2, k2) = choose|tag: int, k: nat|
                3 <= tag <= 7 && b[y].id == row_key(tag, section_id, ms.last().id as int, k);
            assert(front[j] == ms[j]);
            assert(ms[j].id != ms[ms.len() - 1].id);
            if a[x].id == b[y].id {
                lemma_row_key_injective(t1, section_id, front[j].id as int, k1, t2, section_id, ms.last().id as int, k2);
            }
        }
        lemma_distinct_concat(a, b);
        assert forall|t: int| 0 <= t < all.len() implies #[trigger] row_in_modules(all[t], section_id, ms) by {
            if t < a.len() {
                assert(all[t] == a[t]);
                assert(row_in_modules(a[t], section_id, front));
                let (j, t1, k1) = choose|j: int, tag: int, k: nat|
                    0 <= j < front.len() && 3 <= tag <= 7 && a[t].id == row_key(tag, section_id, front[j].id as int, k);
                assert(front[j] == ms[j]);
                assert(all[t].id == row_key(t1, section_id, ms[j].id as int, k1));
            } else {
                assert(all[t] == b[t - a.len()]);
                let (t2, k2) = choose|tag: int, k: nat|
                    3 <= tag <= 7 && b[t - a.len()].id == row_key(tag, section_id, ms.last().id as int, k);
                assert(all[t].id == row_key(t2, section_id, ms[ms.len() - 1].id as int, k2));
            }
        }
    }
}


/// The id of `row` names section `section_id`.
pub open spec fn row_in_section(row: RowView, section_id: int) -> bool {
    exists|tag: int, m: int, k: nat| 0 <= tag <= 7 && row.id == #[trigger] row_key(tag, section_id, m, k)
}

/// The rows of one section: distinct ids, all naming the section.
proof fn lemma_section_ids(index: int, sec: CourseSection, collapsed: Seq<Seq<char>>)
    requires
        module_ids_distinct(sec.modules@),
    ensures
        ids_distinct(section_rows(index, sec, collapsed)),
        forall|t: int| 0 <= t < section_rows(index, sec, collapsed).len() ==> #[trigger] row_in_section(
            section_rows(index, sec, collapsed)[t],
            sec.id as int,
        ),
{
    let b = section_rows(index, sec, collapsed);
    let sid = section_node_id(sec.id as int);
    let s_id = sec.id as int;
    assert(b[0].id =~= row_key(0, s_id, 0, 0));
    if collapsed.contains(sid) {
        assert(b.len() == 1);
        assert(row_in_section(b[0], s_id));
    } else {
        let summary = opt_html_text(opt_view(sec.summary));
        let n: int = if summary.len() > 0 { 1 } else { 0 };
        let hd = b.take(1 + n);
        let rest = b.skip(1 + n);
        if n == 1 {
            assert(b[1].id =~= row_key(1, s_id, 0, 0));
        }
        // The header and the summary.
        assert forall|x: int, y: int| 0 <= x < y < hd.len() implies #[trigger] hd[x].id != #[trigger] hd[y].id by {
            assert(hd[x] == b[0] && hd[y] == b[1]);
            if hd[x].id == hd[y].id {
                lemma_row_key_injective(0, s_id, 0, 0, 1, s_id, 0, 0);
            }
        }
        assert forall|t: int| 0 <= t < hd.len() implies #[trigger] row_in_section(hd[t], s_id) by {
            if t == 0 {
                assert(hd[0].id == row_key(0, s_id, 0, 0));
            } else {
                assert(hd[1].id == row_key(1, s_id, 0, 0));
            }
        }
        if sec.modules@.len() == 0 {
            assert(rest.len() == 1);
            assert(rest[0].id =~= row_key(2, s_id, 0, 0));
            assert forall|x: int, y: int| 0 <= x < hd.len() && 0 <= y < rest.len() implies #[trigger] hd[x].id
                != #[trigger] rest[y].id by {
                let tx: int = if x == 0 { 0 } else { 1 };
                assert(hd[x].id == row_key(tx, s_id, 0, 0));
                if hd[x].id == rest[y].id {
                    lemma_row_key_injective(tx, s_id, 0, 0, 2, s_id, 0, 0);
                }
            }
            assert(row_in_section(rest[0], s_id));
        } else {
            assert(rest =~= modules_rows(s_id, sid, sec.modules@, collapsed));
            lemma_modules_ids(s_id, sid, sec.modules@, collapsed);
            assert forall|x: int, y: int| 0 <= x < hd.len() && 0 <= y < rest.len() implies #[trigger] hd[x].id
                != #[trigger] rest[y].id by {
                let tx: int = if x == 0 { 0 } else { 1 };
                assert(hd[x].id == row_key(tx, s_id, 0, 0));
                assert(row_in_modules(rest[y], s_id, sec.modules@));
                let (j, t2, k2) = choose|j: int, tag: int, k: nat|
                    0 <= j < sec.modules@.len() && 3 <= tag <= 7 && rest[y].id == row_key(
                        tag,
                        s_id,
                        sec.modules@[j].id as int,
                        k,
                    );
                if hd[x].id == rest[y].id {
                    lemma_row_key_injective(tx, s_id, 0, 0, t2, s_id, sec.modules@[j].id as int, k2);
                }
            }
            assert forall|t: int| 0 <= t < rest.len() implies #[trigger] row_in_section(rest[t], s_id) by {
                assert(row_in_modules(rest[t], s_id, sec.modules@));
                let (j, t2, k2) = choose|j: int, tag: int, k: nat|
                    0 <= j < sec.modules@.len() && 3 <= tag <= 7 && rest[t].id == row_key(
                        tag,
                        s_id,
                        sec.modules@[j].id as int,
                        k,
                    );
                assert(rest[t].id == row_key(t2, s_id, sec.modules@[j].id as int, k2));
            }
        }
        lemma_distinct_concat(hd, rest);
        assert(hd + rest =~= b);
        assert forall|t: int| 0 <= t < b.len() implies #[trigger] row_in_section(b[t], s_id) by {
            if t < hd.len() {
                assert(b[t] == hd[t]);
            } else {
                assert(b[t] == rest[t - hd.len()]);
            }
        }
    }
}


/// Section ids occur once each.
pub open spec fn section_ids_distinct(ss: Seq<CourseSection>) -> bool {
    forall|i: int, j: int| 0 <= i < j < ss.len() ==> #[trigger] ss[i].id != #[trigger] ss[j].id
}

/// Within each section, module ids occur once each.
pub open spec fn module_ids_distinct_per_section(ss: Seq<CourseSection>) -> bool {
    forall|i: int| 0 <= i < ss.len() ==> module_ids_distinct(#[trigger] ss[i].modules@)
}

/// The id of `row` names one of the sections `ss`.
pub open spec fn row_in_sections(row: RowView, ss: Seq<CourseSection>) -> bool {
    exists|j: int| 0 <= j < ss.len() && #[trigger] row_in_section(row, ss[j].id as int)
}

proof fn lemma_sections_ids(ss: Seq<CourseSection>, collapsed: Seq<Seq<char>>)
    requires
        section_ids_distinct(ss),
        module_ids_distinct_per_section(ss),
    ensures
        ids_distinct(sections_rows(ss, collapsed)),
        forall|t: int| 0 <= t < sections_rows(ss, collapsed).len() ==> #[trigger] row_in_sections(
            sections_rows(ss, collapsed)[t],
            ss,
        ),
    decreases ss.len(),
{
    let all = sections_rows(ss, collapsed);
    if ss.len() > 0 {
        let front = ss.drop_last();
        let last = ss.last();
        assert forall|i: int, j: int| 0 <= i < j < front.len() implies #[trigger] front[i].id != #[trigger] front[j].id by {
            assert(ss[i].id != ss[j].id);
        }
        assert forall|i: int| 0 <= i < front.len() implies module_ids_distinct(#[trigger] front[i].modules@) by {
            assert(front[i] == ss[i]);
            assert(module_ids_distinct(ss[i].modules@));
        }
        assert(module_ids_distinct(ss[ss.len() - 1].modules@));
        lemma_sections_ids(front, collapsed);
        lemma_section_ids(ss.len() - 1, last, collapsed);
        let a = sections_rows(front, collapsed);
        let b = section_rows(ss.len() - 1, last, collapsed);
        assert forall|x: int, y: int| 0 <= x < a.len() && 0 <= y < b.len() implies #[trigger] a[x].id != #[trigger] b[y].id by {
            assert(row_in_sections(a[x], front));
            let j = choose|j: int| 0 <= j < front.len() && #[trigger] row_in_section(a[x], front[j].id as int);
            let (t1, m1, k1) = choose|tag: int, m: int, k: nat|
                0 <= tag <= 7 && a[x].id == row_key(tag, front[j].id as int, m, k);
            assert(row_in_section(b[y], last.id as int));
            let (t2, m2, k2) = choose|tag: int, m: int, k: nat|
                0 <= tag <= 7 && b[y].id == row_key(tag, last.id as int, m, k);
            assert(front[j] == ss[j]);
            assert(ss[j].id != ss[ss.len() - 1].id);
            if a[x].id == b[y].id {
                lemma_row_key_injective(t1, front[j].id as int, m1, k1, t2, last.id as int, m2, k2);
            }
        }
        lemma_distinct_concat(a, b);
        assert forall|t: int| 0 <= t < all.len() implies #[trigger] row_in_sections(all[t], ss) by {
            if t < a.len() {
                assert(all[t] == a[t]);
                assert(row_in_sections(a[t], front));
                let j = choose|j: int| 0 <= j < front.len() && #[trigger] row_in_section(a[t], front[j].id as int);
                assert(front[j] == ss[j]);
                assert(row_in_section(all[t], ss[j].id as int));
            } else {
                assert(all[t] == b[t - a.len()]);
                assert(row_in_section(all[t], ss[ss.len() - 1].id as int));
            }
        }
    }
}

/// When every section has its own id, and every module its own id within its section,
/// no two rows of a course page share an id.
pub proof fn law_course_tree_ids_distinct(sections: Seq<CourseSection>, collapsed: Seq<Seq<char>>)
    requires
        section_ids_distinct(sections),
        module_ids_distinct_per_section(sections),
    ensures
        ids_distinct(course_tree(sections, collapsed)),
{
    if sections.len() > 0 {
        lemma_sections_ids(sections, collapsed);
    }
}


/// What a content item's row is labelled with: its file name when not empty, else its
/// type, else `content item`.
pub open spec fn content_label(c: ModuleContentItem) -> Seq<char> {
    let kind_or_default = match c.kind {
        Some(k) => k@,
        None => "content item"@,
    };
    match c.filename {
        Some(f) => if f@.len() > 0 {
            f@
        } else {
            kind_or_default
        },
        None => kind_or_default,
    }
}

/// The row of each content item links to the item's file URL when it has a non-empty one,
/// else to its URL when that is non-empty, and then reads `label: link`; with neither it has
/// no link and reads the label alone.
pub proof fn law_content_rows_keep_their_links(
    section_id: int,
    module_id: int,
    cs: Seq<ModuleContentItem>,
    modname: Seq<char>,
    parent: Seq<char>,
    t: int,
)
    requires
        0 <= t < cs.len(),
    ensures
        contents_rows(section_id, module_id, cs, modname, parent).len() == cs.len(),
        ({
            let row = contents_rows(section_id, module_id, cs, modname, parent)[t];
            let c = cs[t];
            if c.fileurl matches Some(u) && u@.len() > 0 {
                row.link_url == Some(c.fileurl->0@) && row.text == content_label(c) + ": "@ + c.fileurl->0@
            } else if c.url matches Some(u) && u@.len() > 0 {
                row.link_url == Some(c.url->0@) && row.text == content_label(c) + ": "@ + c.url->0@
            } else {
                row.link_url is None && row.text == content_label(c)
            }
        }),
    decreases cs.len(),
{
    lemma_contents_shape_len(section_id, module_id, cs, modname, parent);
    if t < cs.len() - 1 {
        law_content_rows_keep_their_links(section_id, module_id, cs.drop_last(), modname, parent, t);
        assert(contents_rows(section_id, module_id, cs, modname, parent)[t] == contents_rows(
            section_id,
            module_id,
            cs.drop_last(),
            modname,
            parent,
        )[t]);
        assert(cs.drop_last()[t] == cs[t]);
    }
}

proof fn lemma_contents_shape_len(
    section_id: int,
    module_id: int,
    cs: Seq<ModuleContentItem>,
    modname: Seq<char>,
    parent: Seq<char>,
)
    ensures
        contents_rows(section_id, module_id, cs, modname, parent).len() == cs.len(),
    decreases cs.len(),
{
    if cs.len() > 0 {
        lemma_contents_shape_len(section_id, module_id, cs.drop_last(), modname, parent);
    }
}

/// In an unfolded module that is not a label, every content item has its row, with the
/// item's id and its link as `law_content_rows_keep_their_links` states.
pub proof fn law_module_shows_its_contents(
    section_id: int,
    sid: Seq<char>,
    m: CourseModule,
    collapsed: Seq<Seq<char>>,
    t: int,
)
    requires
        normalized_type(opt_view(m.modname)) != "label"@,
        !collapsed.contains(module_node_id(section_id, m.id as int)),
        0 <= t < m.contents@.len(),
    ensures
        exists|j: int|
            0 <= j < module_rows(section_id, sid, m, collapsed).len() && #[trigger] module_rows(
                section_id,
                sid,
                m,
                collapsed,
            )[j] == contents_rows(
                section_id,
                m.id as int,
                m.contents@,
                normalized_type(opt_view(m.modname)),
                module_node_id(section_id, m.id as int),
            )[t] && module_rows(section_id, sid, m, collapsed)[j].id == "content:"@ + int_decimal(section_id) + ":"@
                + int_decimal(m.id as int) + ":"@ + nat_decimal(t as nat),
{
    let b = module_rows(section_id, sid, m, collapsed);
    let modname = normalized_type(opt_view(m.modname));
    let mid = module_node_id(section_id, m.id as int);
    let cs = contents_rows(section_id, m.id as int, m.contents@, modname, mid);
    lemma_contents_ids(section_id, m.id as int, m.contents@, modname, mid);
    let j = b.len() - cs.len() + t;
    assert(b[j] == cs[t]);
    assert(cs[t].id == row_key(7, section_id, m.id as int, t as nat));
    assert(row_key(7, section_id, m.id as int, t as nat) =~= "content:"@ + int_decimal(section_id) + ":"@
        + int_decimal(m.id as int) + ":"@ + nat_decimal(t as nat));
}


/// The row of a module that is not a label links to the module's URL when it has a
/// non-empty one, and to nothing otherwise.
pub proof fn law_module_row_links_to_its_url(section_id: int, sid: Seq<char>, m: CourseModule, collapsed: Seq<Seq<char>>)
    requires
        normalized_type(opt_view(m.modname)) != "label"@,
    ensures
        module_rows(section_id, sid, m, collapsed)[0].id == module_node_id(section_id, m.id as int),
        if m.url matches Some(u) && u@.len() > 0 {
            module_rows(section_id, sid, m, collapsed)[0].link_url == Some(m.url->0@)
        } else {
            module_rows(section_id, sid, m, collapsed)[0].link_url is None
        },
{
}

} // verus!
