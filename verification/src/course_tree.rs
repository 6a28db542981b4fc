//! The collapsible tree of a course page: sections, modules and their contents.
use vstd::prelude::*;
use crate::models::{CourseSection, CourseModule, ModuleContentItem, opt_view, clone_opt};
use crate::text::{
    chars_of, string_of, push_str, push_i64, int_decimal, nat_decimal, push_decimal, trim, lowercase,
    to_lowercase, trim_str, chars_eq_str,
};
use crate::html::{html_text, strip_html};

verus! {

/// The kind of a row of the course tree.
#[derive(Debug, Clone, Copy, PartialEq, Eq, Structural)]
pub enum CourseTreeNodeKind {
    Section,
    Module,
    Summary,
    ModuleDescription,
    ModuleUrl,
    ContentItem,
    Label,
}

/// One row of the course tree.
#[derive(Debug, Clone)]
pub struct CourseTreeRow {
    pub id: String,
    pub kind: CourseTreeNodeKind,
    pub depth: u8,
    pub text: String,
    pub link_url: Option<String>,
    pub module_type: Option<String>,
    pub icon: String,
    pub collapsible: bool,
    pub expanded: bool,
    pub parent_id: Option<String>,
}

/// The view of a row.
pub struct RowView {
    pub id: Seq<char>,
    pub kind: CourseTreeNodeKind,
    pub depth: u8,
    pub text: Seq<char>,
    pub link_url: Option<Seq<char>>,
    pub module_type: Option<Seq<char>>,
    pub icon: Seq<char>,
    pub collapsible: bool,
    pub expanded: bool,
    pub parent_id: Option<Seq<char>>,
}

impl View for CourseTreeRow {
    type V = RowView;

    open spec fn view(&self) -> RowView {
        RowView {
            id: self.id@,
            kind: self.kind,
            depth: self.depth,
            text: self.text@,
            link_url: opt_view(self.link_url),
            module_type: opt_view(self.module_type),
            icon: self.icon@,
            collapsible: self.collapsible,
            expanded: self.expanded,
            parent_id: opt_view(self.parent_id),
        }
    }
}

/// Views of rows.
pub open spec fn rows_view(rs: Seq<CourseTreeRow>) -> Seq<RowView> {
    rs.map_values(|r: CourseTreeRow| r@)
}

/// `section:<id>`.
pub open spec fn section_node_id(section_id: int) -> Seq<char> {
    "section:"@ + int_decimal(section_id)
}

/// `module:<section>:<module>`.
pub open spec fn module_node_id(section_id: int, module_id: int) -> Seq<char> {
    "module:"@ + int_decimal(section_id) + ":"@ + int_decimal(module_id)
}

fn id_string(prefix: &str, n: i64) -> (r: String)
    ensures
        r@ == prefix@ + int_decimal(n as int),
{
    let mut s = string_of(&chars_of(prefix));
    push_i64(&mut s, n);
    s
}

fn id2_string(prefix: &str, a: i64, b: i64) -> (r: String)
    ensures
        r@ == prefix@ + int_decimal(a as int) + ":"@ + int_decimal(b as int),
{
    let mut s = id_string(prefix, a);
    push_str(&mut s, ":");
    push_i64(&mut s, b);
    s
}

/// The node id of a section.
pub fn course_section_node_id(section_id: i64) -> (r: String)
    ensures
        r@ == section_node_id(section_id as int),
{
    id_string("section:", section_id)
}

/// The node id of a module.
pub fn course_module_node_id(section_id: i64, module_id: i64) -> (r: String)
    ensures
        r@ == module_node_id(section_id as int, module_id as int),
{
    id2_string("module:", section_id, module_id)
}

/// A module or content type: trimmed and lower-cased, empty when absent.
pub open spec fn normalized_type(value: Option<Seq<char>>) -> Seq<char> {
    match value {
        Some(v) => lowercase(trim(v)),
        None => Seq::empty(),
    }
}

/// Trims and lower-cases a module or content type.
pub fn normalize_type(value: Option<&str>) -> (r: String)
    ensures
        r@ == normalized_type(match value {
            Some(v) => Some(v@),
            None => None,
        }),
{
    match value {
        Some(v) => {
            let t = trim_str(v);
            to_lowercase(t.as_str())
        },
        None => String::new(),
    }
}

/// The icon of a module type.
pub open spec fn module_icon_spec(t: Seq<char>) -> Seq<char> {
    if t == "forum"@ {
        "💬"@
    } else if t == "quiz"@ {
        "📝"@
    } else if t == "resource"@ {
        "📄"@
    } else if t == "assign"@ {
        "✅"@
    } else if t == "url"@ {
        "🔗"@
    } else if t == "page"@ {
        "📃"@
    } else if t == "book"@ {
        "📚"@
    } else if t == "folder"@ {
        "📁"@
    } else if t == "label"@ {
        "🏷"@
    } else {
        "📦"@
    }
}

/// The icon of a content item type.
pub open spec fn content_icon_spec(t: Seq<char>) -> Seq<char> {
    if t == "folder"@ {
        "📁"@
    } else if t == "url"@ {
        "🔗"@
    } else {
        "📄"@
    }
}

fn lit(s: &str) -> (r: String)
    ensures
        r@ == s@,
{
    string_of(&chars_of(s))
}

/// The icon of a module, by its normalized type.
pub fn module_icon(modname: Option<&str>) -> (r: String)
    ensures
        r@ == module_icon_spec(normalized_type(match modname {
            Some(v) => Some(v@),
            None => None,
        })),
{
    let t = chars_of(normalize_type(modname).as_str());
    if chars_eq_str(&t, "forum") {
        lit("💬")
    } else if chars_eq_str(&t, "quiz") {
        lit("📝")
    } else if chars_eq_str(&t, "resource") {
        lit("📄")
    } else if chars_eq_str(&t, "assign") {
        lit("✅")
    } else if chars_eq_str(&t, "url") {
        lit("🔗")
    } else if chars_eq_str(&t, "page") {
        lit("📃")
    } else if chars_eq_str(&t, "book") {
        lit("📚")
    } else if chars_eq_str(&t, "folder") {
        lit("📁")
    } else if chars_eq_str(&t, "label") {
        lit("🏷")
    } else {
        lit("📦")
    }
}

/// The icon of a content item, by its normalized type.
pub fn content_icon(kind: Option<&str>) -> (r: String)
    ensures
        r@ == content_icon_spec(normalized_type(match kind {
            Some(v) => Some(v@),
            None => None,
        })),
{
    let t = chars_of(normalize_type(kind).as_str());
    if chars_eq_str(&t, "folder") {
        lit("📁")
    } else if chars_eq_str(&t, "url") {
        lit("🔗")
    } else {
        lit("📄")
    }
}

/// An optional string that is kept only when it is not empty.
pub open spec fn nonempty_opt(o: Option<Seq<char>>) -> Option<Seq<char>> {
    match o {
        Some(v) => if v.len() > 0 {
            Some(v)
        } else {
            None
        },
        None => None,
    }
}

/// The module type a row carries: none when the normalized type is empty.
pub open spec fn opt_type(modname: Seq<char>) -> Option<Seq<char>> {
    if modname.len() == 0 {
        None
    } else {
        Some(modname)
    }
}

/// The text of an optional HTML string.
pub open spec fn opt_html_text(o: Option<Seq<char>>) -> Seq<char> {
    html_text(
        match o {
            Some(v) => v,
            None => Seq::empty(),
        },
    )
}

/// The row of a module content item: its file name (or else its type, or else
/// `content item`), followed by its file URL (or else URL) when there is one.
pub open spec fn content_row_spec(
    section_id: int,
    module_id: int,
    index: nat,
    c: ModuleContentItem,
    modname: Seq<char>,
    parent: Seq<char>,
) -> RowView {
    let label = match nonempty_opt(opt_view(c.filename)) {
        Some(f) => f,
        None => match opt_view(c.kind) {
            Some(k) => k,
            None => "content item"@,
        },
    };
    let url = match nonempty_opt(opt_view(c.fileurl)) {
        Some(u) => Some(u),
        None => nonempty_opt(opt_view(c.url)),
    };
    RowView {
        id: "content:"@ + int_decimal(section_id) + ":"@ + int_decimal(module_id) + ":"@ + nat_decimal(
            index,
        ),
        kind: CourseTreeNodeKind::ContentItem,
        depth: 2,
        text: match url {
            Some(u) => label + ": "@ + u,
            None => label,
        },
        link_url: url,
        module_type: opt_type(modname),
        icon: content_icon_spec(normalized_type(opt_view(c.kind))),
        collapsible: false,
        expanded: false,
        parent_id: Some(parent),
    }
}

/// Rows of the content items of a module.
pub open spec fn contents_rows(
    section_id: int,
    module_id: int,
    cs: Seq<ModuleContentItem>,
    modname: Seq<char>,
    parent: Seq<char>,
) -> Seq<RowView>
    decreases cs.len(),
{
    if cs.len() == 0 {
        Seq::empty()
    } else {
        contents_rows(section_id, module_id, cs.drop_last(), modname, parent).push(
            content_row_spec(section_id, module_id, (cs.len() - 1) as nat, cs.last(), modname, parent),
        )
    }
}

/// Rows of one module: a label becomes a single row with its text; any other module
/// a collapsible row followed, when expanded, by its description, URL and contents.
pub open spec fn module_rows(section_id: int, sid: Seq<char>, m: CourseModule, collapsed: Seq<Seq<char>>) -> Seq<RowView> {
    let modname = normalized_type(opt_view(m.modname));
    if modname == "label"@ {
        let d = opt_html_text(opt_view(m.description));
        let text = if d.len() > 0 {
            d
        } else if html_text(m.name@).len() > 0 {
            html_text(m.name@)
        } else {
            "(Empty label)"@
        };
        seq![
            RowView {
                id: "label:"@ + int_decimal(section_id) + ":"@ + int_decimal(m.id as int),
                kind: CourseTreeNodeKind::Label,
                depth: 1,
                text,
                link_url: None,
                module_type: None,
                icon: "\u{1f3f7}"@,
                collapsible: false,
                expanded: false,
                parent_id: Some(sid),
            },
        ]
    } else {
        let mid = module_node_id(section_id, m.id as int);
        let cm = collapsed.contains(mid);
        let head = RowView {
            id: mid,
            kind: CourseTreeNodeKind::Module,
            depth: 1,
            text: m.name@,
            link_url: nonempty_opt(opt_view(m.url)),
            module_type: opt_type(modname),
            icon: module_icon_spec(modname),
            collapsible: true,
            expanded: !cm,
            parent_id: Some(sid),
        };
        if cm {
            seq![head]
        } else {
            let d = opt_html_text(opt_view(m.description));
            let drow = if d.len() > 0 {
                seq![
                    RowView {
                        id: "module-description:"@ + int_decimal(section_id) + ":"@ + int_decimal(
                            m.id as int,
                        ),
                        kind: CourseTreeNodeKind::ModuleDescription,
                        depth: 2,
                        text: d,
                        link_url: None,
                        module_type: opt_type(modname),
                        icon: "\u{b7}"@,
                        collapsible: false,
                        expanded: false,
                        parent_id: Some(mid),
                    },
                ]
            } else {
                Seq::empty()
            };
            let urow = match nonempty_opt(opt_view(m.url)) {
                Some(u) => seq![
                    RowView {
                        id: "module-url:"@ + int_decimal(section_id) + ":"@ + int_decimal(m.id as int),
                        kind: CourseTreeNodeKind::ModuleUrl,
                        depth: 2,
                        text: u,
                        link_url: Some(u),
                        module_type: opt_type(modname),
                        icon: "\u{1f517}"@,
                        collapsible: false,
                        expanded: false,
                        parent_id: Some(mid),
                    },
                ],
                None => Seq::empty(),
            };
            seq![head] + drow + urow + contents_rows(section_id, m.id as int, m.contents@, modname, mid)
        }
    }
}

/// Rows of the modules of a section.
pub open spec fn modules_rows(section_id: int, sid: Seq<char>, ms: Seq<CourseModule>, collapsed: Seq<Seq<char>>) -> Seq<RowView>
    decreases ms.len(),
{
    if ms.len() == 0 {
        Seq::empty()
    } else {
        modules_rows(section_id, sid, ms.drop_last(), collapsed) + module_rows(section_id, sid, ms.last(), collapsed)
    }
}

/// The title of a section: its trimmed name, or `Section <n>` from its number (or else
/// its position counted from one).
pub open spec fn section_title(index: int, s: CourseSection) -> Seq<char> {
    let fallback = "Section "@ + int_decimal(
        match s.section {
            Some(n) => n as int,
            None => index + 1,
        },
    );
    match opt_view(s.name) {
        Some(n) => if trim(n).len() > 0 {
            trim(n)
        } else {
            fallback
        },
        None => fallback,
    }
}

/// Rows of one section: its header, and when expanded its summary and its modules (or a
/// placeholder when it has none).
pub open spec fn section_rows(index: int, s: CourseSection, collapsed: Seq<Seq<char>>) -> Seq<RowView> {
    let sid = section_node_id(s.id as int);
    let cs = collapsed.contains(sid);
    let head = RowView {
        id: sid,
        kind: CourseTreeNodeKind::Section,
        depth: 0,
        text: section_title(index, s),
        link_url: None,
        module_type: None,
        icon: "\u{1f4c1}"@,
        collapsible: true,
        expanded: !cs,
        parent_id: None,
    };
    if cs {
        seq![head]
    } else {
        let summary = opt_html_text(opt_view(s.summary));
        let srow = if summary.len() > 0 {
            seq![
                RowView {
                    id: "summary:"@ + int_decimal(s.id as int),
                    kind: CourseTreeNodeKind::Summary,
                    depth: 1,
                    text: summary,
                    link_url: None,
                    module_type: None,
                    icon: "\u{b7}"@,
                    collapsible: false,
                    expanded: false,
                    parent_id: Some(sid),
                },
            ]
        } else {
            Seq::empty()
        };
        if s.modules@.len() == 0 {
            seq![head] + srow + seq![
                RowView {
                    id: "section-empty:"@ + int_decimal(s.id as int),
                    kind: CourseTreeNodeKind::Summary,
                    depth: 1,
                    text: "(No activities in this section)"@,
                    link_url: None,
                    module_type: None,
                    icon: "\u{2022}"@,
                    collapsible: false,
                    expanded: false,
                    parent_id: Some(sid),
                },
            ]
        } else {
            seq![head] + srow + modules_rows(s.id as int, sid, s.modules@, collapsed)
        }
    }
}

/// Rows of a sequence of sections.
pub open spec fn sections_rows(ss: Seq<CourseSection>, collapsed: Seq<Seq<char>>) -> Seq<RowView>
    decreases ss.len(),
{
    if ss.len() == 0 {
        Seq::empty()
    } else {
        sections_rows(ss.drop_last(), collapsed) + section_rows(ss.len() - 1, ss.last(), collapsed)
    }
}

/// The single row shown when Moodle returned no sections.
pub open spec fn empty_tree_row() -> RowView {
    RowView {
        id: "empty"@,
        kind: CourseTreeNodeKind::Summary,
        depth: 0,
        text: "No visible course content returned by Moodle."@,
        link_url: None,
        module_type: None,
        icon: "\u{2022}"@,
        collapsible: false,
        expanded: false,
        parent_id: None,
    }
}

/// The whole tree.
pub open spec fn course_tree(ss: Seq<CourseSection>, collapsed: Seq<Seq<char>>) -> Seq<RowView> {
    if ss.len() == 0 {
        seq![empty_tree_row()]
    } else {
        sections_rows(ss, collapsed)
    }
}

/// The ids in a list of strings.
pub open spec fn strings_view(v: Seq<String>) -> Seq<Seq<char>> {
    v.map_values(|s: String| s@)
}

pub(crate) fn contains_string(v: &Vec<String>, key: &String) -> (r: bool)
    ensures
        r == strings_view(v@).contains(key@),
{
    let kc = chars_of(key.as_str());
    let mut i: usize = 0;
    while i < v.len()
        invariant
            i <= v@.len(),
            kc@ == key@,
            forall|j: int| 0 <= j < i ==> v@[j]@ != key@,
        decreases v.len() - i,
    {
        if crate::text::chars_eq(&chars_of(v[i].as_str()), &kc) {
            assert(strings_view(v@)[i as int] == key@);
            return true;
        }
        i += 1;
    }
    proof {
        if strings_view(v@).contains(key@) {
            let j = choose|j: int| 0 <= j < strings_view(v@).len() && strings_view(v@)[j] == key@;
            assert(v@[j]@ == key@);
        }
    }
    false
}

fn opt_str(o: &Option<String>) -> (r: Option<&str>)
    ensures
        match r {
            Some(s) => opt_view(*o) == Some(s@),
            None => o is None,
        },
{
    match o {
        Some(s) => Some(s.as_str()),
        None => None,
    }
}

fn norm_type_opt(o: &Option<String>) -> (r: String)
    ensures
        r@ == normalized_type(opt_view(*o)),
{
    normalize_type(opt_str(o))
}

fn nonempty_clone(o: &Option<String>) -> (r: Option<String>)
    ensures
        opt_view(r) == nonempty_opt(opt_view(*o)),
{
    match o {
        Some(s) => if s.as_str().is_empty() {
            None
        } else {
            Some(s.clone())
        },
        None => None,
    }
}

fn opt_type_exec(modname: &String) -> (r: Option<String>)
    ensures
        opt_view(r) == opt_type(modname@),
{
    if modname.as_str().is_empty() {
        None
    } else {
        Some(modname.clone())
    }
}

fn opt_html_text_exec(o: &Option<String>) -> (r: String)
    ensures
        r@ == opt_html_text(opt_view(*o)),
{
    match o {
        Some(s) => strip_html(s.as_str()),
        None => {
            let e = String::new();
            strip_html(e.as_str())
        },
    }
}

fn content_row(
    section_id: i64,
    module_id: i64,
    index: usize,
    content: &ModuleContentItem,
    modname: &String,
    parent_id: &String,
) -> (r: CourseTreeRow)
    ensures
        r@ == content_row_spec(section_id as int, module_id as int, index as nat, *content, modname@, parent_id@),
{
    let label = match nonempty_clone(&content.filename) {
        Some(f) => f,
        None => match &content.kind {
            Some(k) => k.clone(),
            None => lit("content item"),
        },
    };
    let url = match nonempty_clone(&content.fileurl) {
        Some(u) => Some(u),
        None => nonempty_clone(&content.url),
    };
    let text = match &url {
        Some(u) => {
            let mut t = label.clone();
            push_str(&mut t, ": ");
            push_str(&mut t, u.as_str());
            t
        },
        None => label,
    };
    let mut id = id2_string("content:", section_id, module_id);
    push_str(&mut id, ":");
    push_decimal(&mut id, index as u64);
    CourseTreeRow {
        id,
        kind: CourseTreeNodeKind::ContentItem,
        depth: 2,
        text,
        link_url: url,
        module_type: opt_type_exec(modname),
        icon: content_icon(opt_str(&content.kind)),
        collapsible: false,
        expanded: false,
        parent_id: Some(parent_id.clone()),
    }
}

fn push_module_rows(
    rows: &mut Vec<CourseTreeRow>,
    section_id: i64,
    sid: &String,
    module: &CourseModule,
    collapsed: &Vec<String>,
)
    ensures
        rows_view(final(rows)@) == rows_view(old(rows)@) + module_rows(section_id as int, sid@, *module, strings_view(collapsed@)),
{
    let ghost start = rows_view(rows@);
    let modname = norm_type_opt(&module.modname);
    let mc = chars_of(modname.as_str());
    if chars_eq_str(&mc, "label") {
        let d = opt_html_text_exec(&module.description);
        let text = if !d.as_str().is_empty() {
            d
        } else {
            let f = strip_html(module.name.as_str());
            if !f.as_str().is_empty() {
                f
            } else {
                lit("(Empty label)")
            }
        };
        let row = CourseTreeRow {
            id: id2_string("label:", section_id, module.id),
            kind: CourseTreeNodeKind::Label,
            depth: 1,
            text,
            link_url: None,
            module_type: None,
            icon: lit("\u{1f3f7}"),
            collapsible: false,
            expanded: false,
            parent_id: Some(sid.clone()),
        };
        rows.push(row);
        assert(rows_view(rows@) =~= start + seq![row@]);
        return;
    }
    let mid = course_module_node_id(section_id, module.id);
    let cm = contains_string(collapsed, &mid);
    let head = CourseTreeRow {
        id: mid.clone(),
        kind: CourseTreeNodeKind::Module,
        depth: 1,
        text: module.name.clone(),
        link_url: nonempty_clone(&module.url),
        module_type: opt_type_exec(&modname),
        icon: module_icon(opt_str(&module.modname)),
        collapsible: true,
        expanded: !cm,
        parent_id: Some(sid.clone()),
    };
    rows.push(head);
    let ghost h = head@;
    if cm {
        assert(rows_view(rows@) =~= start + seq![h]);
        return;
    }
    let ghost s1 = rows_view(rows@);
    let d = opt_html_text_exec(&module.description);
    if !d.as_str().is_empty() {
        let row = CourseTreeRow {
            id: id2_string("module-description:", section_id, module.id),
            kind: CourseTreeNodeKind::ModuleDescription,
            depth: 2,
            text: d,
            link_url: None,
            module_type: opt_type_exec(&modname),
            icon: lit("\u{b7}"),
            collapsible: false,
            expanded: false,
            parent_id: Some(mid.clone()),
        };
        rows.push(row);
    }
    let ghost s2 = rows_view(rows@);
    match nonempty_clone(&module.url) {
        Some(u) => {
            let row = CourseTreeRow {
                id: id2_string("module-url:", section_id, module.id),
                kind: CourseTreeNodeKind::ModuleUrl,
                depth: 2,
                text: u.clone(),
                link_url: Some(u),
                module_type: opt_type_exec(&modname),
                icon: lit("\u{1f517}"),
                collapsible: false,
                expanded: false,
                parent_id: Some(mid.clone()),
            };
            rows.push(row);
        },
        None => {},
    }
    let ghost s3 = rows_view(rows@);
    let contents = &module.contents;
    let mut i: usize = 0;
    while i < contents.len()
        invariant
            i <= contents@.len(),
            contents@ == module.contents@,
            rows_view(rows@) == s3 + contents_rows(section_id as int, module.id as int, contents@.take(i as int), modname@, mid@),
        decreases contents.len() - i,
    {
        let ghost before = rows_view(rows@);
        assert(contents@.take(i + 1).drop_last() =~= contents@.take(i as int));
        let row = content_row(section_id, module.id, i, &contents[i], &modname, &mid);
        rows.push(row);
        assert(rows_view(rows@) =~= before.push(row@));
        i += 1;
    }
    assert(contents@.take(contents@.len() as int) =~= contents@);
    assert(rows_view(rows@) =~= start + module_rows(section_id as int, sid@, *module, strings_view(collapsed@)));
}

fn push_section_rows(rows: &mut Vec<CourseTreeRow>, index: usize, section: &CourseSection, collapsed: &Vec<String>)
    requires
        index < 0x7fff_ffff_ffff_ffff,
        index < usize::MAX,
    ensures
        rows_view(final(rows)@) == rows_view(old(rows)@) + section_rows(index as int, *section, strings_view(collapsed@)),
{
    let ghost start = rows_view(rows@);
    let default_number: i64 = match section.section {
        Some(n) => n,
        None => (index + 1) as i64,
    };
    let title = match &section.name {
        Some(n) => {
            let t = trim_str(n.as_str());
            if !t.as_str().is_empty() {
                t
            } else {
                id_string("Section ", default_number)
            }
        },
        None => id_string("Section ", default_number),
    };
    assert(title@ == section_title(index as int, *section));
    let sid = course_section_node_id(section.id);
    let cs = contains_string(collapsed, &sid);
    let head = CourseTreeRow {
        id: sid.clone(),
        kind: CourseTreeNodeKind::Section,
        depth: 0,
        text: title,
        link_url: None,
        module_type: None,
        icon: lit("\u{1f4c1}"),
        collapsible: true,
        expanded: !cs,
        parent_id: None,
    };
    rows.push(head);
    if cs {
        assert(rows_view(rows@) =~= start + section_rows(index as int, *section, strings_view(collapsed@)));
        return;
    }
    let summary = opt_html_text_exec(&section.summary);
    if !summary.as_str().is_empty() {
        let row = CourseTreeRow {
            id: id_string("summary:", section.id),
            kind: CourseTreeNodeKind::Summary,
            depth: 1,
            text: summary,
            link_url: None,
            module_type: None,
            icon: lit("\u{b7}"),
            collapsible: false,
            expanded: false,
            parent_id: Some(sid.clone()),
        };
        rows.push(row);
    }
    let ghost s2 = rows_view(rows@);
    let modules = &section.modules;
    if modules.len() == 0 {
        let row = CourseTreeRow {
            id: id_string("section-empty:", section.id),
            kind: CourseTreeNodeKind::Summary,
            depth: 1,
            text: lit("(No activities in this section)"),
            link_url: None,
            module_type: None,
            icon: lit("\u{2022}"),
            collapsible: false,
            expanded: false,
            parent_id: Some(sid.clone()),
        };
        rows.push(row);
        assert(rows_view(rows@) =~= start + section_rows(index as int, *section, strings_view(collapsed@)));
        return;
    }
    let mut i: usize = 0;
    while i < modules.len()
        invariant
            i <= modules@.len(),
            modules@ == section.modules@,
            rows_view(rows@) == s2 + modules_rows(section.id as int, sid@, modules@.take(i as int), strings_view(collapsed@)),
        decreases modules.len() - i,
    {
        assert(modules@.take(i + 1).drop_last() =~= modules@.take(i as int));
        push_module_rows(rows, section.id, &sid, &modules[i], collapsed);
        i += 1;
        assert(rows_view(rows@) =~= s2 + modules_rows(section.id as int, sid@, modules@.take(i as int), strings_view(collapsed@)));
    }
    assert(modules@.take(modules@.len() as int) =~= modules@);
    assert(rows_view(rows@) =~= start + section_rows(index as int, *section, strings_view(collapsed@)));
}

/// The rows of a course page: one header per section, followed (unless the section is
/// collapsed) by its summary and modules; a placeholder row when there are no sections.
pub fn build_course_tree_rows(sections: &[CourseSection], collapsed: &Vec<String>) -> (r: Vec<CourseTreeRow>)
    requires
        sections@.len() < 0x7fff_ffff_ffff_ffff,
    ensures
        rows_view(r@) == course_tree(sections@, strings_view(collapsed@)),
{
    let mut rows: Vec<CourseTreeRow> = Vec::new();
    if sections.len() == 0 {
        let row = CourseTreeRow {
            id: lit("empty"),
            kind: CourseTreeNodeKind::Summary,
            depth: 0,
            text: lit("No visible course content returned by Moodle."),
            link_url: None,
            module_type: None,
            icon: lit("\u{2022}"),
            collapsible: false,
            expanded: false,
            parent_id: None,
        };
        rows.push(row);
        assert(rows_view(rows@) =~= seq![empty_tree_row()]);
        return rows;
    }
    let mut i: usize = 0;
    while i < sections.len()
        invariant
            i <= sections@.len() < 0x7fff_ffff_ffff_ffff,
            rows_view(rows@) == sections_rows(sections@.take(i as int), strings_view(collapsed@)),
        decreases sections.len() - i,
    {
        assert(sections@.take(i + 1).drop_last() =~= sections@.take(i as int));
        push_section_rows(&mut rows, i, &sections[i], collapsed);
        i += 1;
    }
    assert(sections@.take(sections@.len() as int) =~= sections@);
    rows
}

/// Indentation and the expand indicator of a row.
pub open spec fn tree_prefix(depth: nat, collapsible: bool, expanded: bool) -> Seq<char> {
    Seq::new(2 * depth, |i: int| ' ') + if collapsible {
        if expanded {
            "\u{25be}"@
        } else {
            "\u{25b8}"@
        }
    } else {
        "\u{b7}"@
    }
}

/// Two spaces per depth level, then `▾` (expanded), `▸` (collapsed) or `·` (a leaf).
pub fn render_tree_prefix(row: &CourseTreeRow) -> (r: String)
    ensures
        r@ == tree_prefix(row.depth as nat, row.collapsible, row.expanded),
{
    let mut out = String::new();
    let n: usize = 2 * (row.depth as usize);
    let mut i: usize = 0;
    while i < n
        invariant
            i <= n,
            n == 2 * row.depth,
            out@ == Seq::new(i as nat, |j: int| ' '),
        decreases n - i,
    {
        crate::text::push_char(&mut out, ' ');
        i += 1;
        assert(out@ =~= Seq::new(i as nat, |j: int| ' '));
    }
    let ind = if row.collapsible {
        if row.expanded {
            "\u{25be}"
        } else {
            "\u{25b8}"
        }
    } else {
        "\u{b7}"
    };
    push_str(&mut out, ind);
    out
}

} // verus!
