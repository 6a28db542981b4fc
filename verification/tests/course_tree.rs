use moodle_tui::course_tree::{build_course_tree_rows, CourseTreeNodeKind};
use moodle_tui::models::{CourseModule, CourseSection};

#[test]
fn empty_sections_emit_placeholder() {
    let rows = build_course_tree_rows(&[], &Vec::new());
    assert_eq!(rows.len(), 1);
    assert_eq!(rows[0].id, "empty");
}

#[test]
fn collapsed_section_hides_children() {
    let section = CourseSection {
        id: 1,
        name: Some("Week 1".into()),
        section: Some(1),
        summary: None,
        visible: Some(1),
        modules: vec![CourseModule {
            id: 10,
            instance: None,
            name: "Forum".into(),
            modname: Some("forum".into()),
            description: None,
            url: Some("https://x".into()),
            visible: Some(1),
            contents: vec![],
        }],
    };
    let collapsed = vec!["section:1".to_owned()];
    let rows = build_course_tree_rows(&[section], &collapsed);
    assert_eq!(rows.len(), 1);
    assert_eq!(rows[0].kind, CourseTreeNodeKind::Section);
    assert!(!rows[0].expanded);
}

fn module(id: i64, modname: &str, url: Option<&str>) -> CourseModule {
    CourseModule {
        id,
        instance: None,
        name: format!("Module {id}"),
        modname: Some(modname.into()),
        description: Some("<p>About it</p>".into()),
        url: url.map(Into::into),
        visible: Some(1),
        contents: vec![],
    }
}

#[test]
fn every_row_follows_its_open_parent_one_level_up() {
    let sections = vec![
        CourseSection {
            id: 1,
            name: Some("Week 1".into()),
            section: Some(1),
            summary: Some("<b>Intro</b>".into()),
            visible: Some(1),
            modules: vec![module(10, "forum", Some("https://x/10")), module(11, "label", None), module(12, "quiz", None)],
        },
        CourseSection { id: 2, name: None, section: None, summary: None, visible: Some(1), modules: vec![] },
    ];
    let collapsed = vec!["module:1:12".to_owned()];
    let rows = build_course_tree_rows(&sections, &collapsed);
    assert!(rows.len() > 5);
    for (i, row) in rows.iter().enumerate() {
        assert_eq!(row.expanded, row.collapsible && !collapsed.contains(&row.id));
        match &row.parent_id {
            None => assert_eq!(row.depth, 0),
            Some(parent) => assert!(rows[..i]
                .iter()
                .any(|p| &p.id == parent && p.depth + 1 == row.depth && p.expanded)),
        }
    }
    let quiz = rows.iter().find(|r| r.id == "module:1:12").unwrap();
    assert!(quiz.collapsible && !quiz.expanded);
    assert!(!rows.iter().any(|r| r.parent_id.as_deref() == Some("module:1:12")));
}

#[test]
fn row_ids_are_distinct_when_moodle_ids_are() {
    let mut with_contents = module(10, "resource", Some("https://x/10"));
    with_contents.contents = vec![
        moodle_tui::models::ModuleContentItem {
            kind: Some("file".into()),
            filename: Some("a.pdf".into()),
            filepath: None,
            filesize: None,
            fileurl: None,
            mimetype: None,
            timemodified: None,
            url: None,
        },
        moodle_tui::models::ModuleContentItem {
            kind: Some("file".into()),
            filename: Some("b.pdf".into()),
            filepath: None,
            filesize: None,
            fileurl: None,
            mimetype: None,
            timemodified: None,
            url: None,
        },
    ];
    let sections = vec![
        CourseSection {
            id: 1,
            name: None,
            section: Some(0),
            summary: Some("Intro".into()),
            visible: None,
            modules: vec![with_contents, module(11, "label", None)],
        },
        CourseSection {
            id: 12,
            name: None,
            section: Some(1),
            summary: None,
            visible: None,
            modules: vec![module(10, "forum", None)],
        },
        CourseSection { id: -3, name: None, section: None, summary: None, visible: None, modules: vec![] },
    ];
    let rows = build_course_tree_rows(&sections, &Vec::new());
    let mut ids: Vec<&str> = rows.iter().map(|r| r.id.as_str()).collect();
    let count = ids.len();
    ids.sort();
    ids.dedup();
    assert_eq!(ids.len(), count);
    assert!(rows.iter().any(|r| r.id == "content:1:10:1"));
    assert!(rows.iter().any(|r| r.id == "section-empty:-3"));
}
