use report::page::{Content, Report, Section as PageSection, ToHtml};
use report::report::{decimal_string, Html, LinkType, RenderContext, Renderable, ReportNode};

#[test]
fn decimal_digits() {
    assert_eq!(decimal_string(0), "0");
    assert_eq!(decimal_string(7), "7");
    assert_eq!(decimal_string(10), "10");
    assert_eq!(decimal_string(4294967295), "4294967295");
}

#[test]
fn html_context_descends_one_level() {
    let h = Html(1);
    assert_eq!(h.child_context().0, 2);
    assert!(matches!(h.default_link_type(), LinkType::Link));
}

#[test]
fn new_report_node_is_empty_section() {
    match ReportNode::new("Document") {
        ReportNode::Section(s) => {
            assert_eq!(s.id, "id");
            assert_eq!(s.title, "Document");
            assert!(s.children.is_empty());
        }
        ReportNode::Text(_) => panic!("expected a section"),
    }
}

#[test]
fn with_text_on_text_joins_lines() {
    let mut t = ReportNode::Text("one".to_string());
    t.with_text("two");
    match t {
        ReportNode::Text(s) => assert_eq!(s, "one\ntwo"),
        ReportNode::Section(_) => panic!("expected text"),
    }
}

#[test]
fn with_section_on_text_wraps_it() {
    let mut t = ReportNode::Text("body".to_string());
    t.with_section("Title");
    match t {
        ReportNode::Section(s) => {
            assert_eq!(s.title, "Title");
            assert_eq!(s.children.len(), 1);
            assert!(matches!(&s.children[0], ReportNode::Text(x) if x == "body"));
        }
        ReportNode::Text(_) => panic!("expected a section"),
    }
}

#[test]
fn render_document() {
    let mut report = ReportNode::new("Document");
    report.with_text("Hello").with_section("Subsection");
    assert_eq!(
        report.render(&mut Html(1)),
        "<h1>Document</h1>Hello\n<h2>Subsection</h2>"
    );
}

#[test]
fn render_nested_levels() {
    let mut report = ReportNode::new("A");
    report.with_section("B");
    if let ReportNode::Section(s) = &mut report {
        s.children[0].with_text("x").with_text("y");
    }
    assert_eq!(report.render(&mut Html(9)), "<h9>A</h9><h10>B</h10>x\ny");
}

#[test]
fn page_html() {
    let report = Report {
        title: "Report title".to_string(),
        children: vec![
            Content::Section(PageSection {
                title: "Section 1".to_string(),
                level: 1,
                children: vec![],
            }),
            Content::Html("Some html <b>text</b>".to_owned()),
            Content::Markdown("*m*".to_owned()),
        ],
    };
    assert_eq!(
        report.to_html(),
        "<html>\n<head>\n  <title>Report title</title>\n</head>\n<body>\n  \n  <h1>Section 1</h1>\n  \nSome html <b>text</b><pre>*m*</pre>\n</body>\n</html>\n"
    );
}

#[test]
fn negative_section_level() {
    let s = PageSection { title: "T".to_string(), level: -12, children: vec![] };
    assert_eq!(s.to_html(), "\n  <h-12>T</h-12>\n  \n");
}
