use comrak::nodes::{AstNode, NodeValue};
use comrak::options::ListStyleType;
use comrak::{format_commonmark, parse_document, Arena, Options};
use zed_dl::changelog::{apply_plan, plan_link_rewrites, strip_links, MdNode, NodeKind};
use zed_dl::matcher::AttachmentRef;
use zed_dl::materialize::{materialize, Materialized};
use zed_dl::pipeline::locate;

fn text(t: &str, depth: usize) -> MdNode {
    MdNode { kind: NodeKind::Text(t.to_string()), depth }
}

fn link(depth: usize) -> MdNode {
    MdNode { kind: NodeKind::Link("http://example.com".to_string()), depth }
}

fn other(depth: usize) -> MdNode {
    MdNode { kind: NodeKind::Other, depth }
}

fn describe(nodes: &[MdNode]) -> Vec<String> {
    nodes
        .iter()
        .map(|n| match &n.kind {
            NodeKind::Text(t) => format!("{}:text:{t}", n.depth),
            NodeKind::Link(u) => format!("{}:link:{u}", n.depth),
            NodeKind::Other => format!("{}:other", n.depth),
        })
        .collect()
}

fn options() -> Options<'static> {
    let mut o = Options::default();
    o.extension.autolink = false;
    o.render.list_style = ListStyleType::Star;
    o.render.prefer_fenced = true;
    o.render.ignore_empty_links = true;
    o
}

fn strip_markdown(body: &str) -> String {
    let arena = Arena::new();
    let opts = options();
    let root = parse_document(&arena, body, &opts);
    let handles: Vec<&AstNode> = root.descendants().collect();
    let nodes: Vec<MdNode> = handles
        .iter()
        .map(|n| MdNode {
            kind: match &n.data.borrow().value {
                NodeValue::Text(t) => NodeKind::Text(t.to_string()),
                NodeValue::Link(l) => NodeKind::Link(l.url.clone()),
                _ => NodeKind::Other,
            },
            depth: n.ancestors().skip(1).count(),
        })
        .collect();
    let plan = plan_link_rewrites(&nodes);
    for r in &plan.relabels {
        handles[r.index].data.borrow_mut().value = NodeValue::Text(r.label.clone().into());
    }
    for d in &plan.detaches {
        handles[*d].detach();
    }
    let mut out = String::new();
    format_commonmark(root, &opts, &mut out).unwrap();
    out
}

// Document > Paragraph > [Text "See ", Link > Text "docs", Text " for details"]
fn see_docs() -> Vec<MdNode> {
    vec![other(0), other(1), text("See ", 2), link(2), text("docs", 3), text(" for details", 2)]
}

#[test]
fn plan_gathers_links_and_their_text_children() {
    let plan = plan_link_rewrites(&see_docs());
    assert_eq!(plan.relabels.len(), 1);
    assert_eq!(plan.relabels[0].index, 3);
    assert_eq!(plan.relabels[0].label, "docs");
    assert_eq!(plan.detaches, vec![4]);
}

#[test]
fn link_without_text_child_gets_empty_label() {
    // Link > Emph > Text "x": the first child is not a text run.
    let nodes = vec![other(0), other(1), link(2), other(3), text("x", 4)];
    let plan = plan_link_rewrites(&nodes);
    assert_eq!(plan.relabels.len(), 1);
    assert_eq!(plan.relabels[0].label, "");
    assert!(plan.detaches.is_empty());
    assert_eq!(
        describe(&strip_links(&nodes)),
        vec!["0:other", "1:other", "2:text:", "3:other", "4:text:x"]
    );
    // A link with no children at all.
    let plan = plan_link_rewrites(&vec![other(0), link(1)]);
    assert_eq!(plan.relabels[0].label, "");
    assert!(plan.detaches.is_empty());
}

#[test]
fn strip_links_replaces_link_by_label() {
    let out = strip_links(&see_docs());
    assert_eq!(
        describe(&out),
        vec!["0:other", "1:other", "2:text:See ", "2:text:docs", "2:text: for details"]
    );
}

#[test]
fn strip_links_is_idempotent_on_example() {
    let once = strip_links(&see_docs());
    let twice = strip_links(&once);
    assert_eq!(describe(&once), describe(&twice));
}

#[test]
fn document_without_links_is_unchanged() {
    let nodes = vec![other(0), other(1), text("a", 2), other(1), other(2), text("b", 3)];
    assert_eq!(describe(&strip_links(&nodes)), describe(&nodes));
    let plan = plan_link_rewrites(&nodes);
    assert!(plan.relabels.is_empty() && plan.detaches.is_empty());
}

#[test]
fn text_sibling_after_link_is_not_a_child() {
    // Link with no children followed by a sibling text at the same depth.
    let nodes = vec![other(0), link(1), text("after", 1)];
    let plan = plan_link_rewrites(&nodes);
    assert_eq!(plan.relabels[0].label, "");
    assert!(plan.detaches.is_empty());
    assert_eq!(describe(&strip_links(&nodes)), vec!["0:other", "1:text:", "1:text:after"]);
}

#[test]
fn changelog_link_becomes_plain_text() {
    let out = strip_markdown("See [docs](http://example.com) for details");
    assert_eq!(out.trim_end(), "See docs for details");
    assert_eq!(strip_markdown(&out), out);
}

#[test]
fn changelog_without_links_keeps_its_text() {
    let out = strip_markdown("# Title\n\n- one\n- two\n");
    assert_eq!(out, "# Title\n\n* one\n* two\n");
    assert_eq!(strip_markdown(&out), out);
}

#[test]
fn bare_url_is_not_a_link() {
    let out = strip_markdown("see http://example.com now");
    assert_eq!(out.trim_end(), "see http://example.com now");
}

#[test]
fn vulkan_end_to_end() {
    let atts = vec![AttachmentRef { name: "zed.exe".to_string(), location: "loc".to_string() }];
    let att = locate("Vulkan", "v1", &atts).unwrap();
    assert_eq!(att.name, "zed.exe");
    let fetched = vec![0x4d, 0x5a, 0x90, 0x00];
    match materialize(&att.name, fetched.clone()).unwrap() {
        Materialized::Executable { name, bytes } => {
            assert_eq!(name, "zed.exe");
            assert_eq!(bytes, fetched);
        }
        other => panic!("unexpected {other:?}"),
    }
    assert_eq!(strip_markdown("Fixed [bug](http://x)").trim_end(), "Fixed bug");
}

#[test]
fn apply_plan_rewrites_then_detaches() {
    // Two links in one paragraph; the second has an emphasised label.
    let nodes = vec![
        other(0),
        other(1),
        link(2),
        text("a", 3),
        text(" and ", 2),
        link(2),
        other(3),
        text("b", 4),
    ];
    let plan = plan_link_rewrites(&nodes);
    assert_eq!(plan.relabels.iter().map(|r| r.index).collect::<Vec<_>>(), vec![2, 5]);
    assert_eq!(plan.detaches, vec![3]);
    let out = apply_plan(&nodes, &plan);
    assert_eq!(
        describe(&out),
        vec!["0:other", "1:other", "2:text:a", "2:text: and ", "2:text:", "3:other", "4:text:b"]
    );
    assert_eq!(describe(&out), describe(&strip_links(&nodes)));
}
