//! Snapshots of layout, hit tests and content processes.

use weblayer::layout::element::{
    attribute_value, attributes_of, enabled, name_of, non_empty, role_of, test_id_of, value_of,
    Attribute, Control, ElementRecord,
};
use weblayer::layout::handles::stamp_document_handles;
use weblayer::layout::hit_test::{query, HitTestResult};
use weblayer::layout::paint::{
    build_document_layout_snapshot_projection, PaintJoin, PaintStep,
};
use weblayer::layout::projection::{
    DocumentLayoutComputedStyle, Fragment, Projection, ProjectionNode, Tag,
};
use weblayer::layout::rect::{union_optional_rect, DocumentLayoutRect};
use weblayer::layout::snapshot::{
    canvas_fallback_by_node, capture, DocumentLayoutSnapshotError,
    DocumentLayoutSnapshotNodeSource,
};
use weblayer::process_manager::{Process, ProcessManager};
use weblayer::text::trim;

fn rect(x: i32, y: i32, width: i32, height: i32) -> DocumentLayoutRect {
    DocumentLayoutRect { x, y, width, height }
}

fn style(visibility: &str, opacity: &str) -> DocumentLayoutComputedStyle {
    DocumentLayoutComputedStyle {
        visibility: Some(visibility.to_owned()),
        opacity: Some(opacity.to_owned()),
        ..DocumentLayoutComputedStyle::default()
    }
}

fn fragment(node: u64, border: DocumentLayoutRect) -> Fragment {
    Fragment {
        tag: Some(Tag { node, pseudo_element: false }),
        computed: Some(style("visible", "1")),
        border_rect: Some(border),
        padding_rect: None,
        overflow_rect: None,
    }
}

fn paint(node: u64) -> PaintStep {
    PaintStep::Paint(Some(Tag { node, pseudo_element: false }))
}

#[test]
fn rectangles_join_to_the_smallest_around_them() {
    let join = |a, b| union_optional_rect(a, b);
    let (a, b) = (rect(0, 0, 10, 10), rect(20, -5, 5, 5));
    assert_eq!(join(Some(a), Some(b)), Some(rect(0, -5, 25, 15)));
    assert_eq!(join(None, Some(b)), Some(b));
    assert_eq!(join(Some(a), None), Some(a));
    assert_eq!(join(None, None), None);
    let (low, high) = (rect(-0x3fff_ffff, 0, 1, 1), rect(0x3fff_fffe, 0, 1, 1));
    assert_eq!(join(Some(low), Some(high)), Some(rect(-0x3fff_ffff, 0, 0x7fff_fffe, 1)));
    // What has no pixels adds nothing.
    let empty = rect(100, 100, 0, 7);
    assert_eq!(join(Some(a), Some(empty)), Some(a));
    assert_eq!(join(Some(empty), Some(a)), Some(a));
    assert_eq!(join(Some(empty), Some(rect(1, 1, 0, 0))), Some(empty));
}

#[test]
fn the_fragments_of_a_node_are_collected() {
    let mut projection = Projection::new();
    projection.collect_fragment(&fragment(1, rect(0, 0, 10, 10)));
    projection.collect_fragment(&fragment(2, rect(5, 5, 0, 10)));
    projection.collect_fragment(&fragment(1, rect(0, 20, 10, 10)));
    projection.collect_fragment(&Fragment { tag: None, ..fragment(3, rect(0, 0, 1, 1)) });
    projection.collect_fragment(&Fragment {
        tag: Some(Tag { node: 3, pseudo_element: true }),
        ..fragment(3, rect(0, 0, 1, 1))
    });
    assert_eq!(projection.nodes.len(), 2);
    assert_eq!(projection.nodes[0].node, 1);
    assert_eq!(projection.nodes[0].bbox, Some(rect(0, 0, 10, 30)));
    assert!(projection.nodes[0].visible);
    assert_eq!(projection.nodes[1].node, 2);
    assert!(!projection.nodes[1].visible);
}

#[test]
fn hidden_and_transparent_nodes_are_not_visible() {
    for (visibility, opacity, visible) in [
        ("visible", "1", true),
        ("visible", "0.5", true),
        ("hidden", "1", false),
        ("collapse", "1", false),
        ("visible", "0", false),
    ] {
        let mut projection = Projection::new();
        projection.collect_fragment(&Fragment {
            computed: Some(style(visibility, opacity)),
            ..fragment(1, rect(0, 0, 1, 1))
        });
        assert_eq!(projection.nodes[0].visible, visible);
    }
}

#[test]
fn a_node_is_scrollable_while_its_content_is_larger() {
    let scrolling = |padding, overflow| Fragment {
        padding_rect: Some(padding),
        overflow_rect: Some(overflow),
        ..fragment(1, rect(0, 0, 100, 100))
    };
    let mut projection = Projection::new();
    projection.collect_fragment(&scrolling(rect(0, 0, 100, 100), rect(0, 0, 100, 100)));
    assert!(!projection.nodes[0].scrollable);
    assert_eq!(projection.nodes[0].scroll_rect, None);
    projection.collect_fragment(&scrolling(rect(0, 0, 100, 100), rect(0, 0, 100, 300)));
    assert!(projection.nodes[0].scrollable);
    assert_eq!(projection.nodes[0].scroll_rect, Some(rect(0, 0, 100, 300)));
    assert_eq!(projection.nodes[0].client_rect, Some(rect(0, 0, 100, 100)));
}

#[test]
fn painting_numbers_nodes_and_stacking_contexts() {
    let fragments = vec![
        fragment(1, rect(0, 0, 1, 1)),
        fragment(2, rect(0, 0, 1, 1)),
        fragment(3, rect(0, 0, 1, 1)),
    ];
    let steps = vec![
        PaintStep::EnterStackingContext,
        PaintStep::Paint(None),
        paint(1),
        PaintStep::EnterStackingContext,
        paint(2),
        PaintStep::LeaveStackingContext,
        paint(1),
        paint(9),
        PaintStep::LeaveStackingContext,
    ];
    let nodes = build_document_layout_snapshot_projection(&fragments, &steps);
    let painted: Vec<(Option<u32>, Option<u32>)> =
        nodes.iter().map(|node| (node.paint_order, node.stacking_context)).collect();
    assert_eq!(painted, vec![(Some(3), Some(0)), (Some(2), Some(1)), (None, None)]);
}

#[test]
fn leaving_a_stacking_context_returns_to_the_one_around_it() {
    let mut join = PaintJoin::new();
    join.visit_stacking_context();
    join.visit_stacking_context();
    assert_eq!(join.current_stacking_context, 1);
    join.leave_stacking_context();
    assert_eq!(join.current_stacking_context, 0);
    join.visit_stacking_context();
    assert_eq!(join.current_stacking_context, 2);
    assert_eq!(join.next_stacking_context, 3);
}

#[test]
fn handles_are_kept_or_numbered() {
    let existing: Vec<Option<String>> =
        [Some("a"), None, Some(" a "), Some("t0"), Some("  "), Some(" b ")]
            .into_iter()
            .map(|value| value.map(str::to_owned))
            .collect();
    let writes = stamp_document_handles(&existing);
    let expected: Vec<Option<String>> =
        [None, Some("t0"), Some("t1"), Some("t2"), Some("t3"), None]
            .into_iter()
            .map(|value| value.map(str::to_owned))
            .collect();
    assert_eq!(writes, expected);

    // Stamping again writes nothing.
    let stamped: Vec<Option<String>> = existing
        .into_iter()
        .zip(writes)
        .map(|(existing, write)| write.or(existing))
        .collect();
    assert!(stamp_document_handles(&stamped).iter().all(Option::is_none));
}

#[test]
fn white_space_is_trimmed_as_unicode_has_it() {
    for text in ["", " ", "\u{2003}a b\u{3000}", "\t\r\n\u{b}x\u{85}\u{a0}", "\u{200b}x", "ä "] {
        assert_eq!(trim(text), text.trim());
    }
    for code in 0..0x3100 {
        if let Some(c) = char::from_u32(code) {
            let text = format!("{c}");
            assert_eq!(trim(&text).is_empty(), c.is_whitespace(), "{code:x}");
        }
    }
}

fn attribute(name: &str, value: &str) -> Attribute {
    Attribute {
        in_namespace: false,
        local_name: name.to_owned(),
        name: name.to_owned(),
        value: value.to_owned(),
    }
}

fn element(node: u64, tag: &str, attributes: Vec<Attribute>) -> ElementRecord {
    ElementRecord {
        node,
        parent: None,
        is_canvas: tag == "canvas",
        local_name: tag.to_owned(),
        attributes,
        control: Control::Other,
        child_text: String::new(),
        descendant_text: String::new(),
        is_actually_disabled: false,
        is_editable: false,
    }
}

#[test]
fn attributes_are_read_by_name() {
    let mut xlink = attribute("href", "#x");
    xlink.in_namespace = true;
    xlink.name = "xlink:href".to_owned();
    let element = element(1, "a", vec![xlink, attribute("href", "/"), attribute("class", "c")]);
    assert_eq!(attribute_value(&element, "href"), Some("/".to_owned()));
    assert_eq!(attribute_value(&element, "id"), None);
    let attributes = attributes_of(&element);
    assert_eq!(attributes.keys(), vec!["class", "href", "xlink:href"]);
    assert_eq!(attributes.get(&"xlink:href".to_owned()), Some(&"#x".to_owned()));
}

#[test]
fn roles_come_from_the_attribute_or_the_tag() {
    let role = |tag: &str, attributes| role_of(&element(1, tag, attributes), &tag.to_owned());
    assert_eq!(role("div", vec![attribute("role", "BUTTON")]), "button");
    assert_eq!(role("a", vec![attribute("href", "/")]), "link");
    assert_eq!(role("a", vec![]), "a");
    assert_eq!(role("button", vec![]), "button");
    assert_eq!(role("textarea", vec![]), "textbox");
    assert_eq!(role("select", vec![]), "select");
    assert_eq!(role("input", vec![]), "text");
    assert_eq!(role("input", vec![attribute("type", "CheckBox")]), "checkbox");
    assert_eq!(role("p", vec![]), "p");
}

#[test]
fn names_join_the_labels_and_the_text() {
    let mut named = element(
        1,
        "input",
        vec![attribute("alt", "alt"), attribute("aria-label", " label"), attribute("title", "")],
    );
    named.descendant_text = "  some text ".to_owned();
    assert_eq!(name_of(&named), "label alt some text");
    assert_eq!(name_of(&element(1, "p", vec![])), "");
}

#[test]
fn values_texts_and_states_are_read() {
    let mut control = element(1, "input", vec![attribute("data-test", "t")]);
    assert_eq!(value_of(&control), None);
    for value in [
        Control::Input("v".to_owned()),
        Control::TextArea("v".to_owned()),
        Control::Select("v".to_owned()),
    ] {
        control.control = value;
        assert_eq!(value_of(&control), Some("v".to_owned()));
    }
    assert_eq!(test_id_of(&control), Some("t".to_owned()));
    control.attributes.push(attribute("data-test-id", "u"));
    assert_eq!(test_id_of(&control), Some("u".to_owned()));
    control.attributes.push(attribute("data-testid", "w"));
    assert_eq!(test_id_of(&control), Some("w".to_owned()));
    assert!(enabled(&control));
    control.attributes.push(attribute("aria-disabled", "True"));
    assert!(!enabled(&control));
    control.attributes.pop();
    control.is_actually_disabled = true;
    assert!(!enabled(&control));
    assert_eq!(non_empty("  x "), Some("x".to_owned()));
    assert_eq!(non_empty(" \n"), None);
}

fn layout(node: u64, bbox: DocumentLayoutRect) -> ProjectionNode {
    ProjectionNode {
        node,
        bbox: Some(bbox),
        client_rect: Some(bbox),
        scroll_rect: None,
        paint_order: Some(4),
        stacking_context: Some(1),
        computed: style("visible", "1"),
        visible: true,
        scrollable: false,
    }
}

fn document() -> Vec<ElementRecord> {
    let handle = |handle: &str| vec![attribute("data-theorem-id", handle)];
    let mut elements = vec![
        element(10, "BODY", handle("t0")),
        element(20, "canvas", handle("t1")),
        element(30, "p", handle("t2")),
        element(40, "b", handle("t3")),
    ];
    elements[1].parent = Some(0);
    elements[2].parent = Some(1);
    elements[3].parent = Some(2);
    elements
}

#[test]
fn a_snapshot_holds_every_element_with_its_layout() {
    let elements = document();
    let layouts = Some(vec![layout(10, rect(0, 0, 800, 600)), layout(20, rect(5, 5, 300, 150))]);
    let nodes = capture(&elements, &layouts).unwrap();
    assert_eq!(nodes.len(), 4);
    assert_eq!(nodes[0].handle, "t0");
    assert_eq!(nodes[0].parent, None);
    assert_eq!(nodes[0].tag, "body");
    assert_eq!(nodes[0].bbox, Some(rect(0, 0, 800, 600)));
    assert_eq!(nodes[0].paint_order, Some(4));
    assert_eq!(nodes[1].parent, Some("t0".to_owned()));
    assert_eq!(nodes[1].source, DocumentLayoutSnapshotNodeSource::Dom);
    // Fallback content has the bounds of its canvas.
    for node in &nodes[2..] {
        assert_eq!(node.source, DocumentLayoutSnapshotNodeSource::CanvasFallback);
        assert_eq!(node.bbox, Some(rect(5, 5, 300, 150)));
        assert_eq!(node.client_rect, Some(rect(5, 5, 300, 150)));
        assert!(node.visible);
        assert_eq!(node.paint_order, None);
        assert_eq!(node.computed.visibility, None);
    }
    assert_eq!(canvas_fallback_by_node(&elements), vec![None, None, Some(20), Some(20)]);
}

#[test]
fn without_layout_there_is_no_snapshot() {
    assert_eq!(
        capture(&document(), &None).unwrap_err(),
        DocumentLayoutSnapshotError::LayoutUnavailable
    );
}

#[test]
fn a_hit_answers_the_topmost_element() {
    let mut elements = document();
    let hit = |elements: &Vec<ElementRecord>, painted: Vec<usize>| match query(elements, &painted) {
        HitTestResult::Handle(handle) => Some(handle),
        HitTestResult::Outside => None,
    };
    assert_eq!(hit(&elements, vec![1, 0]), Some("t1".to_owned()));
    for (place, node) in capture(&elements, &Some(Vec::new())).unwrap().iter().enumerate() {
        assert_eq!(hit(&elements, vec![place]).as_ref(), Some(&node.handle));
    }
    assert_eq!(hit(&elements, vec![]), None);
    elements[1].attributes[0].value = " ".to_owned();
    assert_eq!(hit(&elements, vec![1, 0]), None);
    elements[1].attributes.clear();
    assert_eq!(hit(&elements, vec![1, 0]), None);
}

#[test]
fn sandboxed_process_keeps_parent_reporter_name() {
    let mut process = Process::sandboxed(42);
    assert_eq!(process.pid(), 42);
    assert_eq!(process.system_memory_reporter_name(), None);

    process.set_system_memory_reporter_name(Some("system-content-42".to_owned()));

    assert_eq!(process.system_memory_reporter_name(), Some("system-content-42"));
}

#[test]
fn the_last_process_takes_the_place_of_a_removed_one() {
    let mut manager = ProcessManager::new();
    let mut sandboxed = Process::sandboxed(1);
    sandboxed.set_system_memory_reporter_name(Some("reporter".to_owned()));
    manager.add("first", sandboxed);
    manager.add("second", Process::unsandboxed(2));
    manager.add("third", Process::unsandboxed(3));
    let removal = manager.remove(0);
    assert_eq!((removal.pid, removal.receiver), (1, "first"));
    assert_eq!(removal.unregister_reporter, Some("reporter".to_owned()));
    assert!(!removal.wait);
    assert_eq!(*manager.receiver_at(0), "third");
    assert_eq!(*manager.receiver_at(1), "second");
    let removal = manager.remove(1);
    assert_eq!((removal.pid, removal.unregister_reporter, removal.wait), (2, None, true));
    assert_eq!(manager.len(), 1);
}
