//! The snapshot of a document: its elements with what the layout says about them.

use vstd::prelude::*;
use vstd::string::*;

use crate::error::option_text;
use crate::layout::element::{
    attribute_map, attribute_text, attribute_value, attributes_of, control_text, enabled,
    is_enabled, name_of, name_text, non_empty, non_empty_text, role_of, role_text, test_id_of,
    test_id_text, value_of, ElementRecord,
};
use crate::layout::projection::{DocumentLayoutComputedStyle, ProjectionNode};
use crate::layout::rect::DocumentLayoutRect;
use crate::text::{lower_case, to_lower_case};
use crate::text_map::{contents_of, in_key_order, TextMap};

verus! {

/// Where a node of a snapshot comes from.
#[derive(Clone, Copy, Debug, PartialEq, Eq, Structural)]
pub enum DocumentLayoutSnapshotNodeSource {
    Dom,
    /// The node is fallback content of a canvas.
    CanvasFallback,
}

/// Why there is no snapshot.
#[derive(Clone, Copy, Debug, PartialEq, Eq, Structural)]
pub enum DocumentLayoutSnapshotError {
    LayoutUnavailable,
}

/// An element in a snapshot.
#[derive(Debug)]
pub struct DocumentLayoutSnapshotNode {
    pub handle: String,
    pub parent: Option<String>,
    pub tag: String,
    pub role: String,
    pub name: String,
    pub value: Option<String>,
    pub test_id: Option<String>,
    pub attributes: TextMap,
    pub bbox: Option<DocumentLayoutRect>,
    pub client_rect: Option<DocumentLayoutRect>,
    pub scroll_rect: Option<DocumentLayoutRect>,
    pub paint_order: Option<u32>,
    pub stacking_context: Option<u32>,
    pub computed: DocumentLayoutComputedStyle,
    pub visible: bool,
    pub enabled: bool,
    pub editable: bool,
    pub scrollable: bool,
    pub text: Option<String>,
    pub source: DocumentLayoutSnapshotNodeSource,
}

/// The elements are in document order: a parent comes before its children.
pub open spec fn in_document_order(elements: Seq<ElementRecord>) -> bool {
    forall|i: int|
        0 <= i < elements.len() ==> ((#[trigger] elements[i]).parent matches Some(parent) ==> parent
            < i)
}

/// The handles were written: every element has the attribute.
pub open spec fn has_handles(elements: Seq<ElementRecord>) -> bool {
    forall|i: int|
        0 <= i < elements.len() ==> attribute_text(
            (#[trigger] elements[i]).attributes@,
            "data-theorem-id"@,
        ) is Some
}

/// The nearest canvas around an element.
pub open spec fn enclosing_canvas(elements: Seq<ElementRecord>, i: int) -> Option<u64>
    decreases i,
{
    match elements[i].parent {
        Some(parent) => if 0 <= parent < i {
            if elements[parent as int].is_canvas {
                Some(elements[parent as int].node)
            } else {
                enclosing_canvas(elements, parent as int)
            }
        } else {
            None
        },
        None => None,
    }
}

/// The nearest canvas around an element, if any. What a canvas holds is its fallback content, which
/// is not laid out.
pub fn canvas_around(elements: &Vec<ElementRecord>, i: usize) -> (canvas: Option<u64>)
    requires
        in_document_order(elements@),
        i < elements.len(),
    ensures
        canvas == enclosing_canvas(elements@, i as int),
{
    let mut at: usize = i;
    loop
        invariant
            in_document_order(elements@),
            at < elements.len(),
            enclosing_canvas(elements@, at as int) == enclosing_canvas(elements@, i as int),
        decreases at,
    {
        assert(elements@[at as int].parent matches Some(parent) ==> parent < at);
        match elements[at].parent {
            Some(parent) => {
                if elements[parent].is_canvas {
                    return Some(elements[parent].node);
                }
                at = parent;
            },
            None => return None,
        }
    }
}

/// For each element the nearest canvas around it, if any.
pub fn canvas_fallback_by_node(elements: &Vec<ElementRecord>) -> (canvases: Vec<Option<u64>>)
    requires
        in_document_order(elements@),
    ensures
        canvases@.len() == elements@.len(),
        forall|i: int|
            0 <= i < canvases@.len() ==> (#[trigger] canvases@[i]) == enclosing_canvas(
                elements@,
                i,
            ),
{
    let mut canvases: Vec<Option<u64>> = Vec::new();
    let mut i: usize = 0;
    while i < elements.len()
        invariant
            in_document_order(elements@),
            i <= elements.len(),
            canvases@.len() == i,
            forall|k: int|
                0 <= k < i ==> (#[trigger] canvases@[k]) == enclosing_canvas(elements@, k),
        decreases elements.len() - i,
    {
        canvases.push(canvas_around(elements, i));
        i += 1;
    }
    canvases
}

/// What the layout says about a node; of several entries the last counts.
pub open spec fn layout_at(layouts: Seq<ProjectionNode>, address: u64) -> Option<ProjectionNode>
    decreases layouts.len(),
{
    if layouts.len() == 0 {
        None
    } else if layouts.last().node == address {
        Some(layouts.last())
    } else {
        layout_at(layouts.drop_last(), address)
    }
}

/// What the layout says about a node.
pub fn layout_of(layouts: &Vec<ProjectionNode>, address: u64) -> (layout: Option<&ProjectionNode>)
    ensures
        match layout {
            Some(layout) => layout_at(layouts@, address) == Some(*layout),
            None => layout_at(layouts@, address) is None,
        },
{
    let mut i: usize = layouts.len();
    assert(layouts@.take(i as int) =~= layouts@);
    while i > 0
        invariant
            i <= layouts.len(),
            layout_at(layouts@.take(i as int), address) == layout_at(layouts@, address),
        decreases i,
    {
        let ghost part = layouts@.take(i as int);
        assert(part.drop_last() =~= layouts@.take(i - 1));
        if layouts[i - 1].node == address {
            return Some(&layouts[i - 1]);
        }
        i -= 1;
    }
    None
}

/// The canvas's box where the canvas has one, else the node's own.
pub open spec fn first_rect(
    canvas: Option<DocumentLayoutRect>,
    own: Option<DocumentLayoutRect>,
) -> Option<DocumentLayoutRect> {
    if canvas is Some {
        canvas
    } else {
        own
    }
}

/// The node is that of element `i`, laid out as `layouts` says. Fallback content of a canvas has the
/// bounds of the canvas.
pub open spec fn is_node_of(
    node: DocumentLayoutSnapshotNode,
    elements: Seq<ElementRecord>,
    i: int,
    layouts: Seq<ProjectionNode>,
) -> bool {
    let element = elements[i];
    let layout = layout_at(layouts, element.node);
    let canvas = enclosing_canvas(elements, i);
    let canvas_layout = match canvas {
        Some(address) => layout_at(layouts, address),
        None => None,
    };
    let tag = lower_case(element.local_name@);
    &&& Some(node.handle@) == attribute_text(element.attributes@, "data-theorem-id"@)
    &&& option_text(node.parent) == match element.parent {
        Some(parent) => attribute_text(
            elements[parent as int].attributes@,
            "data-theorem-id"@,
        ),
        None => None,
    }
    &&& node.tag@ == tag
    &&& node.role@ == role_text(element.attributes@, tag)
    &&& node.name@ == name_text(element)
    &&& option_text(node.value) == control_text(element.control)
    &&& option_text(node.test_id) == test_id_text(element.attributes@)
    &&& in_key_order(node.attributes.items@)
    &&& contents_of(node.attributes.items@) == attribute_map(element.attributes@)
    &&& node.bbox == first_rect(
        match canvas_layout {
            Some(canvas) => canvas.bbox,
            None => None,
        },
        match layout {
            Some(layout) => layout.bbox,
            None => None,
        },
    )
    &&& node.client_rect == first_rect(
        match canvas_layout {
            Some(canvas) => canvas.client_rect,
            None => None,
        },
        match layout {
            Some(layout) => layout.client_rect,
            None => None,
        },
    )
    &&& match layout {
        Some(layout) => {
            &&& node.scroll_rect == layout.scroll_rect
            &&& node.paint_order == layout.paint_order
            &&& node.stacking_context == layout.stacking_context
            &&& node.computed == layout.computed
            &&& node.scrollable == layout.scrollable
        },
        None => {
            &&& node.scroll_rect is None
            &&& node.paint_order is None
            &&& node.stacking_context is None
            &&& node.computed == DocumentLayoutComputedStyle::nothing()
            &&& !node.scrollable
        },
    }
    &&& node.visible == match (canvas_layout, layout) {
        (Some(canvas), _) => canvas.visible,
        (None, Some(layout)) => layout.visible,
        (None, None) => false,
    }
    &&& node.enabled == is_enabled(element)
    &&& node.editable == element.is_editable
    &&& option_text(node.text) == non_empty_text(element.child_text@)
    &&& node.source == if canvas is Some {
        DocumentLayoutSnapshotNodeSource::CanvasFallback
    } else {
        DocumentLayoutSnapshotNodeSource::Dom
    }
}

/// The node of element `i`. `canvas` is the nearest canvas around it.
pub fn build_node(
    elements: &Vec<ElementRecord>,
    i: usize,
    layouts: &Vec<ProjectionNode>,
    canvas: Option<u64>,
) -> (node: DocumentLayoutSnapshotNode)
    requires
        in_document_order(elements@),
        has_handles(elements@),
        i < elements.len(),
        canvas == enclosing_canvas(elements@, i as int),
    ensures
        is_node_of(node, elements@, i as int, layouts@),
{
    let element = &elements[i];
    proof {
        assert(attribute_text(elements@[i as int].attributes@, "data-theorem-id"@) is Some);
        assert(elements@[i as int].parent matches Some(parent) ==> parent < i);
    }
    let layout = layout_of(layouts, element.node);
    let canvas_layout = match canvas {
        Some(address) => layout_of(layouts, address),
        None => None,
    };
    let handle = match attribute_value(element, "data-theorem-id") {
        Some(handle) => handle,
        None => String::new(),
    };
    let parent = match element.parent {
        Some(parent) => attribute_value(&elements[parent], "data-theorem-id"),
        None => None,
    };
    let tag = to_lower_case(element.local_name.as_str());
    let role = role_of(element, &tag);
    let canvas_bbox = match canvas_layout {
        Some(canvas) => canvas.bbox,
        None => None,
    };
    let canvas_client_rect = match canvas_layout {
        Some(canvas) => canvas.client_rect,
        None => None,
    };
    let bbox = match (canvas_bbox, layout) {
        (Some(rect), _) => Some(rect),
        (None, Some(layout)) => layout.bbox,
        (None, None) => None,
    };
    let client_rect = match (canvas_client_rect, layout) {
        (Some(rect), _) => Some(rect),
        (None, Some(layout)) => layout.client_rect,
        (None, None) => None,
    };
    let visible = match (canvas_layout, layout) {
        (Some(canvas), _) => canvas.visible,
        (None, Some(layout)) => layout.visible,
        (None, None) => false,
    };
    let source = match canvas {
        Some(_) => DocumentLayoutSnapshotNodeSource::CanvasFallback,
        None => DocumentLayoutSnapshotNodeSource::Dom,
    };
    let (scroll_rect, paint_order, stacking_context, computed, scrollable) = match layout {
        Some(layout) => (
            layout.scroll_rect,
            layout.paint_order,
            layout.stacking_context,
            layout.computed.copy(),
            layout.scrollable,
        ),
        None => (None, None, None, DocumentLayoutComputedStyle::default(), false),
    };
    DocumentLayoutSnapshotNode {
        handle,
        parent,
        tag,
        role,
        name: name_of(element),
        value: value_of(element),
        test_id: test_id_of(element),
        attributes: attributes_of(element),
        bbox,
        client_rect,
        scroll_rect,
        paint_order,
        stacking_context,
        computed,
        visible,
        enabled: enabled(element),
        editable: element.is_editable,
        scrollable,
        text: non_empty(element.child_text.as_str()),
        source,
    }
}

/// The nodes of all elements, in document order. `projection` is what the layout says about the
/// nodes, where there is a layout.
pub fn capture(elements: &Vec<ElementRecord>, projection: &Option<Vec<ProjectionNode>>) -> (result:
    Result<Vec<DocumentLayoutSnapshotNode>, DocumentLayoutSnapshotError>)
    requires
        in_document_order(elements@),
        has_handles(elements@),
    ensures
        match projection {
            None => result matches Err(error) && error
                == DocumentLayoutSnapshotError::LayoutUnavailable,
            Some(layouts) => {
                &&& result matches Ok(nodes)
                &&& nodes@.len() == elements@.len()
                &&& forall|i: int|
                    0 <= i < nodes@.len() ==> is_node_of(
                        #[trigger] nodes@[i],
                        elements@,
                        i,
                        layouts@,
                    )
            },
        },
{
    let canvases = canvas_fallback_by_node(elements);
    let layouts = match projection {
        Some(layouts) => layouts,
        None => return Err(DocumentLayoutSnapshotError::LayoutUnavailable),
    };
    let mut nodes: Vec<DocumentLayoutSnapshotNode> = Vec::new();
    let mut i: usize = 0;
    while i < elements.len()
        invariant
            in_document_order(elements@),
            has_handles(elements@),
            i <= elements.len(),
            canvases@.len() == elements@.len(),
            forall|k: int|
                0 <= k < canvases@.len() ==> (#[trigger] canvases@[k]) == enclosing_canvas(
                    elements@,
                    k,
                ),
            nodes@.len() == i,
            forall|k: int|
                0 <= k < i ==> is_node_of(#[trigger] nodes@[k], elements@, k, layouts@),
        decreases elements.len() - i,
    {
        nodes.push(build_node(elements, i, layouts, canvases[i]));
        i += 1;
    }
    Ok(nodes)
}

/// Everything in a canvas is its fallback content: an element whose parent is fallback content, or
/// a canvas, is fallback content too.
pub proof fn fallback_content_holds_its_children(elements: Seq<ElementRecord>, i: int)
    requires
        in_document_order(elements),
        0 <= i < elements.len(),
        elements[i].parent is Some,
    ensures
        enclosing_canvas(elements, i) is Some <==> elements[elements[i].parent->0 as int].is_canvas
            || enclosing_canvas(elements, elements[i].parent->0 as int) is Some,
{
}

} // verus!
