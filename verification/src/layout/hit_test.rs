//! Which element is hit at a point.

use vstd::prelude::*;
use vstd::string::*;

use crate::layout::element::{attribute_text, attribute_value, ElementRecord};
use crate::layout::projection::ProjectionNode;
use crate::layout::snapshot::{is_node_of, DocumentLayoutSnapshotNode};
use crate::text::{trim, trimmed};

verus! {

/// What is hit at a point.
#[derive(Debug)]
pub enum HitTestResult {
    /// No element.
    Outside,
    /// The element with the handle.
    Handle(String),
}

/// What is hit where `topmost` is in front: the element with its handle; nothing without an element
/// or without a handle.
pub open spec fn hit_handle(topmost: Option<ElementRecord>) -> Option<Seq<char>> {
    match topmost {
        Some(element) => match attribute_text(element.attributes@, "data-theorem-id"@) {
            Some(handle) => if trimmed(handle).len() > 0 {
                Some(handle)
            } else {
                None
            },
            None => None,
        },
        None => None,
    }
}

/// What is hit: `painted` holds the places of the elements at the point, front to back.
pub fn query(elements: &Vec<ElementRecord>, painted: &Vec<usize>) -> (result: HitTestResult)
    requires
        forall|i: int| 0 <= i < painted@.len() ==> #[trigger] painted@[i] < elements@.len(),
    ensures
        match hit_handle(
            if painted@.len() > 0 {
                Some(elements@[painted@[0] as int])
            } else {
                None
            },
        ) {
            Some(handle) => result matches HitTestResult::Handle(own) && own@ == handle,
            None => result is Outside,
        },
{
    if painted.len() == 0 {
        return HitTestResult::Outside;
    }
    assert(painted@[0] < elements@.len());
    match attribute_value(&elements[painted[0]], "data-theorem-id") {
        Some(handle) => {
            if trim(handle.as_str()).unicode_len() > 0 {
                HitTestResult::Handle(handle)
            } else {
                HitTestResult::Outside
            }
        },
        None => HitTestResult::Outside,
    }
}

/// A hit on an element and a snapshot of it report the same handle.
pub proof fn hits_report_the_handle_of_the_snapshot(
    node: DocumentLayoutSnapshotNode,
    elements: Seq<ElementRecord>,
    i: int,
    layouts: Seq<ProjectionNode>,
)
    requires
        0 <= i < elements.len(),
        is_node_of(node, elements, i, layouts),
    ensures
        trimmed(node.handle@).len() > 0 ==> hit_handle(Some(elements[i])) == Some(node.handle@),
        hit_handle(Some(elements[i])) matches Some(handle) ==> handle == node.handle@,
{
}

} // verus!
