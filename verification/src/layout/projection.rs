//! What the layout of a document says about each of its nodes.

use std::collections::HashMap;

use vstd::prelude::*;
use vstd::string::*;

use crate::error::{copy_option_text, option_text};
use crate::layout::rect::{joined_rects, limited, union_optional_rect, DocumentLayoutRect};

verus! {

broadcast use vstd::std_specs::hash::group_hash_axioms;

/// Computed values of a node, where it has a style.
#[derive(Debug)]
pub struct DocumentLayoutComputedStyle {
    pub display: Option<String>,
    pub visibility: Option<String>,
    pub position: Option<String>,
    pub overflow_x: Option<String>,
    pub overflow_y: Option<String>,
    pub opacity: Option<String>,
    pub pointer_events: Option<String>,
    pub cursor: Option<String>,
    pub white_space: Option<String>,
    pub font_size: Option<String>,
}

impl DocumentLayoutComputedStyle {
    /// A copy of the values.
    pub fn copy(&self) -> (copy: Self)
        ensures
            copy == *self,
    {
        DocumentLayoutComputedStyle {
            display: copy_option_text(&self.display),
            visibility: copy_option_text(&self.visibility),
            position: copy_option_text(&self.position),
            overflow_x: copy_option_text(&self.overflow_x),
            overflow_y: copy_option_text(&self.overflow_y),
            opacity: copy_option_text(&self.opacity),
            pointer_events: copy_option_text(&self.pointer_events),
            cursor: copy_option_text(&self.cursor),
            white_space: copy_option_text(&self.white_space),
            font_size: copy_option_text(&self.font_size),
        }
    }

    /// No values.
    pub open spec fn nothing() -> Self {
        DocumentLayoutComputedStyle {
            display: None,
            visibility: None,
            position: None,
            overflow_x: None,
            overflow_y: None,
            opacity: None,
            pointer_events: None,
            cursor: None,
            white_space: None,
            font_size: None,
        }
    }
}

impl Default for DocumentLayoutComputedStyle {
    fn default() -> (style: Self)
        ensures
            style == Self::nothing(),
    {
        DocumentLayoutComputedStyle {
            display: None,
            visibility: None,
            position: None,
            overflow_x: None,
            overflow_y: None,
            opacity: None,
            pointer_events: None,
            cursor: None,
            white_space: None,
            font_size: None,
        }
    }
}

/// Which node a fragment belongs to.
#[derive(Clone, Copy, Debug, PartialEq, Eq, Structural)]
pub struct Tag {
    /// The node's address.
    pub node: u64,
    /// The fragment belongs to one of the node's pseudo-elements.
    pub pseudo_element: bool,
}

/// A fragment of the laid out document.
#[derive(Debug)]
pub struct Fragment {
    pub tag: Option<Tag>,
    pub computed: Option<DocumentLayoutComputedStyle>,
    /// The border box.
    pub border_rect: Option<DocumentLayoutRect>,
    /// The padding box.
    pub padding_rect: Option<DocumentLayoutRect>,
    /// The scrollable overflow, of a box only.
    pub overflow_rect: Option<DocumentLayoutRect>,
}

/// What the layout says about a node.
#[derive(Debug)]
pub struct ProjectionNode {
    pub node: u64,
    pub bbox: Option<DocumentLayoutRect>,
    pub client_rect: Option<DocumentLayoutRect>,
    pub scroll_rect: Option<DocumentLayoutRect>,
    pub paint_order: Option<u32>,
    pub stacking_context: Option<u32>,
    pub computed: DocumentLayoutComputedStyle,
    pub visible: bool,
    pub scrollable: bool,
}

/// The nodes in the order in which they first came up, and their places.
#[derive(Debug)]
pub struct Projection {
    pub nodes: Vec<ProjectionNode>,
    pub node_indices: HashMap<u64, usize>,
}

/// The value is not the text.
pub open spec fn is_not(value: Option<String>, text: Seq<char>) -> bool {
    option_text(value) != Some(text)
}

/// A node with these boxes and style can be seen: it covers pixels, and it is neither hidden nor
/// transparent.
pub open spec fn is_visible(
    bbox: Option<DocumentLayoutRect>,
    computed: DocumentLayoutComputedStyle,
) -> bool {
    bbox matches Some(rect) && rect.width > 0 && rect.height > 0 && is_not(
        computed.visibility,
        "hidden"@,
    ) && is_not(computed.visibility, "collapse"@) && is_not(computed.opacity, "0"@)
}

/// A node with these boxes can be scrolled: its content is larger than itself.
pub open spec fn is_scrollable(
    client: Option<DocumentLayoutRect>,
    scroll: Option<DocumentLayoutRect>,
) -> bool {
    match (client, scroll) {
        (Some(client), Some(scroll)) => scroll.width > client.width || scroll.height
            > client.height,
        _ => false,
    }
}

/// A node as it first comes up.
pub open spec fn first_seen(address: u64, fragment: Fragment) -> ProjectionNode {
    ProjectionNode {
        node: address,
        bbox: None,
        client_rect: None,
        scroll_rect: None,
        paint_order: None,
        stacking_context: None,
        computed: match fragment.computed {
            Some(computed) => computed,
            None => DocumentLayoutComputedStyle::nothing(),
        },
        visible: false,
        scrollable: false,
    }
}

/// What is known about a node once a fragment is added. The area that can be scrolled is kept only
/// while the node is scrollable.
pub open spec fn with_fragment(before: ProjectionNode, fragment: Fragment) -> ProjectionNode {
    let bbox = joined_rects(before.bbox, fragment.border_rect);
    let client_rect = joined_rects(before.client_rect, fragment.padding_rect);
    let scroll = joined_rects(before.scroll_rect, fragment.overflow_rect);
    let scrollable = is_scrollable(client_rect, scroll);
    ProjectionNode {
        node: before.node,
        bbox,
        client_rect,
        scroll_rect: if scrollable {
            scroll
        } else {
            None
        },
        paint_order: before.paint_order,
        stacking_context: before.stacking_context,
        computed: before.computed,
        visible: is_visible(bbox, before.computed),
        scrollable,
    }
}

/// Place `i` has the node.
pub open spec fn node_at(nodes: Seq<ProjectionNode>, address: u64, i: int) -> bool {
    0 <= i < nodes.len() && nodes[i].node == address
}

/// The nodes once a fragment is added.
pub open spec fn collected(nodes: Seq<ProjectionNode>, fragment: Fragment) -> Seq<ProjectionNode> {
    match told_node(fragment.tag) {
        None => nodes,
        Some(address) => if exists|i: int| node_at(nodes, address, i) {
            let i = choose|i: int| node_at(nodes, address, i);
            nodes.update(i, with_fragment(nodes[i], fragment))
        } else {
            nodes.push(with_fragment(first_seen(address, fragment), fragment))
        },
    }
}

/// The nodes once all fragments are added.
pub open spec fn collected_all(fragments: Seq<Fragment>) -> Seq<ProjectionNode>
    decreases fragments.len(),
{
    if fragments.len() == 0 {
        seq![]
    } else {
        collected(collected_all(fragments.drop_last()), fragments.last())
    }
}

/// The node that a fragment tells about: none without a tag, or for a pseudo-element.
pub open spec fn told_node(tag: Option<Tag>) -> Option<u64> {
    match tag {
        Some(tag) => if tag.pseudo_element {
            None
        } else {
            Some(tag.node)
        },
        None => None,
    }
}

pub(crate) fn told(tag: &Option<Tag>) -> (node: Option<u64>)
    ensures
        node == told_node(*tag),
{
    match tag {
        Some(tag) => if tag.pseudo_element {
            None
        } else {
            Some(tag.node)
        },
        None => None,
    }
}

fn is_text(value: &Option<String>, text: &str) -> (is: bool)
    ensures
        is == !is_not(*value, text@),
{
    match value {
        Some(value) => *value == text.to_owned(),
        None => false,
    }
}

/// A fragment whose boxes lie within the limit.
pub open spec fn fragment_limited(fragment: Fragment) -> bool {
    &&& limited(fragment.border_rect)
    &&& limited(fragment.padding_rect)
    &&& limited(fragment.overflow_rect)
}

/// A node whose boxes lie within the limit.
pub open spec fn node_limited(node: ProjectionNode) -> bool {
    &&& limited(node.bbox)
    &&& limited(node.client_rect)
    &&& limited(node.scroll_rect)
}

impl Projection {
    /// Every node has its place noted and no other number is; boxes lie within the limit.
    pub open spec fn wf(&self) -> bool {
        &&& forall|i: int|
            0 <= i < self.nodes@.len() ==> self.node_indices@.contains_key(
                (#[trigger] self.nodes@[i]).node,
            ) && self.node_indices@[self.nodes@[i].node] == i && node_limited(self.nodes@[i])
        &&& forall|address: u64| #[trigger]
            self.node_indices@.contains_key(address) ==> self.node_indices@[address]
                < self.nodes@.len() && self.nodes@[self.node_indices@[address] as int].node
                == address
    }

    /// Nothing is known.
    pub fn new() -> (projection: Self)
        ensures
            projection.wf(),
            projection.nodes@.len() == 0,
    {
        Projection { nodes: Vec::new(), node_indices: HashMap::new() }
    }

    /// Adds what a fragment tells about its node.
    pub fn collect_fragment(&mut self, fragment: &Fragment)
        requires
            old(self).wf(),
            fragment_limited(*fragment),
        ensures
            final(self).wf(),
            final(self).nodes@ == collected(old(self).nodes@, *fragment),
    {
        let address = match told(&fragment.tag) {
            Some(address) => address,
            None => return ,
        };
        let ghost nodes = self.nodes@;
        let index: usize = match self.node_indices.get(&address) {
            Some(index) => *index,
            None => {
                let computed = match &fragment.computed {
                    Some(computed) => computed.copy(),
                    None => DocumentLayoutComputedStyle::default(),
                };
                let index: usize = self.nodes.len();
                self.nodes.push(
                    ProjectionNode {
                        node: address,
                        bbox: None,
                        client_rect: None,
                        scroll_rect: None,
                        paint_order: None,
                        stacking_context: None,
                        computed,
                        visible: false,
                        scrollable: false,
                    },
                );
                self.node_indices.insert(address, index);
                index
            },
        };
        let ghost listed = self.nodes@;
        proof {
            assert(node_limited(listed[index as int]));
        }
        add_fragment(&mut self.nodes[index], fragment);
        proof {
            let after = self.nodes@[index as int];
            assert(self.nodes@ =~= listed.update(index as int, after));
            if old(self).node_indices@.contains_key(address) {
                assert(node_at(nodes, address, index as int));
                let i = choose|i: int| node_at(nodes, address, i);
                assert(node_at(nodes, address, i));
                assert(nodes[i].node == address);
                assert(i == index);
            } else {
                assert(listed[index as int] == first_seen(address, *fragment));
                assert forall|i: int| !node_at(nodes, address, i) by {
                    if node_at(nodes, address, i) {
                        assert(old(self).node_indices@.contains_key(nodes[i].node));
                    }
                }
                assert(self.nodes@ =~= nodes.push(after));
            }
        }
    }
}

/// Adds what a fragment tells to what is known about its node.
fn add_fragment(node: &mut ProjectionNode, fragment: &Fragment)
    requires
        node_limited(*old(node)),
        fragment_limited(*fragment),
    ensures
        node_limited(*final(node)),
        *final(node) == with_fragment(*old(node), *fragment),
{
    node.bbox = union_optional_rect(node.bbox, fragment.border_rect);
    node.client_rect = union_optional_rect(node.client_rect, fragment.padding_rect);
    let scroll = union_optional_rect(node.scroll_rect, fragment.overflow_rect);
    node.visible = match node.bbox {
        Some(rect) => rect.width > 0 && rect.height > 0 && !is_text(
            &node.computed.visibility,
            "hidden",
        ) && !is_text(&node.computed.visibility, "collapse") && !is_text(
            &node.computed.opacity,
            "0",
        ),
        None => false,
    };
    node.scrollable = match (node.client_rect, scroll) {
        (Some(client), Some(scroll)) => scroll.width > client.width || scroll.height
            > client.height,
        _ => false,
    };
    node.scroll_rect = if node.scrollable {
        scroll
    } else {
        None
    };
}

} // verus!
