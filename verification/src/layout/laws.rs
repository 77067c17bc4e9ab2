//! What a snapshot says of an element, in terms of the fragments and of the painting.

use vstd::prelude::*;

use crate::error::option_text;
use crate::layout::element::{attribute_text, Attribute, ElementRecord};
use crate::layout::paint::{paint_order_counts, painted, paints, unpainted, PaintStep};
use crate::layout::projection::{
    collected_all, first_seen, fragment_limited, node_at, with_fragment,
    DocumentLayoutComputedStyle, Fragment, ProjectionNode, Tag,
};
use crate::layout::rect::{joined_rects, DocumentLayoutRect};
use crate::layout::snapshot::{
    enclosing_canvas, in_document_order, is_node_of, layout_at, DocumentLayoutSnapshotNode,
    DocumentLayoutSnapshotNodeSource,
};

verus! {

/// The fragment is one of the node itself, not of a pseudo-element.
pub open spec fn is_fragment_of(fragment: Fragment, address: u64) -> bool {
    fragment.tag matches Some(tag) && tag.node == address && !tag.pseudo_element
}

/// The rectangle covers pixels.
pub open spec fn has_pixels(rect: DocumentLayoutRect) -> bool {
    rect.width > 0 && rect.height > 0
}

/// The one rectangle lies in the other.
pub open spec fn within(inner: DocumentLayoutRect, outer: DocumentLayoutRect) -> bool {
    &&& outer.x <= inner.x
    &&& outer.y <= inner.y
    &&& inner.x + inner.width <= outer.x + outer.width
    &&& inner.y + inner.height <= outer.y + outer.height
}

/// One of the boxes of a fragment.
pub enum BoxPart {
    Border,
    Padding,
}

/// That box of the fragment.
pub open spec fn box_of(fragment: Fragment, part: BoxPart) -> Option<DocumentLayoutRect> {
    match part {
        BoxPart::Border => fragment.border_rect,
        BoxPart::Padding => fragment.padding_rect,
    }
}

/// Fragment `f` of the node has this box.
pub open spec fn has_box(
    fragments: Seq<Fragment>,
    address: u64,
    part: BoxPart,
    f: int,
    rect: DocumentLayoutRect,
) -> bool {
    0 <= f < fragments.len() && is_fragment_of(fragments[f], address) && box_of(fragments[f], part) == Some(
        rect,
    )
}

/// The rectangle is the smallest around the boxes of the node's fragments that cover pixels: it is
/// there where a fragment has a box, covers pixels where one of them does, holds all those that do,
/// and has each of its edges from one of them.
pub open spec fn spans(
    rect: Option<DocumentLayoutRect>,
    fragments: Seq<Fragment>,
    address: u64,
    part: BoxPart,
) -> bool {
    &&& rect is Some <==> exists|f: int, r: DocumentLayoutRect|
        has_box(fragments, address, part, f, r)
    &&& (rect matches Some(b) && has_pixels(b)) <==> exists|f: int, r: DocumentLayoutRect|
        has_box(fragments, address, part, f, r) && has_pixels(r)
    &&& rect matches Some(b) ==> {
        &&& b.in_limits()
        &&& forall|f: int, r: DocumentLayoutRect| #[trigger]
            has_box(fragments, address, part, f, r) && has_pixels(r) ==> within(r, b)
        &&& has_pixels(b) ==> {
            &&& exists|f: int, r: DocumentLayoutRect| #[trigger]
                has_box(fragments, address, part, f, r) && has_pixels(r) && r.x == b.x
            &&& exists|f: int, r: DocumentLayoutRect| #[trigger]
                has_box(fragments, address, part, f, r) && has_pixels(r) && r.y == b.y
            &&& exists|f: int, r: DocumentLayoutRect| #[trigger]
                has_box(fragments, address, part, f, r) && has_pixels(r) && r.x + r.width == b.x
                    + b.width
            &&& exists|f: int, r: DocumentLayoutRect| #[trigger]
                has_box(fragments, address, part, f, r) && has_pixels(r) && r.y + r.height == b.y
                    + b.height
        }
    }
}

/// Fragment `f` is the first of the node.
pub open spec fn is_first(fragments: Seq<Fragment>, address: u64, f: int) -> bool {
    &&& 0 <= f < fragments.len()
    &&& is_fragment_of(fragments[f], address)
    &&& forall|g: int| 0 <= g < f ==> !is_fragment_of(#[trigger] fragments[g], address)
}

/// The style that a fragment comes with.
pub open spec fn style_of(fragment: Fragment) -> DocumentLayoutComputedStyle {
    match fragment.computed {
        Some(computed) => computed,
        None => DocumentLayoutComputedStyle::nothing(),
    }
}

/// The style lets the node be seen.
pub open spec fn can_be_seen(style: DocumentLayoutComputedStyle) -> bool {
    &&& option_text(style.visibility) != Some("hidden"@)
    &&& option_text(style.visibility) != Some("collapse"@)
    &&& option_text(style.opacity) != Some("0"@)
}

/// A fragment of the node covers pixels with its border box.
pub open spec fn covers_pixels(fragments: Seq<Fragment>, address: u64) -> bool {
    exists|f: int, r: DocumentLayoutRect|
        has_box(fragments, address, BoxPart::Border, f, r) && has_pixels(r)
}

/// The area that can be scrolled is larger than the box, and is noted only then.
pub open spec fn scrolls_soundly(node: ProjectionNode) -> bool {
    &&& node.scrollable <==> node.scroll_rect is Some
    &&& node.scroll_rect matches Some(scroll) ==> node.client_rect matches Some(client) && (
    scroll.width > client.width || scroll.height > client.height)
}

/// The node is as the fragments tell, but for what painting tells.
pub open spec fn is_told_by(node: ProjectionNode, fragments: Seq<Fragment>) -> bool {
    &&& exists|f: int| #[trigger]
        is_first(fragments, node.node, f) && node.computed == style_of(fragments[f])
    &&& spans(node.bbox, fragments, node.node, BoxPart::Border)
    &&& spans(node.client_rect, fragments, node.node, BoxPart::Padding)
    &&& node.visible <==> covers_pixels(fragments, node.node) && can_be_seen(node.computed)
    &&& scrolls_soundly(node)
    &&& node.scroll_rect matches Some(scroll) ==> scroll.in_limits()
}

/// The nodes are those that fragments tell about, each once and as its fragments tell.
pub open spec fn are_told_by(nodes: Seq<ProjectionNode>, fragments: Seq<Fragment>) -> bool {
    &&& forall|i: int, j: int|
        0 <= i < j < nodes.len() ==> (#[trigger] nodes[i]).node != (#[trigger] nodes[j]).node
    &&& forall|i: int| 0 <= i < nodes.len() ==> is_told_by(#[trigger] nodes[i], fragments)
    &&& forall|f: int, address: u64|
        0 <= f < fragments.len() && #[trigger] is_fragment_of(fragments[f], address) ==> exists|
            i: int,
        |
            node_at(nodes, address, i)
}

/// Adding one more rectangle.
proof fn joins_span(
    rect: Option<DocumentLayoutRect>,
    fragments: Seq<Fragment>,
    address: u64,
    part: BoxPart,
    fragment: Fragment,
)
    requires
        spans(rect, fragments, address, part),
        is_fragment_of(fragment, address),
        box_of(fragment, part) matches Some(r) ==> r.in_limits(),
    ensures
        spans(joined_rects(rect, box_of(fragment, part)), fragments.push(fragment), address, part),
{
    let more = fragments.push(fragment);
    let n = fragments.len() as int;
    let after = joined_rects(rect, box_of(fragment, part));
    assert forall|f: int, r: DocumentLayoutRect| #[trigger]
        has_box(more, address, part, f, r) <==> has_box(fragments, address, part, f, r) || (f == n
            && box_of(fragment, part) == Some(r)) by {
        if 0 <= f < n {
            assert(more[f] == fragments[f]);
        }
    }
    if let Some(r) = box_of(fragment, part) {
        assert(has_box(more, address, part, n, r));
        if let Some(b) = rect {
            let (f, q) = choose|f: int, q: DocumentLayoutRect|
                has_box(fragments, address, part, f, q);
            assert(has_box(more, address, part, f, q));
            if has_pixels(b) {
                let (f0, r0) = choose|f: int, r: DocumentLayoutRect| #[trigger]
                    has_box(fragments, address, part, f, r) && has_pixels(r) && r.x == b.x;
                let (f1, r1) = choose|f: int, r: DocumentLayoutRect| #[trigger]
                    has_box(fragments, address, part, f, r) && has_pixels(r) && r.y == b.y;
                let (f2, r2) = choose|f: int, r: DocumentLayoutRect| #[trigger]
                    has_box(fragments, address, part, f, r) && has_pixels(r) && r.x + r.width == b.x
                        + b.width;
                let (f3, r3) = choose|f: int, r: DocumentLayoutRect| #[trigger]
                    has_box(fragments, address, part, f, r) && has_pixels(r) && r.y + r.height
                        == b.y + b.height;
                assert(has_box(more, address, part, f0, r0));
                assert(has_box(more, address, part, f1, r1));
                assert(has_box(more, address, part, f2, r2));
                assert(has_box(more, address, part, f3, r3));
            }
        }
    } else {
        widens_span(rect, fragments, address, part, fragment);
    }
}

/// A fragment without such a box, or of another node, changes nothing.
proof fn widens_span(
    rect: Option<DocumentLayoutRect>,
    fragments: Seq<Fragment>,
    address: u64,
    part: BoxPart,
    fragment: Fragment,
)
    requires
        spans(rect, fragments, address, part),
        !is_fragment_of(fragment, address) || box_of(fragment, part) is None,
    ensures
        spans(rect, fragments.push(fragment), address, part),
{
    let more = fragments.push(fragment);
    assert forall|f: int, r: DocumentLayoutRect| #[trigger]
        has_box(more, address, part, f, r) <==> has_box(fragments, address, part, f, r) by {
        if 0 <= f < fragments.len() {
            assert(more[f] == fragments[f]);
        }
    }
    if let Some(b) = rect {
        let (f, q) = choose|f: int, q: DocumentLayoutRect| has_box(fragments, address, part, f, q);
        assert(has_box(more, address, part, f, q));
        if has_pixels(b) {
            let (f0, r0) = choose|f: int, r: DocumentLayoutRect| #[trigger]
                has_box(fragments, address, part, f, r) && has_pixels(r) && r.x == b.x;
            let (f1, r1) = choose|f: int, r: DocumentLayoutRect| #[trigger]
                has_box(fragments, address, part, f, r) && has_pixels(r) && r.y == b.y;
            let (f2, r2) = choose|f: int, r: DocumentLayoutRect| #[trigger]
                has_box(fragments, address, part, f, r) && has_pixels(r) && r.x + r.width == b.x
                    + b.width;
            let (f3, r3) = choose|f: int, r: DocumentLayoutRect| #[trigger]
                has_box(fragments, address, part, f, r) && has_pixels(r) && r.y + r.height == b.y
                    + b.height;
            assert(has_box(more, address, part, f0, r0));
            assert(has_box(more, address, part, f1, r1));
            assert(has_box(more, address, part, f2, r2));
            assert(has_box(more, address, part, f3, r3));
        }
    }
}

/// Without a fragment of the node there is no rectangle.
proof fn spans_nothing(
    fragments: Seq<Fragment>,
    address: u64,
    part: BoxPart,
)
    requires
        forall|f: int| 0 <= f < fragments.len() ==> !is_fragment_of(#[trigger] fragments[f], address),
    ensures
        spans(None, fragments, address, part),
{
}

/// A fragment of the node adds to what is told of it.
proof fn adds_own_fragment(before: ProjectionNode, fragments: Seq<Fragment>, fragment: Fragment)
    requires
        is_told_by(before, fragments),
        is_fragment_of(fragment, before.node),
        fragment_limited(fragment),
    ensures
        is_told_by(with_fragment(before, fragment), fragments.push(fragment)),
{
    let more = fragments.push(fragment);
    let after = with_fragment(before, fragment);
    let address = before.node;
    let f = choose|f: int| #[trigger]
        is_first(fragments, address, f) && before.computed == style_of(fragments[f]);
    assert(is_first(more, address, f)) by {
        assert(more[f] == fragments[f]);
        assert forall|g: int| 0 <= g < f implies !is_fragment_of(#[trigger] more[g], address) by {
            assert(more[g] == fragments[g]);
        }
    }
    let border = BoxPart::Border;
    let padding = BoxPart::Padding;
    joins_span(before.bbox, fragments, address, border, fragment);
    joins_span(before.client_rect, fragments, address, padding, fragment);
    assert(spans(after.bbox, more, address, border));
    assert((after.bbox matches Some(b) && has_pixels(b)) <==> covers_pixels(more, address));
    union_limits(before.scroll_rect, fragment.overflow_rect);
}

proof fn union_limits(a: Option<DocumentLayoutRect>, b: Option<DocumentLayoutRect>)
    requires
        a matches Some(r) ==> r.in_limits(),
        b matches Some(r) ==> r.in_limits(),
    ensures
        joined_rects(a, b) matches Some(r) ==> r.in_limits(),
{
}

/// A fragment of another node changes nothing.
proof fn passes_other_fragment(before: ProjectionNode, fragments: Seq<Fragment>, fragment: Fragment)
    requires
        is_told_by(before, fragments),
        !is_fragment_of(fragment, before.node),
    ensures
        is_told_by(before, fragments.push(fragment)),
{
    let more = fragments.push(fragment);
    let address = before.node;
    let f = choose|f: int| #[trigger]
        is_first(fragments, address, f) && before.computed == style_of(fragments[f]);
    assert(is_first(more, address, f)) by {
        assert(more[f] == fragments[f]);
        assert forall|g: int| 0 <= g < f implies !is_fragment_of(#[trigger] more[g], address) by {
            assert(more[g] == fragments[g]);
        }
    }
    let border = BoxPart::Border;
    let padding = BoxPart::Padding;
    widens_span(before.bbox, fragments, address, border, fragment);
    widens_span(before.client_rect, fragments, address, padding, fragment);
    assert(spans(before.bbox, more, address, border));
    assert((before.bbox matches Some(b) && has_pixels(b)) <==> covers_pixels(fragments, address));
    assert((before.bbox matches Some(b) && has_pixels(b)) <==> covers_pixels(more, address));
}

/// The first fragment of a node.
proof fn adds_first_fragment(fragments: Seq<Fragment>, fragment: Fragment, address: u64)
    requires
        is_fragment_of(fragment, address),
        fragment_limited(fragment),
        forall|f: int| 0 <= f < fragments.len() ==> !is_fragment_of(#[trigger] fragments[f], address),
    ensures
        is_told_by(with_fragment(first_seen(address, fragment), fragment), fragments.push(fragment)),
{
    let more = fragments.push(fragment);
    let n = fragments.len() as int;
    let after = with_fragment(first_seen(address, fragment), fragment);
    assert(is_first(more, address, n)) by {
        assert forall|g: int| 0 <= g < n implies !is_fragment_of(#[trigger] more[g], address) by {
            assert(more[g] == fragments[g]);
        }
    }
    assert(more[n] == fragment);
    let border = BoxPart::Border;
    let padding = BoxPart::Padding;
    spans_nothing(fragments, address, border);
    spans_nothing(fragments, address, padding);
    joins_span(None, fragments, address, border, fragment);
    joins_span(None, fragments, address, padding, fragment);
    assert(spans(after.bbox, more, address, border));
    assert((after.bbox matches Some(b) && has_pixels(b)) <==> covers_pixels(more, address));
    union_limits(None, fragment.overflow_rect);
}

/// What the fragments of a document come to: each node that one of them is of is listed once, with
/// the smallest boxes around those of its fragments, the style of its first fragment, and visible
/// exactly where a fragment covers pixels and the style lets it be seen.
pub proof fn fragments_tell_of_their_nodes(fragments: Seq<Fragment>)
    requires
        forall|i: int| 0 <= i < fragments.len() ==> fragment_limited(#[trigger] fragments[i]),
    ensures
        are_told_by(collected_all(fragments), fragments),
    decreases fragments.len(),
{
    if fragments.len() > 0 {
        let fewer = fragments.drop_last();
        let fragment = fragments.last();
        let n = fewer.len() as int;
        assert forall|i: int| 0 <= i < fewer.len() implies fragment_limited(#[trigger] fewer[i]) by {
            assert(fewer[i] == fragments[i]);
        }
        fragments_tell_of_their_nodes(fewer);
        assert(fewer.push(fragment) =~= fragments);
        assert(fragment_limited(fragments[n]));
        let before = collected_all(fewer);
        let after = collected_all(fragments);
        if exists|address: u64| is_fragment_of(fragment, address) {
            let address = choose|address: u64| is_fragment_of(fragment, address);
            if exists|i: int| node_at(before, address, i) {
                let at = choose|i: int| node_at(before, address, i);
                assert(node_at(before, address, at));
                assert(after == before.update(at, with_fragment(before[at], fragment)));
                assert forall|i: int| 0 <= i < after.len() implies is_told_by(
                    #[trigger] after[i],
                    fragments,
                ) by {
                    assert(is_told_by(before[i], fewer));
                    if i == at {
                        adds_own_fragment(before[at], fewer, fragment);
                    } else {
                        assert(before[i].node != before[at].node) by {
                            if i < at {
                                assert(before[i].node != before[at].node);
                            } else {
                                assert(before[at].node != before[i].node);
                            }
                        }
                        passes_other_fragment(before[i], fewer, fragment);
                    }
                }
                assert forall|i: int, j: int| 0 <= i < j < after.len() implies (
                #[trigger] after[i]).node != (#[trigger] after[j]).node by {
                    assert(before[i].node != before[j].node);
                }
                assert forall|f: int, a: u64|
                    0 <= f < fragments.len() && #[trigger] is_fragment_of(
                        fragments[f],
                        a,
                    ) implies exists|i: int| node_at(after, a, i) by {
                    if f < n {
                        assert(is_fragment_of(fewer[f], a));
                        let i = choose|i: int| node_at(before, a, i);
                        assert(node_at(after, a, i));
                    } else {
                        assert(a == address);
                        assert(node_at(after, a, at));
                    }
                }
            } else {
                let node = with_fragment(first_seen(address, fragment), fragment);
                assert(after == before.push(node));
                assert forall|f: int| 0 <= f < fewer.len() implies !is_fragment_of(
                    #[trigger] fewer[f],
                    address,
                ) by {
                    if is_fragment_of(fewer[f], address) {
                        let i = choose|i: int| node_at(before, address, i);
                        assert(node_at(before, address, i));
                    }
                }
                adds_first_fragment(fewer, fragment, address);
                assert forall|i: int| 0 <= i < after.len() implies is_told_by(
                    #[trigger] after[i],
                    fragments,
                ) by {
                    if i < before.len() {
                        assert(after[i] == before[i]);
                        assert(is_told_by(before[i], fewer));
                        assert(!node_at(before, address, i));
                        passes_other_fragment(before[i], fewer, fragment);
                    }
                }
                assert forall|i: int, j: int| 0 <= i < j < after.len() implies (
                #[trigger] after[i]).node != (#[trigger] after[j]).node by {
                    assert(after[i] == before[i]);
                    if j < before.len() {
                        assert(after[j] == before[j]);
                    } else {
                        assert(!node_at(before, address, i));
                    }
                }
                assert forall|f: int, a: u64|
                    0 <= f < fragments.len() && #[trigger] is_fragment_of(
                        fragments[f],
                        a,
                    ) implies exists|i: int| node_at(after, a, i) by {
                    if f < n {
                        assert(is_fragment_of(fewer[f], a));
                        let i = choose|i: int| node_at(before, a, i);
                        assert(node_at(after, a, i));
                    } else {
                        assert(a == address);
                        assert(node_at(after, a, before.len() as int));
                    }
                }
            }
        } else {
            if let Some(tag) = fragment.tag {
                assert(!is_fragment_of(fragment, tag.node));
            }
            assert(after == before);
            assert forall|i: int| 0 <= i < after.len() implies is_told_by(
                #[trigger] after[i],
                fragments,
            ) by {
                assert(is_told_by(before[i], fewer));
                passes_other_fragment(before[i], fewer, fragment);
            }
            assert forall|f: int, a: u64|
                0 <= f < fragments.len() && #[trigger] is_fragment_of(
                    fragments[f],
                    a,
                ) implies exists|i: int| node_at(after, a, i) by {
                if f < n {
                    assert(is_fragment_of(fewer[f], a));
                }
            }
        }
    }
}

/// Painting notes an order and a stacking context, and nothing else.
pub open spec fn same_but_painting(before: Seq<ProjectionNode>, after: Seq<ProjectionNode>) -> bool {
    &&& after.len() == before.len()
    &&& forall|i: int|
        0 <= i < before.len() ==> #[trigger] after[i] == (ProjectionNode {
            paint_order: after[i].paint_order,
            stacking_context: after[i].stacking_context,
            ..before[i]
        })
}

/// Painting changes nothing of a node but its order and its stacking context.
pub proof fn painting_spares_the_rest(nodes: Seq<ProjectionNode>, steps: Seq<PaintStep>)
    ensures
        same_but_painting(nodes, painted(unpainted(nodes), steps).nodes),
    decreases steps.len(),
{
    if steps.len() > 0 {
        let fewer = steps.drop_last();
        painting_spares_the_rest(nodes, fewer);
        let before = painted(unpainted(nodes), fewer).nodes;
        let after = painted(unpainted(nodes), steps).nodes;
        assert forall|i: int| 0 <= i < nodes.len() implies #[trigger] after[i] == (ProjectionNode {
            paint_order: after[i].paint_order,
            stacking_context: after[i].stacking_context,
            ..nodes[i]
        }) by {
            assert(before[i] == (ProjectionNode {
                paint_order: before[i].paint_order,
                stacking_context: before[i].stacking_context,
                ..nodes[i]
            }));
        }
    }
}

/// The step paints the node itself.
pub open spec fn paints_node(step: PaintStep, address: u64) -> bool {
    step == PaintStep::Paint(Some(Tag { node: address, pseudo_element: false }))
}

/// A node's order is the number of things painted before it was painted last, and its stacking
/// context the one that was current then; a node that is never painted has neither.
pub proof fn painting_notes_the_last_time(
    nodes: Seq<ProjectionNode>,
    steps: Seq<PaintStep>,
    i: int,
)
    requires
        forall|i: int, j: int|
            0 <= i < j < nodes.len() ==> (#[trigger] nodes[i]).node != (#[trigger] nodes[j]).node,
        0 <= i < nodes.len(),
        nodes[i].paint_order is None,
        nodes[i].stacking_context is None,
        paints(steps) < u32::MAX,
    ensures
        ({
            let after = painted(unpainted(nodes), steps).nodes[i];
            &&& (forall|s: int|
                0 <= s < steps.len() ==> !paints_node(#[trigger] steps[s], nodes[i].node))
                ==> after.paint_order is None && after.stacking_context is None
            &&& forall|s: int|
                0 <= s < steps.len() && #[trigger] paints_node(steps[s], nodes[i].node) && (forall|
                    t: int,
                |
                    s < t < steps.len() ==> !paints_node(#[trigger] steps[t], nodes[i].node))
                    ==> after.paint_order == Some(paints(steps.take(s)) as u32)
                    && after.stacking_context == Some(
                    painted(unpainted(nodes), steps.take(s)).current,
                )
        }),
    decreases steps.len(),
{
    if steps.len() > 0 {
        let fewer = steps.drop_last();
        let n = fewer.len() as int;
        let address = nodes[i].node;
        painting_notes_the_last_time(nodes, fewer, i);
        painting_spares_the_rest(nodes, fewer);
        paint_order_counts(nodes, fewer);
        let state = painted(unpainted(nodes), fewer);
        let before = state.nodes;
        let after = painted(unpainted(nodes), steps).nodes;
        assert(steps.take(n) =~= fewer);
        assert(steps[n] == steps.last());
        assert forall|k: int| node_at(before, address, k) implies k == i by {
            assert(before[k].node == nodes[k].node);
            if k < i {
                assert(nodes[k].node != nodes[i].node);
            } else if i < k {
                assert(nodes[i].node != nodes[k].node);
            }
        }
        assert(node_at(before, address, i)) by {
            assert(before[i].node == nodes[i].node);
        }
        if paints_node(steps[n], address) {
            assert(after[i].paint_order == Some(state.paint_order));
        } else {
            assert(after[i] == before[i]) by {
                if let PaintStep::Paint(Some(tag)) = steps[n] {
                    if !tag.pseudo_element {
                        assert(tag.node != address) by {
                            if tag.node == address {
                                assert(tag == (Tag { node: address, pseudo_element: false }));
                            }
                        }
                    }
                }
            }
        }
        assert forall|s: int|
            0 <= s < steps.len() && #[trigger] paints_node(steps[s], address) && (forall|t: int|
                s < t < steps.len() ==> !paints_node(
                    #[trigger] steps[t],
                    address,
                )) implies after[i].paint_order == Some(paints(steps.take(s)) as u32)
            && after[i].stacking_context == Some(
            painted(unpainted(nodes), steps.take(s)).current,
        ) by {
            if s < n {
                assert(!paints_node(steps[n], address));
                assert(paints_node(fewer[s], address));
                assert(fewer.take(s) =~= steps.take(s));
                assert forall|t: int| s < t < fewer.len() implies !paints_node(
                    #[trigger] fewer[t],
                    address,
                ) by {
                    assert(fewer[t] == steps[t]);
                }
            }
        }
        if forall|s: int| 0 <= s < steps.len() ==> !paints_node(#[trigger] steps[s], address) {
            assert forall|s: int| 0 <= s < fewer.len() implies !paints_node(
                #[trigger] fewer[s],
                address,
            ) by {
                assert(fewer[s] == steps[s]);
            }
            assert(!paints_node(steps[n], address));
        }
    }
}

/// Of nodes that are listed once each, the one at an address is found there.
proof fn layout_is_at(layouts: Seq<ProjectionNode>, address: u64, i: int)
    requires
        forall|i: int, j: int|
            0 <= i < j < layouts.len() ==> (#[trigger] layouts[i]).node != (
            #[trigger] layouts[j]).node,
        node_at(layouts, address, i),
    ensures
        layout_at(layouts, address) == Some(layouts[i]),
    decreases layouts.len(),
{
    let n = layouts.len() - 1;
    if i < n {
        assert(layouts[i].node != layouts[n].node);
        let fewer = layouts.drop_last();
        assert forall|i: int, j: int| 0 <= i < j < fewer.len() implies (#[trigger] fewer[i]).node
            != (#[trigger] fewer[j]).node by {
            assert(layouts[i].node != layouts[j].node);
        }
        assert(fewer[i] == layouts[i]);
        layout_is_at(fewer, address, i);
    }
}

/// Where no node is at an address, nothing is found there.
proof fn layout_is_nowhere(layouts: Seq<ProjectionNode>, address: u64)
    requires
        forall|i: int| !node_at(layouts, address, i),
    ensures
        layout_at(layouts, address) is None,
    decreases layouts.len(),
{
    if layouts.len() > 0 {
        let n = layouts.len() - 1;
        assert(!node_at(layouts, address, n));
        let fewer = layouts.drop_last();
        assert forall|i: int| !node_at(fewer, address, i) by {
            if node_at(fewer, address, i) {
                assert(node_at(layouts, address, i));
            }
        }
        layout_is_nowhere(fewer, address);
    }
}

/// What the snapshot of a document knows of its nodes.
pub open spec fn layouts_of(fragments: Seq<Fragment>, steps: Seq<PaintStep>) -> Seq<ProjectionNode> {
    painted(unpainted(collected_all(fragments)), steps).nodes
}

/// What is found at an address is what the fragments of that node tell; nothing is found for a node
/// that has none.
proof fn layouts_are_told(fragments: Seq<Fragment>, steps: Seq<PaintStep>, address: u64)
    requires
        forall|i: int| 0 <= i < fragments.len() ==> fragment_limited(#[trigger] fragments[i]),
    ensures
        match layout_at(layouts_of(fragments, steps), address) {
            Some(layout) => layout.node == address && is_told_by(layout, fragments),
            None => forall|f: int|
                0 <= f < fragments.len() ==> !is_fragment_of(#[trigger] fragments[f], address),
        },
{
    fragments_tell_of_their_nodes(fragments);
    let nodes = collected_all(fragments);
    let layouts = layouts_of(fragments, steps);
    painting_spares_the_rest(nodes, steps);
    assert forall|i: int, j: int| 0 <= i < j < layouts.len() implies (#[trigger] layouts[i]).node
        != (#[trigger] layouts[j]).node by {
        assert(layouts[i].node == nodes[i].node && layouts[j].node == nodes[j].node);
        assert(nodes[i].node != nodes[j].node);
    }
    if exists|i: int| node_at(layouts, address, i) {
        let i = choose|i: int| node_at(layouts, address, i);
        layout_is_at(layouts, address, i);
        assert(is_told_by(nodes[i], fragments));
        assert(layouts[i] == (ProjectionNode {
            paint_order: layouts[i].paint_order,
            stacking_context: layouts[i].stacking_context,
            ..nodes[i]
        }));
    } else {
        layout_is_nowhere(layouts, address);
        assert forall|f: int| 0 <= f < fragments.len() implies !is_fragment_of(
            #[trigger] fragments[f],
            address,
        ) by {
            if is_fragment_of(fragments[f], address) {
                let i = choose|i: int| node_at(nodes, address, i);
                assert(node_at(nodes, address, i));
                assert(layouts[i].node == nodes[i].node);
                assert(node_at(layouts, address, i));
            }
        }
    }
}

/// The style of a node's first fragment, or no style where it has none.
pub open spec fn is_styled(
    computed: DocumentLayoutComputedStyle,
    fragments: Seq<Fragment>,
    address: u64,
) -> bool {
    ||| exists|f: int| #[trigger]
        is_first(fragments, address, f) && computed == style_of(fragments[f])
    ||| computed == DocumentLayoutComputedStyle::nothing() && forall|f: int|
        0 <= f < fragments.len() ==> !is_fragment_of(#[trigger] fragments[f], address)
}

/// An element outside every canvas is shown as its own fragments are laid out: with the smallest
/// boxes around theirs, the style of the first of them, and visible exactly where one of them covers
/// pixels and the style lets it be seen.
pub proof fn elements_are_shown_as_laid_out(
    node: DocumentLayoutSnapshotNode,
    elements: Seq<ElementRecord>,
    i: int,
    fragments: Seq<Fragment>,
    steps: Seq<PaintStep>,
)
    requires
        forall|i: int| 0 <= i < fragments.len() ==> fragment_limited(#[trigger] fragments[i]),
        is_node_of(node, elements, i, layouts_of(fragments, steps)),
        enclosing_canvas(elements, i) is None,
    ensures
        ({
            let address = elements[i].node;
            &&& node.visible <==> covers_pixels(fragments, address) && can_be_seen(node.computed)
            &&& is_styled(node.computed, fragments, address)
            &&& spans(node.bbox, fragments, address, BoxPart::Border)
            &&& spans(
                node.client_rect,
                fragments,
                address,
                BoxPart::Padding,
            )
            &&& node.scrollable <==> node.scroll_rect is Some
            &&& node.scroll_rect matches Some(scroll) ==> node.client_rect matches Some(client) && (
            scroll.width > client.width || scroll.height > client.height)
            &&& node.source == DocumentLayoutSnapshotNodeSource::Dom
        }),
{
    let address = elements[i].node;
    layouts_are_told(fragments, steps, address);
    if layout_at(layouts_of(fragments, steps), address) is None {
        let border = BoxPart::Border;
        let padding = BoxPart::Padding;
        spans_nothing(fragments, address, border);
        spans_nothing(fragments, address, padding);
        assert(!covers_pixels(fragments, address)) by {
            if covers_pixels(fragments, address) {
                let (f, r) = choose|f: int, r: DocumentLayoutRect|
                    has_box(fragments, address, border, f, r) && has_pixels(r);
                assert(is_fragment_of(fragments[f], address));
            }
        }
    }
}

/// What stands in a canvas is shown where the canvas is, and as visible as the canvas, wherever the
/// canvas is laid out; its style and its order are its own.
pub proof fn fallback_content_is_shown_as_its_canvas(
    node: DocumentLayoutSnapshotNode,
    elements: Seq<ElementRecord>,
    i: int,
    fragments: Seq<Fragment>,
    steps: Seq<PaintStep>,
    canvas: u64,
    f: int,
)
    requires
        forall|i: int| 0 <= i < fragments.len() ==> fragment_limited(#[trigger] fragments[i]),
        is_node_of(node, elements, i, layouts_of(fragments, steps)),
        enclosing_canvas(elements, i) == Some(canvas),
        0 <= f < fragments.len(),
        is_fragment_of(fragments[f], canvas),
        fragments[f].border_rect is Some,
    ensures
        node.source == DocumentLayoutSnapshotNodeSource::CanvasFallback,
        spans(node.bbox, fragments, canvas, BoxPart::Border),
        node.visible ==> covers_pixels(fragments, canvas),
        exists|g: int| #[trigger]
            is_first(fragments, canvas, g) && (node.visible <==> covers_pixels(fragments, canvas)
                && can_be_seen(style_of(fragments[g]))),
        is_styled(node.computed, fragments, elements[i].node),
{
    layouts_are_told(fragments, steps, canvas);
    layouts_are_told(fragments, steps, elements[i].node);
    let layouts = layouts_of(fragments, steps);
    assert(layout_at(layouts, canvas) is Some);
    let layout = layout_at(layouts, canvas)->0;
    let border = BoxPart::Border;
    assert(has_box(fragments, canvas, border, f, fragments[f].border_rect->0));
    assert(layout.bbox is Some);
}

/// The element `n` levels above another.
pub open spec fn ancestor(elements: Seq<ElementRecord>, i: int, n: nat) -> Option<int>
    decreases n,
{
    if n == 0 {
        Some(i)
    } else {
        match ancestor(elements, i, (n - 1) as nat) {
            Some(below) => match elements[below].parent {
                Some(parent) => Some(parent as int),
                None => None,
            },
            None => None,
        }
    }
}

/// The canvas around an element is the nearest of its ancestors that is one: there is none exactly
/// where no ancestor is a canvas.
pub proof fn canvases_enclose_what_they_hold(elements: Seq<ElementRecord>, i: int)
    requires
        in_document_order(elements),
        0 <= i < elements.len(),
    ensures
        match enclosing_canvas(elements, i) {
            Some(canvas) => exists|n: nat|
                n > 0 && (#[trigger] ancestor(elements, i, n) matches Some(a) && 0 <= a
                    < elements.len() && elements[a].is_canvas && elements[a].node == canvas)
                    && forall|m: nat|
                    0 < m < n ==> (#[trigger] ancestor(elements, i, m) matches Some(a)
                        && !elements[a].is_canvas),
            None => forall|n: nat|
                n > 0 ==> (#[trigger] ancestor(elements, i, n) matches Some(a)
                    ==> !elements[a].is_canvas),
        },
    decreases i,
{
    reveal_with_fuel(ancestor, 2);
    assert(ancestor(elements, i, 0) == Some(i));
    if let Some(parent) = elements[i].parent {
        assert(parent < i);
        assert(ancestor(elements, i, 1) == Some(parent as int));
        assert forall|n: nat| n > 0 implies #[trigger] ancestor(elements, i, n) == ancestor(
            elements,
            parent as int,
            (n - 1) as nat,
        ) by {
            ancestors_shift(elements, i, n);
        }
        canvases_enclose_what_they_hold(elements, parent as int);
        if elements[parent as int].is_canvas {
            assert(ancestor(elements, i, 1) == Some(parent as int));
        } else {
            match enclosing_canvas(elements, parent as int) {
                Some(canvas) => {
                    let n = choose|n: nat|
                        n > 0 && (#[trigger] ancestor(elements, parent as int, n) matches Some(a)
                            && 0 <= a < elements.len() && elements[a].is_canvas && elements[a].node
                            == canvas) && forall|m: nat|
                            0 < m < n ==> (#[trigger] ancestor(elements, parent as int, m) matches
                                Some(a) && !elements[a].is_canvas);
                    assert(ancestor(elements, i, n + 1) == ancestor(elements, parent as int, n));
                    assert forall|m: nat| 0 < m < n + 1 implies (#[trigger] ancestor(
                        elements,
                        i,
                        m,
                    ) matches Some(a) && !elements[a].is_canvas) by {
                        assert(ancestor(elements, i, m) == ancestor(
                            elements,
                            parent as int,
                            (m - 1) as nat,
                        ));
                        if m == 1 {
                            assert(ancestor(elements, parent as int, 0) == Some(parent as int));
                        }
                    }
                },
                None => {
                    assert forall|n: nat| n > 0 implies (#[trigger] ancestor(
                        elements,
                        i,
                        n,
                    ) matches Some(a) ==> !elements[a].is_canvas) by {
                        assert(ancestor(elements, i, n) == ancestor(
                            elements,
                            parent as int,
                            (n - 1) as nat,
                        ));
                        if n == 1 {
                            assert(ancestor(elements, parent as int, 0) == Some(parent as int));
                        }
                    }
                },
            }
        }
    } else {
        assert forall|n: nat| n > 0 implies #[trigger] ancestor(elements, i, n) is None by {
            no_ancestors(elements, i, n);
        }
    }
}

proof fn ancestors_shift(elements: Seq<ElementRecord>, i: int, n: nat)
    requires
        elements[i].parent is Some,
        n > 0,
    ensures
        ancestor(elements, i, n) == ancestor(
            elements,
            elements[i].parent->0 as int,
            (n - 1) as nat,
        ),
    decreases n,
{
    if n == 1 {
        reveal_with_fuel(ancestor, 3);
    } else {
        ancestors_shift(elements, i, (n - 1) as nat);
    }
}

proof fn no_ancestors(elements: Seq<ElementRecord>, i: int, n: nat)
    requires
        elements[i].parent is None,
        n > 0,
    ensures
        ancestor(elements, i, n) is None,
    decreases n,
{
    if n == 1 {
        reveal_with_fuel(ancestor, 3);
    } else {
        no_ancestors(elements, i, (n - 1) as nat);
    }
}

/// The attribute in this place is the one of that name outside all namespaces.
pub open spec fn has_name(attribute: Attribute, name: Seq<char>) -> bool {
    !attribute.in_namespace && attribute.local_name@ == name
}

/// An attribute's value is that of the first attribute of its name outside all namespaces, and there
/// is none exactly where there is no such attribute.
pub proof fn attributes_are_found_by_name(attributes: Seq<Attribute>, name: Seq<char>)
    ensures
        match attribute_text(attributes, name) {
            Some(value) => exists|i: int|
                0 <= i < attributes.len() && #[trigger] has_name(attributes[i], name)
                    && attributes[i].value@ == value && forall|j: int|
                    0 <= j < i ==> !has_name(#[trigger] attributes[j], name),
            None => forall|i: int|
                0 <= i < attributes.len() ==> !has_name(#[trigger] attributes[i], name),
        },
    decreases attributes.len(),
{
    if attributes.len() > 0 {
        let rest = attributes.drop_first();
        attributes_are_found_by_name(rest, name);
        if has_name(attributes[0], name) {
            assert(has_name(attributes[0], name));
        } else {
            match attribute_text(rest, name) {
                Some(value) => {
                    let i = choose|i: int|
                        0 <= i < rest.len() && #[trigger] has_name(rest[i], name)
                            && rest[i].value@ == value && forall|j: int|
                            0 <= j < i ==> !has_name(#[trigger] rest[j], name);
                    assert(attributes[i + 1] == rest[i]);
                    assert forall|j: int| 0 <= j < i + 1 implies !has_name(
                        #[trigger] attributes[j],
                        name,
                    ) by {
                        if j > 0 {
                            assert(attributes[j] == rest[j - 1]);
                        }
                    }
                    assert(has_name(attributes[i + 1], name));
                },
                None => {
                    assert forall|i: int| 0 <= i < attributes.len() implies !has_name(
                        #[trigger] attributes[i],
                        name,
                    ) by {
                        if i > 0 {
                            assert(attributes[i] == rest[i - 1]);
                        }
                    }
                },
            }
        }
    }
}

} // verus!
