//! The order in which the nodes of a document are painted.

use vstd::prelude::*;

use crate::layout::projection::{
    collected_all, fragment_limited, node_at, told, told_node, Fragment, Projection, ProjectionNode,
    Tag,
};

verus! {

/// A step of painting a document, back to front.
#[derive(Clone, Copy, Debug)]
pub enum PaintStep {
    /// A stacking context begins.
    EnterStackingContext,
    /// The stacking context that began last ends.
    LeaveStackingContext,
    /// Something of a node is painted.
    Paint(Option<Tag>),
}

/// How far painting has come.
#[derive(Debug)]
pub struct PaintJoin {
    /// The number of the next thing painted.
    pub paint_order: u32,
    /// The number of the next stacking context.
    pub next_stacking_context: u32,
    pub current_stacking_context: u32,
    /// The stacking contexts around the current one, outermost first.
    pub outer_stacking_contexts: Vec<u32>,
}

/// How far painting has come, with what is known about the nodes.
pub struct PaintState {
    pub nodes: Seq<ProjectionNode>,
    pub paint_order: u32,
    pub next: u32,
    pub current: u32,
    pub outer: Seq<u32>,
}

/// One more, but for the largest number.
pub open spec fn one_up(number: u32) -> u32 {
    if number == u32::MAX {
        number
    } else {
        (number + 1) as u32
    }
}

/// The nodes once one of them is painted.
pub open spec fn marked(
    nodes: Seq<ProjectionNode>,
    tag: Option<Tag>,
    order: u32,
    context: u32,
) -> Seq<ProjectionNode> {
    match told_node(tag) {
        Some(address) => if exists|i: int| node_at(nodes, address, i) {
            let i = choose|i: int| node_at(nodes, address, i);
            nodes.update(
                i,
                ProjectionNode {
                    paint_order: Some(order),
                    stacking_context: Some(context),
                    ..nodes[i]
                },
            )
        } else {
            nodes
        },
        None => nodes,
    }
}

/// The state after a step.
pub open spec fn stepped(state: PaintState, step: PaintStep) -> PaintState {
    match step {
        PaintStep::EnterStackingContext => PaintState {
            outer: state.outer.push(state.current),
            current: state.next,
            next: one_up(state.next),
            ..state
        },
        PaintStep::LeaveStackingContext => if state.outer.len() > 0 {
            PaintState { outer: state.outer.drop_last(), current: state.outer.last(), ..state }
        } else {
            state
        },
        PaintStep::Paint(tag) => PaintState {
            nodes: marked(state.nodes, tag, state.paint_order, state.current),
            paint_order: one_up(state.paint_order),
            ..state
        },
    }
}

/// The state after all steps.
pub open spec fn painted(state: PaintState, steps: Seq<PaintStep>) -> PaintState
    decreases steps.len(),
{
    if steps.len() == 0 {
        state
    } else {
        stepped(painted(state, steps.drop_last()), steps.last())
    }
}

/// The state in which painting starts.
pub open spec fn unpainted(nodes: Seq<ProjectionNode>) -> PaintState {
    PaintState { nodes, paint_order: 0, next: 0, current: 0, outer: seq![] }
}

impl PaintJoin {
    /// The state, with what is known about the nodes.
    pub open spec fn state(&self, projection: &Projection) -> PaintState {
        PaintState {
            nodes: projection.nodes@,
            paint_order: self.paint_order,
            next: self.next_stacking_context,
            current: self.current_stacking_context,
            outer: self.outer_stacking_contexts@,
        }
    }

    /// Nothing is painted yet.
    pub fn new() -> (join: Self)
        ensures
            forall|projection: &Projection| #[trigger]
                join.state(projection) == unpainted(projection.nodes@),
    {
        let join = PaintJoin {
            paint_order: 0,
            next_stacking_context: 0,
            current_stacking_context: 0,
            outer_stacking_contexts: Vec::new(),
        };
        assert(join.outer_stacking_contexts@ =~= seq![]);
        join
    }

    /// Notes on the node that it is painted now.
    pub fn visit_tag(&mut self, projection: &mut Projection, tag: Option<Tag>)
        requires
            old(projection).wf(),
        ensures
            final(projection).wf(),
            final(self).state(final(projection)) == stepped(
                old(self).state(old(projection)),
                PaintStep::Paint(tag),
            ),
    {
        let paint_order = self.paint_order;
        self.paint_order = self.paint_order.saturating_add(1);
        let address = match told(&tag) {
            Some(address) => address,
            None => return ,
        };
        let ghost nodes = projection.nodes@;
        let index: usize = match projection.node_indices.get(&address) {
            Some(index) => *index,
            None => {
                assert forall|i: int| !node_at(nodes, address, i) by {
                    if node_at(nodes, address, i) {
                        assert(projection.node_indices@.contains_key(nodes[i].node));
                    }
                }
                return ;
            },
        };
        projection.nodes[index].paint_order = Some(paint_order);
        projection.nodes[index].stacking_context = Some(self.current_stacking_context);
        proof {
            assert(node_at(nodes, address, index as int));
            let i = choose|i: int| node_at(nodes, address, i);
            assert(node_at(nodes, address, i));
            assert(old(projection).node_indices@[nodes[i].node] == i);
            assert(projection.nodes@ =~= marked(
                nodes,
                tag,
                paint_order,
                self.current_stacking_context,
            ));
        }
    }

    /// Begins a stacking context.
    pub fn visit_stacking_context(&mut self)
        ensures
            forall|projection: &Projection| #[trigger]
                final(self).state(projection) == stepped(
                    old(self).state(projection),
                    PaintStep::EnterStackingContext,
                ),
    {
        self.outer_stacking_contexts.push(self.current_stacking_context);
        self.current_stacking_context = self.next_stacking_context;
        self.next_stacking_context = self.next_stacking_context.saturating_add(1);
    }

    /// Ends the stacking context that began last.
    pub fn leave_stacking_context(&mut self)
        ensures
            forall|projection: &Projection| #[trigger]
                final(self).state(projection) == stepped(
                    old(self).state(projection),
                    PaintStep::LeaveStackingContext,
                ),
    {
        match self.outer_stacking_contexts.pop() {
            Some(previous) => {
                self.current_stacking_context = previous;
            },
            None => {},
        }
    }
}

/// What the layout of a document says about its nodes: from all its fragments, and from painting it.
pub fn build_document_layout_snapshot_projection(
    fragments: &Vec<Fragment>,
    steps: &Vec<PaintStep>,
) -> (nodes: Vec<ProjectionNode>)
    requires
        forall|i: int| 0 <= i < fragments@.len() ==> fragment_limited(#[trigger] fragments@[i]),
    ensures
        nodes@ == painted(unpainted(collected_all(fragments@)), steps@).nodes,
{
    let mut projection = Projection::new();
    let mut i: usize = 0;
    assert(fragments@.take(0) =~= seq![]);
    assert(projection.nodes@ =~= seq![]);
    while i < fragments.len()
        invariant
            i <= fragments.len(),
            forall|i: int| 0 <= i < fragments@.len() ==> fragment_limited(#[trigger] fragments@[i]),
            projection.wf(),
            projection.nodes@ == collected_all(fragments@.take(i as int)),
        decreases fragments.len() - i,
    {
        assert(fragments@.take(i + 1).drop_last() =~= fragments@.take(i as int));
        projection.collect_fragment(&fragments[i]);
        i += 1;
    }
    assert(fragments@.take(i as int) =~= fragments@);
    let mut join = PaintJoin::new();
    let ghost start = unpainted(collected_all(fragments@));
    let mut k: usize = 0;
    assert(steps@.take(0) =~= seq![]);
    assert(join.state(&projection) == start);
    while k < steps.len()
        invariant
            k <= steps.len(),
            projection.wf(),
            join.state(&projection) == painted(start, steps@.take(k as int)),
        decreases steps.len() - k,
    {
        assert(steps@.take(k + 1).drop_last() =~= steps@.take(k as int));
        match steps[k] {
            PaintStep::EnterStackingContext => join.visit_stacking_context(),
            PaintStep::LeaveStackingContext => join.leave_stacking_context(),
            PaintStep::Paint(tag) => join.visit_tag(&mut projection, tag),
        }
        k += 1;
    }
    assert(steps@.take(k as int) =~= steps@);
    projection.nodes
}

/// How many more stacking contexts begin than end.
pub open spec fn depth(steps: Seq<PaintStep>) -> int
    decreases steps.len(),
{
    if steps.len() == 0 {
        0
    } else {
        depth(steps.drop_last()) + match steps.last() {
            PaintStep::EnterStackingContext => 1,
            PaintStep::LeaveStackingContext => -1,
            PaintStep::Paint(_) => 0int,
        }
    }
}

/// No stacking context ends that did not begin.
pub open spec fn nested(steps: Seq<PaintStep>) -> bool {
    forall|n: int| 0 <= n <= steps.len() ==> depth(#[trigger] steps.take(n)) >= 0
}

/// The stacking contexts, outermost first, with the current one.
pub open spec fn contexts(state: PaintState) -> Seq<u32> {
    state.outer.push(state.current)
}

/// Painting a stacking context leaves the one around it current: after steps in which every
/// stacking context that begins ends, the contexts are those from before.
pub proof fn stacking_contexts_nest(state: PaintState, steps: Seq<PaintStep>)
    requires
        nested(steps),
        depth(steps) == 0,
    ensures
        painted(state, steps).current == state.current,
        painted(state, steps).outer == state.outer,
{
    outer_contexts_stay(state, steps);
    let after = painted(state, steps);
    let n = contexts(state).len() as int;
    assert(contexts(after) =~= contexts(state));
    assert(contexts(after).last() == contexts(state).last());
    assert(contexts(after).drop_last() =~= after.outer);
    assert(contexts(state).drop_last() =~= state.outer);
}

/// The contexts from before stay below those that began since.
proof fn outer_contexts_stay(state: PaintState, steps: Seq<PaintStep>)
    requires
        nested(steps),
    ensures
        contexts(painted(state, steps)).len() == contexts(state).len() + depth(steps),
        contexts(painted(state, steps)).take(contexts(state).len() as int) == contexts(state),
    decreases steps.len(),
{
    let n = contexts(state).len() as int;
    if steps.len() == 0 {
        assert(contexts(state).take(n) =~= contexts(state));
    } else {
        let fewer = steps.drop_last();
        assert forall|m: int| 0 <= m <= fewer.len() implies depth(#[trigger] fewer.take(m)) >= 0 by {
            assert(fewer.take(m) =~= steps.take(m));
        }
        outer_contexts_stay(state, fewer);
        assert(steps.take(steps.len() as int) =~= steps);
        let before = painted(state, fewer);
        let after = painted(state, steps);
        assert(contexts(before).drop_last() =~= before.outer);
        match steps.last() {
            PaintStep::EnterStackingContext => {
                assert(contexts(after).take(n) =~= contexts(before).take(n));
            },
            PaintStep::LeaveStackingContext => {
                assert(before.outer.len() > 0);
                assert(contexts(after) =~= before.outer);
                assert(contexts(after).take(n) =~= contexts(before).take(n));
            },
            PaintStep::Paint(tag) => {
                assert(contexts(after) =~= contexts(before));
            },
        }
    }
}

/// How many things are painted.
pub open spec fn paints(steps: Seq<PaintStep>) -> nat
    decreases steps.len(),
{
    if steps.len() == 0 {
        0
    } else if steps.last() is Paint {
        paints(steps.drop_last()) + 1
    } else {
        paints(steps.drop_last())
    }
}

/// The paint order counts what is painted, up to the largest number.
pub proof fn paint_order_counts(nodes: Seq<ProjectionNode>, steps: Seq<PaintStep>)
    ensures
        painted(unpainted(nodes), steps).paint_order == if paints(steps) < u32::MAX {
            paints(steps) as int
        } else {
            u32::MAX as int
        },
    decreases steps.len(),
{
    if steps.len() > 0 {
        paint_order_counts(nodes, steps.drop_last());
    }
}

/// A node that is painted has the number of what was painted before it and the stacking context in
/// which it is painted, whatever it had; no other node changes.
pub proof fn last_paint_counts(state: PaintState, tag: Tag, i: int, other: int)
    requires
        !tag.pseudo_element,
        node_at(state.nodes, tag.node, i),
        forall|j: int| node_at(state.nodes, tag.node, j) ==> j == i,
        0 <= other < state.nodes.len(),
        other != i,
    ensures
        ({
            let after = stepped(state, PaintStep::Paint(Some(tag))).nodes;
            &&& after.len() == state.nodes.len()
            &&& after[i].paint_order == Some(state.paint_order)
            &&& after[i].stacking_context == Some(state.current)
            &&& after[other] == state.nodes[other]
        }),
{
}

/// Painting starts in the outermost stacking context. A context that begins is a new one; where it
/// ends, the one around it is current again, and so nothing ends that has not begun.
pub proof fn contexts_end_where_they_began(state: PaintState, nodes: Seq<ProjectionNode>)
    ensures
        ({
            let inside = stepped(state, PaintStep::EnterStackingContext);
            let after = stepped(inside, PaintStep::LeaveStackingContext);
            &&& inside.current == state.next
            &&& state.next < u32::MAX ==> inside.next == state.next + 1
            &&& inside.next >= state.next
            &&& after.current == state.current
            &&& after.outer == state.outer
            &&& after.next == inside.next
            &&& after.nodes == state.nodes
            &&& after.paint_order == state.paint_order
            &&& state.outer.len() == 0 ==> stepped(state, PaintStep::LeaveStackingContext) == state
        }),
        unpainted(nodes).outer.len() == 0,
        unpainted(nodes).nodes == nodes,
        unpainted(nodes).current == unpainted(nodes).next,
        unpainted(nodes).paint_order == 0,
{
    let inside = stepped(state, PaintStep::EnterStackingContext);
    assert(inside.outer.drop_last() =~= state.outer);
}

} // verus!
