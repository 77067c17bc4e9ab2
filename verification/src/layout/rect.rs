//! Rectangles in CSS pixels.

use vstd::prelude::*;

verus! {

/// A rectangle in CSS pixels.
#[derive(Clone, Copy, Debug, PartialEq, Eq, Structural)]
pub struct DocumentLayoutRect {
    pub x: i32,
    pub y: i32,
    pub width: i32,
    pub height: i32,
}

/// How far from the origin the edges of a rectangle may lie, so that the distance between any two
/// edges is a 32-bit number. Layout coordinates, which count sixtieths of a pixel in 32 bits, stay
/// well within.
pub const EDGE_LIMIT: i32 = 0x3fff_ffff;

/// The smaller number.
pub open spec fn lesser(a: int, b: int) -> int {
    if a <= b {
        a
    } else {
        b
    }
}

/// The larger number.
pub open spec fn greater(a: int, b: int) -> int {
    if a >= b {
        a
    } else {
        b
    }
}

impl DocumentLayoutRect {
    /// Where the rectangle ends to the right.
    pub open spec fn right(self) -> int {
        self.x + self.width
    }

    /// Where the rectangle ends at the bottom.
    pub open spec fn bottom(self) -> int {
        self.y + self.height
    }

    /// The rectangle covers no pixel.
    pub open spec fn is_empty_rect(self) -> bool {
        self.width <= 0 || self.height <= 0
    }

    /// The edges lie within the limit.
    pub open spec fn in_limits(self) -> bool {
        &&& -EDGE_LIMIT <= self.x <= EDGE_LIMIT
        &&& -EDGE_LIMIT <= self.y <= EDGE_LIMIT
        &&& -EDGE_LIMIT <= self.right() <= EDGE_LIMIT
        &&& -EDGE_LIMIT <= self.bottom() <= EDGE_LIMIT
    }
}

/// The smallest rectangle that holds both; an empty one adds nothing.
pub open spec fn smallest_around(a: DocumentLayoutRect, b: DocumentLayoutRect) -> DocumentLayoutRect {
    if b.is_empty_rect() {
        a
    } else if a.is_empty_rect() {
        b
    } else {
        let x = lesser(a.x as int, b.x as int);
        let y = lesser(a.y as int, b.y as int);
        DocumentLayoutRect {
            x: x as i32,
            y: y as i32,
            width: (greater(a.right(), b.right()) - x) as i32,
            height: (greater(a.bottom(), b.bottom()) - y) as i32,
        }
    }
}

/// The smallest rectangle that holds both.
///
/// Calls `euclid::Rect::union`. Believed of it: where one rectangle has no pixels the other comes
/// out, and otherwise the one from the least left and top edge to the greatest right and bottom
/// edge. The edges are computed in 32 bits, so they are kept within limits.
#[verifier::external_body]
pub(crate) fn union_of(a: DocumentLayoutRect, b: DocumentLayoutRect) -> (union: DocumentLayoutRect)
    requires
        a.in_limits(),
        b.in_limits(),
    ensures
        union == smallest_around(a, b),
{
    let first: euclid::default::Rect<i32> = euclid::rect(a.x, a.y, a.width, a.height);
    let second: euclid::default::Rect<i32> = euclid::rect(b.x, b.y, b.width, b.height);
    let union = first.union(&second);
    DocumentLayoutRect {
        x: union.origin.x,
        y: union.origin.y,
        width: union.size.width,
        height: union.size.height,
    }
}

/// What an optional rectangle becomes when another is added to it.
pub open spec fn joined_rects(
    before: Option<DocumentLayoutRect>,
    incoming: Option<DocumentLayoutRect>,
) -> Option<DocumentLayoutRect> {
    match (before, incoming) {
        (_, None) => before,
        (None, Some(incoming)) => Some(incoming),
        (Some(before), Some(incoming)) => Some(smallest_around(before, incoming)),
    }
}

/// A union covers both rectangles.
pub proof fn union_covers_both(a: DocumentLayoutRect, b: DocumentLayoutRect)
    requires
        a.in_limits(),
        b.in_limits(),
    ensures
        ({
            let union = smallest_around(a, b);
            &&& union.in_limits()
            &&& !a.is_empty_rect() ==> union.x <= a.x && union.y <= a.y && a.right()
                <= union.right() && a.bottom() <= union.bottom()
            &&& !b.is_empty_rect() ==> union.x <= b.x && union.y <= b.y && b.right()
                <= union.right() && b.bottom() <= union.bottom()
        }),
{
}

/// The rectangle, if there is one, lies within the limit.
pub open spec fn limited(rect: Option<DocumentLayoutRect>) -> bool {
    rect matches Some(rect) ==> rect.in_limits()
}

/// Adds a rectangle, if there is one, to another.
pub fn union_optional_rect(
    destination: Option<DocumentLayoutRect>,
    incoming: Option<DocumentLayoutRect>,
) -> (after: Option<DocumentLayoutRect>)
    requires
        limited(destination),
        limited(incoming),
    ensures
        after == joined_rects(destination, incoming),
        limited(after),
{
    match (destination, incoming) {
        (_, None) => destination,
        (None, Some(incoming)) => Some(incoming),
        (Some(current), Some(incoming)) => Some(union_of(current, incoming)),
    }
}

} // verus!
