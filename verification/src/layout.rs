//! The layout of a block: one square per transaction on a grid.

use vstd::prelude::*;

verus! {

/// A square of a layout: its left and upper edge and its size, in units of the grid.
#[derive(Debug, Clone, Copy, PartialEq, Eq, Structural)]
pub struct Square {
    pub x: i32,
    pub y: i32,
    pub r: i32,
}

/// The number with index `j` of the three that stand for a square.
pub open spec fn square_part(square: Square, j: int) -> i32 {
    if j == 0 {
        square.x
    } else if j == 1 {
        square.y
    } else {
        square.r
    }
}

/// A layout as a flat list of numbers: its width and height, then the three numbers of each
/// square, in order.
pub open spec fn flat_layout(width: i32, used_height: i32, squares: Seq<Square>) -> Seq<i32> {
    Seq::new(
        2 + 3 * squares.len(),
        |k: int|
            if k == 0 {
                width
            } else if k == 1 {
                used_height
            } else {
                square_part(squares[(k - 2) / 3], (k - 2) % 3)
            },
    )
}

/// Writes a layout as a flat list of numbers.
pub fn layout_block(width: i32, used_height: i32, squares: &Vec<Square>) -> (r: Vec<i32>)
    ensures
        r@ == flat_layout(width, used_height, squares@),
{
    let mut out: Vec<i32> = Vec::new();
    out.push(width);
    out.push(used_height);
    let mut i: usize = 0;
    assert(out@ =~= flat_layout(width, used_height, squares@.take(0)));
    while i < squares.len()
        invariant
            i <= squares@.len(),
            out@ == flat_layout(width, used_height, squares@.take(i as int)),
        decreases squares@.len() - i,
    {
        let square: Square = squares[i];
        out.push(square.x);
        out.push(square.y);
        out.push(square.r);
        assert(out@ =~= flat_layout(width, used_height, squares@.take(i + 1)));
        i = i + 1;
    }
    assert(squares@.take(i as int) =~= squares@);
    out
}

/// The flat list loses nothing: two layouts with the same list are the same.
pub proof fn law_flat_layout_is_exact(
    width: i32,
    used_height: i32,
    squares: Seq<Square>,
    other_width: i32,
    other_height: i32,
    others: Seq<Square>,
)
    requires
        flat_layout(width, used_height, squares) == flat_layout(other_width, other_height, others),
    ensures
        width == other_width,
        used_height == other_height,
        squares == others,
{
    let a = flat_layout(width, used_height, squares);
    let b = flat_layout(other_width, other_height, others);
    assert(a[0] == width && b[0] == other_width);
    assert(a[1] == used_height && b[1] == other_height);
    assert(a.len() == 2 + 3 * squares.len() && b.len() == 2 + 3 * others.len());
    assert forall|i: int| 0 <= i < squares.len() implies squares[i] == others[i] by {
        assert(a[2 + 3 * i] == squares[i].x && b[2 + 3 * i] == others[i].x);
        assert(a[3 + 3 * i] == squares[i].y && b[3 + 3 * i] == others[i].y);
        assert(a[4 + 3 * i] == squares[i].r && b[4 + 3 * i] == others[i].r);
    }
    assert(squares =~= others);
}

/// The flat list starts with the width and the height of the layout; then come the left edge, the
/// upper edge and the size of each square, in order, and nothing else.
pub proof fn law_flat_layout(width: i32, used_height: i32, squares: Seq<Square>)
    ensures
        flat_layout(width, used_height, squares).len() == 2 + 3 * squares.len(),
        flat_layout(width, used_height, squares)[0] == width,
        flat_layout(width, used_height, squares)[1] == used_height,
        forall|i: int|
            0 <= i < squares.len() ==> {
                let square = #[trigger] squares[i];
                &&& flat_layout(width, used_height, squares)[2 + 3 * i] == square.x
                &&& flat_layout(width, used_height, squares)[3 + 3 * i] == square.y
                &&& flat_layout(width, used_height, squares)[4 + 3 * i] == square.r
            },
{
}

} // verus!
