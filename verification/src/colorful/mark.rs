//! The fiducial-mark artifact: a plain Gerber file that draws the board's
//! rectangle and flashes three marks near its corners.
//!
//! Coordinates are whole numbers of the file's grid, a hundred-thousandth of
//! a millimetre.

use crate::text::append_chars;
use crate::text::append_str;
use crate::text::decimal;
use crate::text::push_decimal;
use crate::text::string_of;
use vstd::prelude::*;

verus! {

/// How far a mark lies inside the board's corner, on the grid: 0.0762 mm.
pub const MARK_INSET: i64 = 7620;

/// The largest distance from the origin at which the marks of a board can
/// still be placed.
pub const GRID_LIMIT: i64 = 1_000_000_000_000_000;

/// The rectangle of a board on the grid.
#[derive(Debug, Clone, Copy, PartialEq, Eq, Structural)]
pub struct GridBounds {
    pub min_x: i64,
    pub max_x: i64,
    pub min_y: i64,
    pub max_y: i64,
}

impl GridBounds {
    /// Whether the rectangle is one: its lower sides are not above its upper
    /// ones. A board without area is allowed.
    pub open spec fn wf(self) -> bool {
        self.min_x <= self.max_x && self.min_y <= self.max_y
    }

    /// Whether the rectangle lies near enough to the origin for the marks to
    /// be placed.
    pub open spec fn in_reach(self) -> bool {
        &&& -GRID_LIMIT <= self.min_x <= GRID_LIMIT
        &&& -GRID_LIMIT <= self.max_x <= GRID_LIMIT
        &&& -GRID_LIMIT <= self.min_y <= GRID_LIMIT
        &&& -GRID_LIMIT <= self.max_y <= GRID_LIMIT
    }

    /// The corners in the order in which the outline is drawn, from the
    /// lower left one round and back to it.
    pub open spec fn outline_path(self) -> Seq<(i64, i64)> {
        seq![
            (self.min_x, self.min_y),
            (self.max_x, self.min_y),
            (self.max_x, self.max_y),
            (self.min_x, self.max_y),
            (self.min_x, self.min_y),
        ]
    }

    /// The three marks: inside the lower left, the upper left and the upper
    /// right corner, by the inset in each direction.
    pub open spec fn mark_points(self) -> Seq<(i64, i64)> {
        seq![
            ((self.min_x + MARK_INSET) as i64, (self.min_y + MARK_INSET) as i64),
            ((self.min_x + MARK_INSET) as i64, (self.max_y - MARK_INSET) as i64),
            ((self.max_x - MARK_INSET) as i64, (self.max_y - MARK_INSET) as i64),
        ]
    }
}

/// The digits filled up with zeros on the left to at least `width`.
pub open spec fn zero_padded(digits: Seq<char>, width: int) -> Seq<char> {
    if digits.len() >= width {
        digits
    } else {
        Seq::new((width - digits.len()) as nat, |i: int| '0') + digits
    }
}

/// The absolute value.
pub open spec fn magnitude(v: int) -> nat {
    if v < 0 {
        (-v) as nat
    } else {
        v as nat
    }
}

/// A coordinate as the file writes it: its sign in any case, then at least
/// seven digits.
pub open spec fn coordinate_text(v: int) -> Seq<char> {
    (if v < 0 {
        seq!['-']
    } else {
        seq!['+']
    }) + zero_padded(decimal(magnitude(v)), 7)
}

/// An operation at a point: the two coordinates and the operation's code.
pub open spec fn operation_line(point: (i64, i64), code: Seq<char>) -> Seq<char> {
    "X"@ + coordinate_text(point.0 as int) + "Y"@ + coordinate_text(point.1 as int) + code
}

/// One flash for each of the points.
pub open spec fn flash_lines(points: Seq<(i64, i64)>) -> Seq<char>
    decreases points.len(),
{
    if points.len() == 0 {
        Seq::empty()
    } else {
        flash_lines(points.drop_last()) + operation_line(points.last(), "D03*\n"@)
    }
}

/// The lines before the outline: the format, the unit, the polarity and the
/// aperture that draws.
pub open spec fn mark_file_head() -> Seq<char> {
    "G04 Fabrication_ColorfulBoardOutlineMark*\n%FSLAX25Y25*%\n%MOMM*%\n%LPD*%\n%ADD10C,0.150*%\nD10*\n"@
}

/// The mark file: the head, a move to the lower left corner and four strokes
/// round the board, then the aperture of the marks and a flash at each, then
/// the end of the file.
pub open spec fn mark_file(bounds: GridBounds, marks: Seq<(i64, i64)>) -> Seq<char> {
    let path = bounds.outline_path();
    mark_file_head() + operation_line(path[0], "D02*\n"@) + operation_line(path[1], "D01*\n"@)
        + operation_line(path[2], "D01*\n"@) + operation_line(path[3], "D01*\n"@) + operation_line(
        path[4],
        "D01*\n"@,
    ) + "%ADD11C,1.000*%\nD11*\n"@ + flash_lines(marks) + "M02*\n"@
}

/// Appends a coordinate as the file writes it.
pub fn push_coordinate(buf: &mut Vec<char>, v: i64)
    ensures
        final(buf)@ == old(buf)@ + coordinate_text(v as int),
{
    let size: u64 = if v < 0 {
        buf.push('-');
        (-(v + 1)) as u64 + 1
    } else {
        buf.push('+');
        v as u64
    };
    let mut digits: Vec<char> = Vec::new();
    push_decimal(&mut digits, size);
    assert(digits@ =~= decimal(magnitude(v as int)));
    let mut k: usize = digits.len();
    let ghost sign = buf@;
    while k < 7
        invariant
            digits@.len() <= k <= 7 || (k == digits@.len() && k > 7),
            buf@ == sign + Seq::new((k - digits@.len()) as nat, |i: int| '0'),
        decreases 7 - k,
    {
        buf.push('0');
        assert(buf@ =~= sign + Seq::new((k + 1 - digits@.len()) as nat, |i: int| '0'));
        k += 1;
    }
    append_chars(buf, digits.as_slice());
    assert(buf@ =~= old(buf)@ + coordinate_text(v as int));
}

/// Appends an operation at a point.
pub fn push_operation(buf: &mut Vec<char>, point: (i64, i64), code: &str)
    ensures
        final(buf)@ == old(buf)@ + operation_line(point, code@),
{
    append_str(buf, "X");
    push_coordinate(buf, point.0);
    append_str(buf, "Y");
    push_coordinate(buf, point.1);
    append_str(buf, code);
    assert(buf@ =~= old(buf)@ + operation_line(point, code@));
}

/// The three marks of a board: inside the lower left, the upper left and the
/// upper right corner.
pub fn compute_mark_points(bounds: &GridBounds) -> (r: Vec<(i64, i64)>)
    requires
        bounds.in_reach(),
    ensures
        r@ == bounds.mark_points(),
{
    let low_x: i64 = bounds.min_x + MARK_INSET;
    let high_x: i64 = bounds.max_x - MARK_INSET;
    let low_y: i64 = bounds.min_y + MARK_INSET;
    let high_y: i64 = bounds.max_y - MARK_INSET;
    let mut out: Vec<(i64, i64)> = Vec::new();
    out.push((low_x, low_y));
    out.push((low_x, high_y));
    out.push((high_x, high_y));
    assert(out@ =~= bounds.mark_points());
    out
}

/// Writes the mark file for a board and its marks.
pub fn build_outline_mark_gerber(bounds: &GridBounds, marks: &[(i64, i64)]) -> (r: String)
    ensures
        r@ == mark_file(*bounds, marks@),
{
    let mut out: Vec<char> = Vec::new();
    append_str(
        &mut out,
        "G04 Fabrication_ColorfulBoardOutlineMark*\n%FSLAX25Y25*%\n%MOMM*%\n%LPD*%\n%ADD10C,0.150*%\nD10*\n",
    );
    push_operation(&mut out, (bounds.min_x, bounds.min_y), "D02*\n");
    push_operation(&mut out, (bounds.max_x, bounds.min_y), "D01*\n");
    push_operation(&mut out, (bounds.max_x, bounds.max_y), "D01*\n");
    push_operation(&mut out, (bounds.min_x, bounds.max_y), "D01*\n");
    push_operation(&mut out, (bounds.min_x, bounds.min_y), "D01*\n");
    append_str(&mut out, "%ADD11C,1.000*%\nD11*\n");
    let ghost before = out@;
    let mut i: usize = 0;
    while i < marks.len()
        invariant
            i <= marks@.len(),
            out@ == before + flash_lines(marks@.take(i as int)),
        decreases marks@.len() - i,
    {
        assert(marks@.take(i + 1).drop_last() == marks@.take(i as int));
        push_operation(&mut out, marks[i], "D03*\n");
        assert(out@ =~= before + flash_lines(marks@.take(i + 1)));
        i += 1;
    }
    assert(marks@.take(marks@.len() as int) == marks@);
    append_str(&mut out, "M02*\n");
    string_of(out.as_slice())
}

} // verus!
