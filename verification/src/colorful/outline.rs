//! The extent of a board, taken from the operations of its outline file.
//!
//! A coordinate is kept as it was read: a whole number of millionths of the
//! unit that was in force. Readings in different units are compared by their
//! exact length; no rounding happens before the extent is put on a grid.

use crate::colorful::mark::GRID_LIMIT;
use crate::colorful::mark::GridBounds;
use crate::error::TransJlcError;
use crate::text::append_str;
use crate::text::string_of;
use vstd::prelude::*;

verus! {

/// The unit of a coordinate.
#[derive(Debug, Clone, Copy, PartialEq, Eq, Structural)]
pub enum Unit {
    Millimeters,
    Inches,
}

/// A coordinate as read: millionths of the unit.
#[derive(Debug, Clone, Copy, PartialEq, Eq, Structural)]
pub struct Reading {
    pub nano: i64,
    pub unit: Unit,
}

/// What an outline file holds, as far as the extent goes.
#[derive(Debug, Clone, Copy, PartialEq, Eq, Structural)]
pub enum OutlineCommand {
    /// The unit changes.
    SetUnit(Unit),
    /// A move, a stroke or a flash, with the coordinates that it gives.
    Operation { x: Option<i64>, y: Option<i64> },
    /// Anything else.
    Other,
}

/// The readings that bound a board on each side.
#[derive(Debug, Clone, Copy, PartialEq, Eq, Structural)]
pub struct OutlineExtent {
    pub min_x: Reading,
    pub max_x: Reading,
    pub min_y: Reading,
    pub max_y: Reading,
}

impl Reading {
    /// The length of the reading in fifths of a millionth of a millimetre,
    /// the largest unit in which both millimetres and inches are whole.
    pub open spec fn length(self) -> int {
        match self.unit {
            Unit::Millimeters => self.nano * 5,
            Unit::Inches => self.nano * 127,
        }
    }

    /// The length on the grid of a hundred-thousandth of a millimetre, to
    /// the nearest point and away from zero where two are as near.
    pub open spec fn on_grid(self) -> int {
        rounded_fiftieth(self.length())
    }
}

/// A fiftieth of `v`, to the nearest whole number and away from zero where
/// two are as near.
pub open spec fn rounded_fiftieth(v: int) -> int {
    if v >= 0 {
        (v + 25) / 50
    } else {
        -((-v + 25) / 50)
    }
}

/// The two readings that bound a board along one axis.
#[derive(Debug, Clone, Copy, PartialEq, Eq, Structural)]
pub struct Span {
    pub low: Reading,
    pub high: Reading,
}

/// The state of the scan of an outline: the unit in force and the extreme
/// readings so far, if there is a reading at all.
pub struct ExtentScan {
    pub unit: Unit,
    pub x: Option<Span>,
    pub y: Option<Span>,
}

/// The lower and the upper of two bounds once a reading is taken in: a
/// reading that lies beyond a bound takes its place.
pub open spec fn widened(bounds: Option<Span>, reading: Reading) -> Option<Span> {
    match bounds {
        None => Some(Span { low: reading, high: reading }),
        Some(span) => Some(
            Span {
                low: if reading.length() < span.low.length() {
                    reading
                } else {
                    span.low
                },
                high: if reading.length() > span.high.length() {
                    reading
                } else {
                    span.high
                },
            },
        ),
    }
}

/// The bounds once an optional coordinate is taken in, in the given unit.
pub open spec fn widened_by(
    bounds: Option<Span>,
    coordinate: Option<i64>,
    unit: Unit,
) -> Option<Span> {
    match coordinate {
        Some(nano) => widened(bounds, Reading { nano, unit }),
        None => bounds,
    }
}

/// The scan after one more command.
pub open spec fn scan_step(scan: ExtentScan, command: OutlineCommand) -> ExtentScan {
    match command {
        OutlineCommand::SetUnit(unit) => ExtentScan { unit, x: scan.x, y: scan.y },
        OutlineCommand::Operation { x, y } => ExtentScan {
            unit: scan.unit,
            x: widened_by(scan.x, x, scan.unit),
            y: widened_by(scan.y, y, scan.unit),
        },
        OutlineCommand::Other => scan,
    }
}

/// The scan after all the commands.
pub open spec fn scan_all(start: ExtentScan, commands: Seq<OutlineCommand>) -> ExtentScan
    decreases commands.len(),
{
    if commands.len() == 0 {
        start
    } else {
        scan_step(scan_all(start, commands.drop_last()), commands.last())
    }
}

/// The scan before any command.
pub open spec fn scan_start(unit: Unit) -> ExtentScan {
    ExtentScan { unit, x: None, y: None }
}

/// The extent of the board that the commands outline, or `None` where they
/// give no x or no y coordinate at all.
pub open spec fn extent_of(initial_unit: Unit, commands: Seq<OutlineCommand>) -> Option<
    OutlineExtent,
> {
    let scan = scan_all(scan_start(initial_unit), commands);
    match (scan.x, scan.y) {
        (Some(x), Some(y)) => Some(
            OutlineExtent { min_x: x.low, max_x: x.high, min_y: y.low, max_y: y.high },
        ),
        _ => None,
    }
}

/// The bounds of a scan hold each other in order, and every reading taken in
/// lies between them.
pub proof fn lemma_widened_bounds(bounds: Option<Span>, reading: Reading)
    requires
        in_order(bounds),
    ensures
        widened(bounds, reading) is Some,
        in_order(widened(bounds, reading)),
        widened(bounds, reading)->0.low.length() <= reading.length() <= widened(
            bounds,
            reading,
        )->0.high.length(),
        bounds is Some ==> widened(bounds, reading)->0.low.length() <= bounds->0.low.length(),
        bounds is Some ==> bounds->0.high.length() <= widened(bounds, reading)->0.high.length(),
{
}

/// Whether the bounds are in order, the lower not above the upper.
pub open spec fn in_order(bounds: Option<Span>) -> bool {
    bounds is Some ==> bounds->0.low.length() <= bounds->0.high.length()
}

/// The extent of a board is a rectangle: on each axis the lower bound is not
/// above the upper. A board without area is one.
pub proof fn lemma_extent_is_ordered(initial_unit: Unit, commands: Seq<OutlineCommand>)
    ensures
        in_order(scan_all(scan_start(initial_unit), commands).x),
        in_order(scan_all(scan_start(initial_unit), commands).y),
        extent_of(initial_unit, commands) is Some ==> {
            let e = extent_of(initial_unit, commands)->0;
            e.min_x.length() <= e.max_x.length() && e.min_y.length() <= e.max_y.length()
        },
    decreases commands.len(),
{
    if commands.len() > 0 {
        lemma_extent_is_ordered(initial_unit, commands.drop_last());
    }
}

/// The unit in force when command `i` is read.
pub open spec fn unit_at(initial_unit: Unit, commands: Seq<OutlineCommand>, i: int) -> Unit {
    scan_all(scan_start(initial_unit), commands.take(i)).unit
}

/// Whether bounds hold a reading between them.
pub open spec fn holds(bounds: Option<Span>, reading: Reading) -> bool {
    bounds is Some && bounds->0.low.length() <= reading.length() <= bounds->0.high.length()
}

/// The extent holds every coordinate of every operation: none lies outside
/// the bounds of its axis.
pub proof fn lemma_extent_holds_every_reading(
    initial_unit: Unit,
    commands: Seq<OutlineCommand>,
    i: int,
)
    requires
        0 <= i < commands.len(),
        commands[i] is Operation,
    ensures
        commands[i]->Operation_x is Some ==> holds(
            scan_all(scan_start(initial_unit), commands).x,
            Reading { nano: commands[i]->Operation_x->0, unit: unit_at(initial_unit, commands, i) },
        ),
        commands[i]->Operation_y is Some ==> holds(
            scan_all(scan_start(initial_unit), commands).y,
            Reading { nano: commands[i]->Operation_y->0, unit: unit_at(initial_unit, commands, i) },
        ),
    decreases commands.len(),
{
    let shorter = commands.drop_last();
    let before = scan_all(scan_start(initial_unit), shorter);
    lemma_extent_is_ordered(initial_unit, shorter);
    if i == commands.len() - 1 {
        assert(commands.take(i) == shorter);
        if commands[i]->Operation_x is Some {
            lemma_widened_bounds(
                before.x,
                Reading { nano: commands[i]->Operation_x->0, unit: before.unit },
            );
        }
        if commands[i]->Operation_y is Some {
            lemma_widened_bounds(
                before.y,
                Reading { nano: commands[i]->Operation_y->0, unit: before.unit },
            );
        }
    } else {
        lemma_extent_holds_every_reading(initial_unit, shorter, i);
        assert(shorter.take(i) == commands.take(i));
        assert(shorter[i] == commands[i]);
        match commands.last() {
            OutlineCommand::Operation { x, y } => {
                if x is Some {
                    lemma_widened_bounds(before.x, Reading { nano: x->0, unit: before.unit });
                }
                if y is Some {
                    lemma_widened_bounds(before.y, Reading { nano: y->0, unit: before.unit });
                }
            },
            _ => {},
        }
    }
}

/// Takes a reading into the bounds.
pub fn widen(bounds: Option<Span>, reading: Reading) -> (r: Option<Span>)
    ensures
        r == widened(bounds, reading),
{
    match bounds {
        None => Some(Span { low: reading, high: reading }),
        Some(span) => {
            let size = length_of(reading);
            let low = if size < length_of(span.low) {
                reading
            } else {
                span.low
            };
            let high = if size > length_of(span.high) {
                reading
            } else {
                span.high
            };
            Some(Span { low, high })
        },
    }
}

/// The exact length of a reading, in fifths of a millionth of a millimetre.
pub fn length_of(reading: Reading) -> (r: i128)
    ensures
        r == reading.length(),
{
    match reading.unit {
        Unit::Millimeters => reading.nano as i128 * 5,
        Unit::Inches => reading.nano as i128 * 127,
    }
}

/// Puts a reading on the grid of a hundred-thousandth of a millimetre, or
/// tells that it lies beyond the grid's limit.
pub fn to_grid(reading: Reading) -> (r: Option<i64>)
    ensures
        match r {
            Some(v) => v == reading.on_grid() && -GRID_LIMIT <= v <= GRID_LIMIT,
            None => reading.on_grid() < -GRID_LIMIT || reading.on_grid() > GRID_LIMIT,
        },
{
    let size = length_of(reading);
    let v: i128 = if size >= 0 {
        (size + 25) / 50
    } else {
        -((-size + 25) / 50)
    };
    if v < -(GRID_LIMIT as i128) || v > GRID_LIMIT as i128 {
        None
    } else {
        Some(v as i64)
    }
}

/// The extent of the board that the commands outline. A file that could not
/// be read to its end still counts if it gave any command; one that gave
/// none fails with the reader's message. Commands without both an x and a y
/// coordinate give no extent.
pub fn parse_outline_bounds(
    read_error: Option<&str>,
    initial_unit: Unit,
    commands: &Vec<OutlineCommand>,
) -> (r: Result<OutlineExtent, TransJlcError>)
    ensures
        match r {
            Ok(extent) => extent_of(initial_unit, commands@) == Some(extent) && !(read_error
                is Some && commands@.len() == 0),
            Err(e) => e is InvalidGerberFormat && (extent_of(initial_unit, commands@) is None || (
            read_error is Some && commands@.len() == 0)),
        },
        r is Err && read_error is Some && commands@.len() == 0 ==> r->Err_0->InvalidGerberFormat_reason@
            == "Failed to parse outline: "@ + read_error->0@,
        r is Err && !(read_error is Some && commands@.len() == 0) ==> r->Err_0->InvalidGerberFormat_reason@
            == "Failed to parse board outline bounds"@,
{
    if let Some(message) = read_error {
        if commands.len() == 0 {
            let mut reason: Vec<char> = Vec::new();
            append_str(&mut reason, "Failed to parse outline: ");
            append_str(&mut reason, message);
            return Err(TransJlcError::InvalidGerberFormat { reason: string_of(reason.as_slice()) });
        }
    }
    let mut unit = initial_unit;
    let mut xs: Option<Span> = None;
    let mut ys: Option<Span> = None;
    let mut i: usize = 0;
    assert(commands@.take(0) == Seq::<OutlineCommand>::empty());
    while i < commands.len()
        invariant
            i <= commands@.len(),
            scan_all(scan_start(initial_unit), commands@.take(i as int)) == (ExtentScan {
                unit,
                x: xs,
                y: ys,
            }),
        decreases commands@.len() - i,
    {
        assert(commands@.take(i + 1).drop_last() == commands@.take(i as int));
        match commands[i] {
            OutlineCommand::SetUnit(next) => {
                unit = next;
            },
            OutlineCommand::Operation { x, y } => {
                if let Some(nano) = x {
                    xs = widen(xs, Reading { nano, unit });
                }
                if let Some(nano) = y {
                    ys = widen(ys, Reading { nano, unit });
                }
            },
            OutlineCommand::Other => {},
        }
        i += 1;
    }
    assert(commands@.take(commands@.len() as int) == commands@);
    match (xs, ys) {
        (Some(x), Some(y)) => Ok(
            OutlineExtent { min_x: x.low, max_x: x.high, min_y: y.low, max_y: y.high },
        ),
        _ => Err(
            TransJlcError::InvalidGerberFormat {
                reason: "Failed to parse board outline bounds".to_owned(),
            },
        ),
    }
}

/// Puts an extent on the grid, or tells that it lies beyond the grid's
/// limit.
pub fn extent_on_grid(extent: &OutlineExtent) -> (r: Option<GridBounds>)
    ensures
        match r {
            Some(bounds) => {
                &&& bounds.min_x == extent.min_x.on_grid()
                &&& bounds.max_x == extent.max_x.on_grid()
                &&& bounds.min_y == extent.min_y.on_grid()
                &&& bounds.max_y == extent.max_y.on_grid()
                &&& bounds.in_reach()
            },
            None => {
                ||| extent.min_x.on_grid() < -GRID_LIMIT || extent.min_x.on_grid() > GRID_LIMIT
                ||| extent.max_x.on_grid() < -GRID_LIMIT || extent.max_x.on_grid() > GRID_LIMIT
                ||| extent.min_y.on_grid() < -GRID_LIMIT || extent.min_y.on_grid() > GRID_LIMIT
                ||| extent.max_y.on_grid() < -GRID_LIMIT || extent.max_y.on_grid() > GRID_LIMIT
            },
        },
{
    let min_x = match to_grid(extent.min_x) {
        Some(v) => v,
        None => {
            return None;
        },
    };
    let max_x = match to_grid(extent.max_x) {
        Some(v) => v,
        None => {
            return None;
        },
    };
    let min_y = match to_grid(extent.min_y) {
        Some(v) => v,
        None => {
            return None;
        },
    };
    let max_y = match to_grid(extent.max_y) {
        Some(v) => v,
        None => {
            return None;
        },
    };
    Some(GridBounds { min_x, max_x, min_y, max_y })
}

/// Putting lengths on the grid keeps their order, so the grid bounds of an
/// ordered extent are ordered.
pub proof fn lemma_grid_keeps_order(a: int, b: int)
    requires
        a <= b,
    ensures
        rounded_fiftieth(a) <= rounded_fiftieth(b),
{
}

} // verus!
