//! The openings of a solder mask, taken from the commands of its file: a
//! shape for every flash of an aperture with a known size, and one for every
//! region that is filled.
//!
//! Coordinates are kept as read, like those of the outline. The shapes are
//! turned into paths by whoever draws them.

use crate::colorful::outline::Reading;
use crate::colorful::outline::Unit;
use crate::error::TransJlcError;
use crate::text::append_str;
use crate::text::string_of;
use vstd::prelude::*;

verus! {

/// A point, by the readings of its two coordinates.
#[derive(Debug, Clone, Copy, PartialEq, Eq, Structural)]
pub struct Point {
    pub x: Reading,
    pub y: Reading,
}

/// An aperture that the file defines: its code, and whether it has a size
/// that a rectangle can stand for.
#[derive(Debug, Clone, Copy, PartialEq, Eq, Structural)]
pub struct ApertureEntry {
    pub code: i32,
    pub sized: bool,
}

/// What a solder mask file holds, as far as its openings go.
#[derive(Debug, Clone, Copy, PartialEq, Eq, Structural)]
pub enum MaskCommand {
    /// The unit changes.
    SetUnit(Unit),
    /// A region begins or ends.
    RegionMode(bool),
    /// An aperture is selected by its code.
    SelectAperture(i32),
    /// The position moves.
    Move { x: Option<i64>, y: Option<i64> },
    /// A stroke is drawn from the position.
    Interpolate { x: Option<i64>, y: Option<i64> },
    /// The selected aperture is flashed.
    Flash { x: Option<i64>, y: Option<i64> },
    /// Anything else.
    Other,
}

/// An opening in the mask.
#[derive(Debug, Clone, PartialEq, Eq)]
pub enum MaskShape {
    /// The aperture of the given code, flashed at a point.
    Flash { center: Point, aperture: i32 },
    /// The region that the points enclose, in the order drawn.
    Region { points: Vec<Point> },
}

/// An opening in the mask, as contracts see it.
pub enum ShapeView {
    Flash { center: Point, aperture: i32 },
    Region { points: Seq<Point> },
}

impl View for MaskShape {
    type V = ShapeView;

    open spec fn view(&self) -> ShapeView {
        match self {
            MaskShape::Flash { center, aperture } => ShapeView::Flash {
                center: *center,
                aperture: *aperture,
            },
            MaskShape::Region { points } => ShapeView::Region { points: points@ },
        }
    }
}

/// The views of the shapes.
pub open spec fn shape_views(shapes: Seq<MaskShape>) -> Seq<ShapeView> {
    Seq::new(shapes.len(), |i: int| shapes[i]@)
}

/// The state of the scan of a mask file.
pub struct MaskScan {
    pub unit: Unit,
    pub aperture: Option<ApertureEntry>,
    pub position: Point,
    pub region_active: bool,
    pub region_points: Seq<Point>,
    pub shapes: Seq<ShapeView>,
}

/// The first aperture of the given code, if the file defines one.
pub open spec fn aperture_of(apertures: Seq<ApertureEntry>, code: i32) -> Option<ApertureEntry>
    decreases apertures.len(),
{
    if apertures.len() == 0 {
        None
    } else if apertures[0].code == code {
        Some(apertures[0])
    } else {
        aperture_of(apertures.skip(1), code)
    }
}

/// The aperture of the greatest code, if the file defines any: the last of
/// them where several bear it.
pub open spec fn greatest_aperture(apertures: Seq<ApertureEntry>) -> Option<ApertureEntry>
    decreases apertures.len(),
{
    if apertures.len() == 0 {
        None
    } else {
        match greatest_aperture(apertures.drop_last()) {
            Some(best) => if best.code > apertures.last().code {
                Some(best)
            } else {
                Some(apertures.last())
            },
            None => Some(apertures.last()),
        }
    }
}

/// The aperture that a flash uses: the selected one, or the one of the
/// greatest code where none is selected.
pub open spec fn flashed_aperture(
    selected: Option<ApertureEntry>,
    apertures: Seq<ApertureEntry>,
) -> Option<ApertureEntry> {
    if selected is Some {
        selected
    } else {
        greatest_aperture(apertures)
    }
}

/// The point that an operation leads to: each coordinate that it gives is
/// read in the unit in force, each that it leaves out stays.
pub open spec fn target(position: Point, x: Option<i64>, y: Option<i64>, unit: Unit) -> Point {
    Point {
        x: match x {
            Some(nano) => Reading { nano, unit },
            None => position.x,
        },
        y: match y {
            Some(nano) => Reading { nano, unit },
            None => position.y,
        },
    }
}

/// Whether the points of a region make a shape: it takes at least two.
pub open spec fn closes_region(scan: MaskScan) -> bool {
    scan.region_active && scan.region_points.len() > 1
}

/// The scan after one more command.
pub open spec fn mask_step(
    scan: MaskScan,
    apertures: Seq<ApertureEntry>,
    command: MaskCommand,
) -> MaskScan {
    match command {
        MaskCommand::SetUnit(unit) => MaskScan { unit, ..scan },
        MaskCommand::RegionMode(on) => if !on && closes_region(scan) {
            MaskScan {
                region_active: on,
                region_points: Seq::empty(),
                shapes: scan.shapes.push(ShapeView::Region { points: scan.region_points }),
                ..scan
            }
        } else {
            MaskScan { region_active: on, ..scan }
        },
        MaskCommand::SelectAperture(code) => MaskScan {
            aperture: aperture_of(apertures, code),
            ..scan
        },
        MaskCommand::Move { x, y } => MaskScan {
            position: target(scan.position, x, y, scan.unit),
            ..scan
        },
        MaskCommand::Interpolate { x, y } => {
            let next = target(scan.position, x, y, scan.unit);
            if scan.region_active {
                MaskScan {
                    position: next,
                    region_points: (if scan.region_points.len() == 0 {
                        seq![scan.position]
                    } else {
                        scan.region_points
                    }).push(next),
                    ..scan
                }
            } else {
                MaskScan { position: next, ..scan }
            }
        },
        MaskCommand::Flash { x, y } => {
            let at = target(scan.position, x, y, scan.unit);
            match flashed_aperture(scan.aperture, apertures) {
                Some(entry) => if entry.sized {
                    MaskScan {
                        position: at,
                        shapes: scan.shapes.push(
                            ShapeView::Flash { center: at, aperture: entry.code },
                        ),
                        ..scan
                    }
                } else {
                    MaskScan { position: at, ..scan }
                },
                None => MaskScan { position: at, ..scan },
            }
        },
        MaskCommand::Other => scan,
    }
}

/// The scan after all the commands.
pub open spec fn mask_scan(
    start: MaskScan,
    apertures: Seq<ApertureEntry>,
    commands: Seq<MaskCommand>,
) -> MaskScan
    decreases commands.len(),
{
    if commands.len() == 0 {
        start
    } else {
        mask_step(mask_scan(start, apertures, commands.drop_last()), apertures, commands.last())
    }
}

/// The scan before any command: at the origin, outside any region, with no
/// aperture selected.
pub open spec fn mask_start(unit: Unit) -> MaskScan {
    MaskScan {
        unit,
        aperture: None,
        position: origin(),
        region_active: false,
        region_points: Seq::empty(),
        shapes: Seq::empty(),
    }
}

/// The point where a file starts.
pub open spec fn origin() -> Point {
    Point {
        x: Reading { nano: 0, unit: Unit::Millimeters },
        y: Reading { nano: 0, unit: Unit::Millimeters },
    }
}

/// The openings of a mask: the shapes that the scan of its commands gives,
/// and the region that is still open at the end, if it has two points.
pub open spec fn mask_shapes(
    initial_unit: Unit,
    apertures: Seq<ApertureEntry>,
    commands: Seq<MaskCommand>,
) -> Seq<ShapeView> {
    let scan = mask_scan(mask_start(initial_unit), apertures, commands);
    if closes_region(scan) {
        scan.shapes.push(ShapeView::Region { points: scan.region_points })
    } else {
        scan.shapes
    }
}

/// The first aperture of the given code, if the file defines one.
pub fn find_aperture(apertures: &Vec<ApertureEntry>, code: i32) -> (r: Option<ApertureEntry>)
    ensures
        r == aperture_of(apertures@, code),
{
    let mut i: usize = 0;
    assert(apertures@.skip(0) == apertures@);
    while i < apertures.len()
        invariant
            i <= apertures@.len(),
            aperture_of(apertures@, code) == aperture_of(apertures@.skip(i as int), code),
        decreases apertures@.len() - i,
    {
        assert(apertures@.skip(i as int).skip(1) == apertures@.skip(i + 1));
        if apertures[i].code == code {
            return Some(apertures[i]);
        }
        i += 1;
    }
    None
}

/// The aperture of the greatest code, if the file defines any.
pub fn find_greatest_aperture(apertures: &Vec<ApertureEntry>) -> (r: Option<ApertureEntry>)
    ensures
        r == greatest_aperture(apertures@),
{
    let mut best: Option<ApertureEntry> = None;
    let mut i: usize = 0;
    while i < apertures.len()
        invariant
            i <= apertures@.len(),
            best == greatest_aperture(apertures@.take(i as int)),
        decreases apertures@.len() - i,
    {
        assert(apertures@.take(i + 1).drop_last() == apertures@.take(i as int));
        best = match best {
            Some(entry) => if entry.code > apertures[i].code {
                Some(entry)
            } else {
                Some(apertures[i])
            },
            None => Some(apertures[i]),
        };
        i += 1;
    }
    assert(apertures@.take(apertures@.len() as int) == apertures@);
    best
}

/// The point that an operation leads to.
pub fn move_to(position: Point, x: Option<i64>, y: Option<i64>, unit: Unit) -> (r: Point)
    ensures
        r == target(position, x, y, unit),
{
    Point {
        x: match x {
            Some(nano) => Reading { nano, unit },
            None => position.x,
        },
        y: match y {
            Some(nano) => Reading { nano, unit },
            None => position.y,
        },
    }
}

/// Reads the openings of a solder mask from the commands of its file, given
/// the unit that the file starts in and the apertures that it defines. A
/// file that could not be read to its end still counts if it gave any
/// command; one that gave none fails with the reader's message.
pub fn parse_solder_mask(
    read_error: Option<&str>,
    initial_unit: Unit,
    apertures: &Vec<ApertureEntry>,
    commands: &Vec<MaskCommand>,
) -> (r: Result<Vec<MaskShape>, TransJlcError>)
    ensures
        match r {
            Ok(shapes) => !(read_error is Some && commands@.len() == 0) && shape_views(shapes@)
                == mask_shapes(initial_unit, apertures@, commands@),
            Err(e) => read_error is Some && commands@.len() == 0 && e is InvalidGerberFormat
                && e->InvalidGerberFormat_reason@ == "Failed to parse solder mask: "@
                + read_error->0@,
        },
{
    if let Some(message) = read_error {
        if commands.len() == 0 {
            let mut reason: Vec<char> = Vec::new();
            append_str(&mut reason, "Failed to parse solder mask: ");
            append_str(&mut reason, message);
            return Err(TransJlcError::InvalidGerberFormat { reason: string_of(reason.as_slice()) });
        }
    }
    let mut unit = initial_unit;
    let mut selected: Option<ApertureEntry> = None;
    let mut position = Point {
        x: Reading { nano: 0, unit: Unit::Millimeters },
        y: Reading { nano: 0, unit: Unit::Millimeters },
    };
    let mut region_active = false;
    let mut region_points: Vec<Point> = Vec::new();
    let mut shapes: Vec<MaskShape> = Vec::new();
    let mut i: usize = 0;
    assert(commands@.take(0) == Seq::<MaskCommand>::empty());
    assert(shape_views(shapes@) =~= Seq::<ShapeView>::empty());
    while i < commands.len()
        invariant
            i <= commands@.len(),
            mask_scan(mask_start(initial_unit), apertures@, commands@.take(i as int)) == (MaskScan {
                unit,
                aperture: selected,
                position,
                region_active,
                region_points: region_points@,
                shapes: shape_views(shapes@),
            }),
        decreases commands@.len() - i,
    {
        assert(commands@.take(i + 1).drop_last() == commands@.take(i as int));
        let ghost views = shape_views(shapes@);
        match commands[i] {
            MaskCommand::SetUnit(next) => {
                unit = next;
            },
            MaskCommand::RegionMode(on) => {
                if !on && region_active && region_points.len() > 1 {
                    let ghost closed = region_points@;
                    shapes.push(MaskShape::Region { points: region_points });
                    region_points = Vec::new();
                    assert(region_points@ =~= Seq::<Point>::empty());
                    assert(shape_views(shapes@) =~= views.push(
                        ShapeView::Region { points: closed },
                    ));
                }
                region_active = on;
            },
            MaskCommand::SelectAperture(code) => {
                selected = find_aperture(apertures, code);
            },
            MaskCommand::Move { x, y } => {
                position = move_to(position, x, y, unit);
            },
            MaskCommand::Interpolate { x, y } => {
                let next = move_to(position, x, y, unit);
                if region_active {
                    let ghost before = region_points@;
                    if region_points.len() == 0 {
                        region_points.push(position);
                    }
                    region_points.push(next);
                    assert(region_points@ =~= (if before.len() == 0 {
                        seq![position]
                    } else {
                        before
                    }).push(next));
                }
                position = next;
            },
            MaskCommand::Flash { x, y } => {
                let at = move_to(position, x, y, unit);
                let used = match selected {
                    Some(entry) => Some(entry),
                    None => find_greatest_aperture(apertures),
                };
                if let Some(entry) = used {
                    if entry.sized {
                        shapes.push(MaskShape::Flash { center: at, aperture: entry.code });
                        assert(shape_views(shapes@) =~= views.push(
                            ShapeView::Flash { center: at, aperture: entry.code },
                        ));
                    }
                }
                position = at;
            },
            MaskCommand::Other => {},
        }
        i += 1;
    }
    assert(commands@.take(commands@.len() as int) == commands@);
    if region_active && region_points.len() > 1 {
        let ghost views = shape_views(shapes@);
        let ghost closed = region_points@;
        shapes.push(MaskShape::Region { points: region_points });
        assert(shape_views(shapes@) =~= views.push(ShapeView::Region { points: closed }));
    }
    Ok(shapes)
}

} // verus!
