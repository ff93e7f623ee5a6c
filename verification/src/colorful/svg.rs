//! The SVG documents of the colourful silkscreen: the overlay of the top
//! side, that of the bottom side, and the outline of the board.
//!
//! Every number in a document arrives here as text, written out by whoever
//! measured the board. What is decided here is the document: its elements,
//! their attributes and their order, and the corners through which each path
//! runs. The text of the document is written by the `xmlwriter` crate.

use crate::text::append_str;
use crate::text::chars_of;
use crate::text::decimal;
use crate::text::push_decimal;
use crate::text::string_of;
use vstd::prelude::*;
use xmlwriter::Indent;
use xmlwriter::Options;
use xmlwriter::XmlWriter;

verus! {

/// `xmlwriter::XmlWriter`, which takes the parts of a document one by one.
#[verifier::external_type_specification]
#[verifier::external_body]
pub struct ExXmlWriter(XmlWriter);

/// A part of a document, as a writer takes it.
pub enum XmlStep {
    /// An element begins.
    Start(Seq<char>),
    /// The element that has just begun gets an attribute.
    Attribute(Seq<char>, Seq<char>),
    /// The innermost open element ends.
    End,
}

/// The parts that a writer has taken so far.
pub uninterp spec fn xml_steps(writer: XmlWriter) -> Seq<XmlStep>;

/// The text of the document that a writer makes of the parts it has taken,
/// when it writes double quotes and indents by two spaces.
pub uninterp spec fn xml_rendered(steps: Seq<XmlStep>) -> Seq<char>;

/// Whether a writer takes an attribute next: only directly after the
/// beginning of an element or after another attribute.
pub open spec fn takes_attribute(steps: Seq<XmlStep>) -> bool {
    steps.len() > 0 && !(steps.last() is End)
}

/// Makes a writer with `XmlWriter::new`, for double quotes and an indent of
/// two spaces. It has taken nothing yet.
#[verifier::external_body]
pub(crate) fn xml_new() -> (r: XmlWriter)
    ensures
        xml_steps(r) == Seq::<XmlStep>::empty(),
{
    XmlWriter::new(
        Options {
            use_single_quote: false,
            indent: Indent::Spaces(2),
            attributes_indent: Indent::Spaces(2),
        },
    )
}

/// Calls `XmlWriter::start_element`: the writer takes the beginning of an
/// element.
#[verifier::external_body]
pub(crate) fn xml_start(writer: &mut XmlWriter, name: &str)
    ensures
        xml_steps(*final(writer)) == xml_steps(*old(writer)).push(XmlStep::Start(name@)),
{
    writer.start_element(name)
}

/// Calls `XmlWriter::write_attribute`: the writer takes an attribute. The
/// call is made only where the writer takes one, directly after the
/// beginning of an element or after another attribute.
#[verifier::external_body]
pub(crate) fn xml_attribute(writer: &mut XmlWriter, name: &str, value: &str)
    requires
        takes_attribute(xml_steps(*old(writer))),
    ensures
        xml_steps(*final(writer)) == xml_steps(*old(writer)).push(
            XmlStep::Attribute(name@, value@),
        ),
{
    writer.write_attribute(name, value)
}

/// Calls `XmlWriter::end_element`: the writer takes the end of the innermost
/// open element.
#[verifier::external_body]
pub(crate) fn xml_end(writer: &mut XmlWriter)
    ensures
        xml_steps(*final(writer)) == xml_steps(*old(writer)).push(XmlStep::End),
{
    writer.end_element()
}

/// Calls `XmlWriter::end_document`, which closes what is open and hands out
/// the text of the document.
#[verifier::external_body]
pub(crate) fn xml_finish(writer: XmlWriter) -> (r: String)
    ensures
        r@ == xml_rendered(xml_steps(writer)),
{
    writer.end_document()
}

/// The raster image of one side: its size in pixels, and its content as a
/// data URI.
#[derive(Debug, Clone)]
pub struct SilkscreenImage {
    pub width: u32,
    pub height: u32,
    pub data_uri: String,
}

/// The four sides of a rectangle, each as the text of a number. The top is
/// the side with the smaller y.
#[derive(Debug, Clone)]
pub struct Frame {
    pub left: String,
    pub right: String,
    pub top: String,
    pub bottom: String,
}

/// The numbers of an overlay document, each as text.
#[derive(Debug, Clone)]
pub struct SvgFigures {
    /// The width of the board in millimetres.
    pub width_mm: String,
    /// The height of the board in millimetres.
    pub height_mm: String,
    /// The left side of the board in the document's units.
    pub min_x: String,
    /// The top side of the board in the document's units.
    pub min_y: String,
    /// The right side of the board in the document's units.
    pub max_x: String,
    /// The width of the board in the document's units.
    pub width: String,
    /// The height of the board in the document's units.
    pub height: String,
    /// The coordinates of the marks, x before y, mark after mark.
    pub marks: Vec<String>,
    /// The board, drawn in by the clip margin.
    pub shrink: Frame,
    /// The board, drawn out by the expansion.
    pub expand: Frame,
    /// How far the mirrored bottom side is shifted to lie on the board.
    pub mirror_shift: String,
    /// The factor from image pixels to the document's units along x.
    pub image_scale_x: String,
    /// The factor from image pixels to the document's units along y.
    pub image_scale_y: String,
}

/// The numbers of the outline document, each as text.
#[derive(Debug, Clone)]
pub struct OutlineFigures {
    pub width_mm: String,
    pub height_mm: String,
    pub x: String,
    pub y: String,
    pub width: String,
    pub height: String,
}

/// The declaration that every document begins with.
pub open spec fn svg_header() -> Seq<char> {
    "<?xml version=\"1.0\" encoding=\"UTF-8\" standalone=\"no\"?>\n"@
}

/// A length in millimetres.
pub open spec fn millimetres(number: Seq<char>) -> Seq<char> {
    number + "mm"@
}

/// The texts in a row, a space between each two.
pub open spec fn spaced(parts: Seq<Seq<char>>) -> Seq<char>
    decreases parts.len(),
{
    if parts.len() == 0 {
        Seq::empty()
    } else if parts.len() == 1 {
        parts[0]
    } else {
        spaced(parts.drop_last()) + " "@ + parts.last()
    }
}

/// The texts in a row, nothing between them.
pub open spec fn joined(parts: Seq<Seq<char>>) -> Seq<char>
    decreases parts.len(),
{
    if parts.len() == 0 {
        Seq::empty()
    } else {
        joined(parts.drop_last()) + parts.last()
    }
}

/// The path that starts at the first corner and runs through the four
/// others: each coordinate is followed by a space.
pub open spec fn path_through(
    a: (Seq<char>, Seq<char>),
    b: (Seq<char>, Seq<char>),
    c: (Seq<char>, Seq<char>),
    d: (Seq<char>, Seq<char>),
    e: (Seq<char>, Seq<char>),
) -> Seq<char> {
    "M "@ + a.0 + " "@ + a.1 + " L "@ + b.0 + " "@ + b.1 + " "@ + c.0 + " "@ + c.1 + " "@ + d.0
        + " "@ + d.1 + " "@ + e.0 + " "@ + e.1 + " "@
}

/// The inner clip path: from the lower right corner over the lower left,
/// the upper left and the upper right back to it.
pub open spec fn shrink_path(frame: Frame) -> Seq<char> {
    path_through(
        (frame.right@, frame.bottom@),
        (frame.left@, frame.bottom@),
        (frame.left@, frame.top@),
        (frame.right@, frame.top@),
        (frame.right@, frame.bottom@),
    )
}

/// The outer clip path: from the upper right corner over the lower right,
/// the lower left and the upper left back to it.
pub open spec fn solder_path(frame: Frame) -> Seq<char> {
    path_through(
        (frame.right@, frame.top@),
        (frame.right@, frame.bottom@),
        (frame.left@, frame.bottom@),
        (frame.left@, frame.top@),
        (frame.right@, frame.top@),
    )
}

/// The path of the white background: from the lower left corner over the
/// upper left, the upper right and the lower right back to it.
pub open spec fn background_path(frame: Frame) -> Seq<char> {
    path_through(
        (frame.left@, frame.bottom@),
        (frame.left@, frame.top@),
        (frame.right@, frame.top@),
        (frame.right@, frame.bottom@),
        (frame.left@, frame.bottom@),
    )
}

/// The box of the board: its left, its top, its width and its height.
pub open spec fn board_box(figures: SvgFigures) -> Seq<char> {
    figures.min_x@ + " "@ + figures.min_y@ + " "@ + figures.width@ + " "@ + figures.height@
}

/// The box of the outline document.
pub open spec fn outline_box(figures: OutlineFigures) -> Seq<char> {
    figures.x@ + " "@ + figures.y@ + " "@ + figures.width@ + " "@ + figures.height@
}

/// The transform that mirrors the bottom side and shifts it back onto the
/// board.
pub open spec fn mirror_transform(figures: SvgFigures) -> Seq<char> {
    "scale(-1 1) translate("@ + figures.mirror_shift@ + " 0)"@
}

/// The transform that lays the image onto the board: it scales pixels to
/// the document's units and moves the image's corner to `anchor_x` at the
/// top of the board.
pub open spec fn image_matrix(figures: SvgFigures, anchor_x: Seq<char>) -> Seq<char> {
    "matrix("@ + figures.image_scale_x@ + " 0 0 "@ + figures.image_scale_y@ + " "@ + anchor_x
        + " "@ + figures.min_y@ + ")"@
}

/// The parts of an overlay: two nested clip paths, of which the outer one
/// holds the openings of the solder mask, and a group that they clip, with a
/// white background and the image. The two sides differ in the transform of
/// the group and in that of the image.
pub open spec fn overlay_steps(
    figures: &SvgFigures,
    image: &SilkscreenImage,
    mask_paths: &Vec<String>,
    group_transform: Seq<char>,
    matrix: Seq<char>,
) -> Seq<XmlStep> {
    Seq::<XmlStep>::empty()
        .push(XmlStep::Start("svg"@))
        .push(XmlStep::Attribute("width"@, millimetres(figures.width_mm@)))
        .push(XmlStep::Attribute("height"@, millimetres(figures.height_mm@)))
        .push(XmlStep::Attribute("boardBox"@, board_box(*figures)))
        .push(XmlStep::Attribute("viewBox"@, board_box(*figures)))
        .push(XmlStep::Attribute("version"@, "1.1"@))
        .push(XmlStep::Attribute("eda-version"@, "1.6(2025-08-27)"@))
        .push(XmlStep::Attribute("mark-points"@, spaced(figures.marks.deep_view())))
        .push(XmlStep::Attribute("xmlns:inkscape"@, "http://www.inkscape.org/namespaces/inkscape"@))
        .push(XmlStep::Attribute("xmlns:sodipodi"@, "http://sodipodi.sourceforge.net/DTD/sodipodi-0.dtd"@))
        .push(XmlStep::Attribute("xmlns:xlink"@, "http://www.w3.org/1999/xlink"@))
        .push(XmlStep::Attribute("xmlns"@, "http://www.w3.org/2000/svg"@))
        .push(XmlStep::Attribute("xmlns:svg"@, "http://www.w3.org/2000/svg"@))
        .push(XmlStep::Start("defs"@))
        .push(XmlStep::Start("clipPath"@))
        .push(XmlStep::Attribute("id"@, "clipPath0"@))
        .push(XmlStep::Start("path"@))
        .push(XmlStep::Attribute("d"@, shrink_path(figures.shrink)))
        .push(XmlStep::Attribute("id"@, "outline0"@))
        .push(XmlStep::Attribute("stroke"@, "none"@))
        .push(XmlStep::Attribute("style"@, "fill-opacity:1;fill-rule:nonzero;fill:block;"@))
        .push(XmlStep::End)
        .push(XmlStep::End)
        .push(XmlStep::End)
        .push(XmlStep::Start("defs"@))
        .push(XmlStep::Start("clipPath"@))
        .push(XmlStep::Attribute("id"@, "clipPath1"@))
        .push(XmlStep::Attribute("clip-path"@, "url(#clipPath0)"@))
        .push(XmlStep::Start("path"@))
        .push(XmlStep::Attribute("d"@, solder_path(figures.expand) + joined(mask_paths.deep_view())))
        .push(XmlStep::Attribute("id"@, "solder1"@))
        .push(XmlStep::Attribute("stroke"@, "none"@))
        .push(XmlStep::Attribute("style"@, "fill-opacity:1;fill-rule:evenodd;clip-rule:evenodd;fill:block;"@))
        .push(XmlStep::End)
        .push(XmlStep::End)
        .push(XmlStep::End)
        .push(XmlStep::Start("g"@))
        .push(XmlStep::Attribute("clip-path"@, "url(#clipPath1)"@))
        .push(XmlStep::Attribute("transform"@, group_transform))
        .push(XmlStep::Start("path"@))
        .push(XmlStep::Attribute("d"@, background_path(figures.expand)))
        .push(XmlStep::Attribute("fill"@, "#FFFFFF"@))
        .push(XmlStep::Attribute("stroke"@, "none"@))
        .push(XmlStep::Attribute("stroke-width"@, "0"@))
        .push(XmlStep::Attribute("id"@, "background"@))
        .push(XmlStep::End)
        .push(XmlStep::Start("image"@))
        .push(XmlStep::Attribute("width"@, decimal(image.width as nat)))
        .push(XmlStep::Attribute("height"@, decimal(image.height as nat)))
        .push(XmlStep::Attribute("preserveAspectRatio"@, "none"@))
        .push(XmlStep::Attribute("xlink:href"@, image.data_uri@))
        .push(XmlStep::Attribute("transform"@, matrix))
        .push(XmlStep::End)
        .push(XmlStep::End)
        .push(XmlStep::End)
}

/// The transform of the group of the top side, which lies as it is drawn.
pub open spec fn plain_transform() -> Seq<char> {
    "scale(1 1) translate(0 0)"@
}

/// The parts of the overlay of the top side: the image is laid on from the
/// left.
pub open spec fn top_svg_steps(
    figures: &SvgFigures,
    image: &SilkscreenImage,
    mask_paths: &Vec<String>,
) -> Seq<XmlStep> {
    overlay_steps(
        figures,
        image,
        mask_paths,
        plain_transform(),
        image_matrix(*figures, figures.min_x@),
    )
}

/// The parts of the overlay of the bottom side: the group is mirrored, and
/// the image is laid on from the right.
pub open spec fn bottom_svg_steps(
    figures: &SvgFigures,
    image: &SilkscreenImage,
    mask_paths: &Vec<String>,
) -> Seq<XmlStep> {
    overlay_steps(
        figures,
        image,
        mask_paths,
        mirror_transform(*figures),
        image_matrix(*figures, figures.max_x@),
    )
}

/// The parts of the outline document: one rectangle, as large as the board.
pub open spec fn outline_svg_steps(figures: &OutlineFigures) -> Seq<XmlStep> {
    Seq::<XmlStep>::empty()
        .push(XmlStep::Start("svg"@))
        .push(XmlStep::Attribute("width"@, millimetres(figures.width_mm@)))
        .push(XmlStep::Attribute("height"@, millimetres(figures.height_mm@)))
        .push(XmlStep::Attribute("viewBox"@, outline_box(*figures)))
        .push(XmlStep::Attribute("version"@, "1.1"@))
        .push(XmlStep::Attribute("xmlns"@, "http://www.w3.org/2000/svg"@))
        .push(XmlStep::Attribute("xmlns:svg"@, "http://www.w3.org/2000/svg"@))
        .push(XmlStep::Start("rect"@))
        .push(XmlStep::Attribute("x"@, figures.x@))
        .push(XmlStep::Attribute("y"@, figures.y@))
        .push(XmlStep::Attribute("width"@, figures.width@))
        .push(XmlStep::Attribute("height"@, figures.height@))
        .push(XmlStep::Attribute("fill"@, "none"@))
        .push(XmlStep::Attribute("stroke"@, "#00AA00"@))
        .push(XmlStep::Attribute("stroke-width"@, "1"@))
        .push(XmlStep::End)
        .push(XmlStep::End)
}

/// Joins texts with a space between each two.
pub fn join_spaced(parts: &Vec<String>) -> (r: Vec<char>)
    ensures
        r@ == spaced(parts.deep_view()),
{
    let mut out: Vec<char> = Vec::new();
    let mut i: usize = 0;
    assert(parts.deep_view().take(0).len() == 0);
    while i < parts.len()
        invariant
            i <= parts@.len(),
            out@ == spaced(parts.deep_view().take(i as int)),
        decreases parts@.len() - i,
    {
        proof {
            let next = parts.deep_view().take(i + 1);
            assert(next.drop_last() == parts.deep_view().take(i as int));
            assert(next.last() == parts@[i as int]@);
        }
        if i > 0 {
            append_str(&mut out, " ");
        }
        append_str(&mut out, parts[i].as_str());
        i += 1;
    }
    assert(parts.deep_view().take(parts@.len() as int) == parts.deep_view());
    out
}

/// Appends texts one after the other.
pub fn append_all(buf: &mut Vec<char>, parts: &Vec<String>)
    ensures
        final(buf)@ == old(buf)@ + joined(parts.deep_view()),
{
    let mut i: usize = 0;
    assert(parts.deep_view().take(0).len() == 0);
    assert(buf@ =~= old(buf)@ + Seq::<char>::empty());
    while i < parts.len()
        invariant
            i <= parts@.len(),
            buf@ == old(buf)@ + joined(parts.deep_view().take(i as int)),
        decreases parts@.len() - i,
    {
        proof {
            let next = parts.deep_view().take(i + 1);
            assert(next.drop_last() == parts.deep_view().take(i as int));
            assert(next.last() == parts@[i as int]@);
        }
        let ghost before = buf@;
        append_str(buf, parts[i].as_str());
        assert(buf@ =~= old(buf)@ + joined(parts.deep_view().take(i + 1)));
        i += 1;
    }
    assert(parts.deep_view().take(parts@.len() as int) == parts.deep_view());
}

/// Writes the path through five corners.
pub fn write_path(
    a: (&str, &str),
    b: (&str, &str),
    c: (&str, &str),
    d: (&str, &str),
    e: (&str, &str),
) -> (r: Vec<char>)
    ensures
        r@ == path_through((a.0@, a.1@), (b.0@, b.1@), (c.0@, c.1@), (d.0@, d.1@), (e.0@, e.1@)),
{
    let mut out: Vec<char> = Vec::new();
    append_str(&mut out, "M ");
    append_str(&mut out, a.0);
    append_str(&mut out, " ");
    append_str(&mut out, a.1);
    append_str(&mut out, " L ");
    append_str(&mut out, b.0);
    append_str(&mut out, " ");
    append_str(&mut out, b.1);
    append_str(&mut out, " ");
    append_str(&mut out, c.0);
    append_str(&mut out, " ");
    append_str(&mut out, c.1);
    append_str(&mut out, " ");
    append_str(&mut out, d.0);
    append_str(&mut out, " ");
    append_str(&mut out, d.1);
    append_str(&mut out, " ");
    append_str(&mut out, e.0);
    append_str(&mut out, " ");
    append_str(&mut out, e.1);
    append_str(&mut out, " ");
    out
}

/// The texts that both overlays share: the lengths, the box, the marks, the
/// three paths and the size of the image.
struct OverlayTexts {
    width: String,
    height: String,
    board: String,
    marks: String,
    shrink: String,
    solder: String,
    background: String,
    image_width: String,
    image_height: String,
}

/// Writes the texts that both overlays share.
fn overlay_texts(figures: &SvgFigures, image: &SilkscreenImage, mask_paths: &Vec<String>) -> (r:
    OverlayTexts)
    ensures
        r.width@ == millimetres(figures.width_mm@),
        r.height@ == millimetres(figures.height_mm@),
        r.board@ == board_box(*figures),
        r.marks@ == spaced(figures.marks.deep_view()),
        r.shrink@ == shrink_path(figures.shrink),
        r.solder@ == solder_path(figures.expand) + joined(mask_paths.deep_view()),
        r.background@ == background_path(figures.expand),
        r.image_width@ == decimal(image.width as nat),
        r.image_height@ == decimal(image.height as nat),
{
    let mut width = chars_of(figures.width_mm.as_str());
    append_str(&mut width, "mm");
    let mut height = chars_of(figures.height_mm.as_str());
    append_str(&mut height, "mm");
    let mut board = chars_of(figures.min_x.as_str());
    append_str(&mut board, " ");
    append_str(&mut board, figures.min_y.as_str());
    append_str(&mut board, " ");
    append_str(&mut board, figures.width.as_str());
    append_str(&mut board, " ");
    append_str(&mut board, figures.height.as_str());
    let marks = join_spaced(&figures.marks);
    let inner = &figures.shrink;
    let outer = &figures.expand;
    let shrink = write_path(
        (inner.right.as_str(), inner.bottom.as_str()),
        (inner.left.as_str(), inner.bottom.as_str()),
        (inner.left.as_str(), inner.top.as_str()),
        (inner.right.as_str(), inner.top.as_str()),
        (inner.right.as_str(), inner.bottom.as_str()),
    );
    let mut solder = write_path(
        (outer.right.as_str(), outer.top.as_str()),
        (outer.right.as_str(), outer.bottom.as_str()),
        (outer.left.as_str(), outer.bottom.as_str()),
        (outer.left.as_str(), outer.top.as_str()),
        (outer.right.as_str(), outer.top.as_str()),
    );
    append_all(&mut solder, mask_paths);
    let background = write_path(
        (outer.left.as_str(), outer.bottom.as_str()),
        (outer.left.as_str(), outer.top.as_str()),
        (outer.right.as_str(), outer.top.as_str()),
        (outer.right.as_str(), outer.bottom.as_str()),
        (outer.left.as_str(), outer.bottom.as_str()),
    );
    let mut image_width: Vec<char> = Vec::new();
    push_decimal(&mut image_width, image.width as u64);
    let mut image_height: Vec<char> = Vec::new();
    push_decimal(&mut image_height, image.height as u64);
    OverlayTexts {
        width: string_of(width.as_slice()),
        height: string_of(height.as_slice()),
        board: string_of(board.as_slice()),
        marks: string_of(marks.as_slice()),
        shrink: string_of(shrink.as_slice()),
        solder: string_of(solder.as_slice()),
        background: string_of(background.as_slice()),
        image_width: string_of(image_width.as_slice()),
        image_height: string_of(image_height.as_slice()),
    }
}

/// Writes the transform that lays the image onto the board.
fn write_image_matrix(figures: &SvgFigures, anchor_x: &str) -> (r: String)
    ensures
        r@ == image_matrix(*figures, anchor_x@),
{
    let mut out: Vec<char> = Vec::new();
    append_str(&mut out, "matrix(");
    append_str(&mut out, figures.image_scale_x.as_str());
    append_str(&mut out, " 0 0 ");
    append_str(&mut out, figures.image_scale_y.as_str());
    append_str(&mut out, " ");
    append_str(&mut out, anchor_x);
    append_str(&mut out, " ");
    append_str(&mut out, figures.min_y.as_str());
    append_str(&mut out, ")");
    string_of(out.as_slice())
}

/// Puts the declaration before the text of a document.
fn with_declaration(document: &str) -> (r: String)
    ensures
        r@ == svg_header() + document@,
{
    let mut out: Vec<char> = Vec::new();
    append_str(&mut out, "<?xml version=\"1.0\" encoding=\"UTF-8\" standalone=\"no\"?>\n");
    append_str(&mut out, document);
    string_of(out.as_slice())
}

/// Writes an overlay with the given transforms of the group and the image.
fn write_overlay(
    figures: &SvgFigures,
    image: &SilkscreenImage,
    mask_paths: &Vec<String>,
    group_transform: &str,
    matrix: &str,
) -> (r: String)
    ensures
        r@ == svg_header() + xml_rendered(
            overlay_steps(figures, image, mask_paths, group_transform@, matrix@),
        ),
{
    let texts = overlay_texts(figures, image, mask_paths);
    let mut writer = xml_new();
    xml_start(&mut writer, "svg");
    xml_attribute(&mut writer, "width", texts.width.as_str());
    xml_attribute(&mut writer, "height", texts.height.as_str());
    xml_attribute(&mut writer, "boardBox", texts.board.as_str());
    xml_attribute(&mut writer, "viewBox", texts.board.as_str());
    xml_attribute(&mut writer, "version", "1.1");
    xml_attribute(&mut writer, "eda-version", "1.6(2025-08-27)");
    xml_attribute(&mut writer, "mark-points", texts.marks.as_str());
    xml_attribute(&mut writer, "xmlns:inkscape", "http://www.inkscape.org/namespaces/inkscape");
    xml_attribute(&mut writer, "xmlns:sodipodi", "http://sodipodi.sourceforge.net/DTD/sodipodi-0.dtd");
    xml_attribute(&mut writer, "xmlns:xlink", "http://www.w3.org/1999/xlink");
    xml_attribute(&mut writer, "xmlns", "http://www.w3.org/2000/svg");
    xml_attribute(&mut writer, "xmlns:svg", "http://www.w3.org/2000/svg");
    xml_start(&mut writer, "defs");
    xml_start(&mut writer, "clipPath");
    xml_attribute(&mut writer, "id", "clipPath0");
    xml_start(&mut writer, "path");
    xml_attribute(&mut writer, "d", texts.shrink.as_str());
    xml_attribute(&mut writer, "id", "outline0");
    xml_attribute(&mut writer, "stroke", "none");
    xml_attribute(&mut writer, "style", "fill-opacity:1;fill-rule:nonzero;fill:block;");
    xml_end(&mut writer);
    xml_end(&mut writer);
    xml_end(&mut writer);
    xml_start(&mut writer, "defs");
    xml_start(&mut writer, "clipPath");
    xml_attribute(&mut writer, "id", "clipPath1");
    xml_attribute(&mut writer, "clip-path", "url(#clipPath0)");
    xml_start(&mut writer, "path");
    xml_attribute(&mut writer, "d", texts.solder.as_str());
    xml_attribute(&mut writer, "id", "solder1");
    xml_attribute(&mut writer, "stroke", "none");
    xml_attribute(&mut writer, "style", "fill-opacity:1;fill-rule:evenodd;clip-rule:evenodd;fill:block;");
    xml_end(&mut writer);
    xml_end(&mut writer);
    xml_end(&mut writer);
    xml_start(&mut writer, "g");
    xml_attribute(&mut writer, "clip-path", "url(#clipPath1)");
    xml_attribute(&mut writer, "transform", group_transform);
    xml_start(&mut writer, "path");
    xml_attribute(&mut writer, "d", texts.background.as_str());
    xml_attribute(&mut writer, "fill", "#FFFFFF");
    xml_attribute(&mut writer, "stroke", "none");
    xml_attribute(&mut writer, "stroke-width", "0");
    xml_attribute(&mut writer, "id", "background");
    xml_end(&mut writer);
    xml_start(&mut writer, "image");
    xml_attribute(&mut writer, "width", texts.image_width.as_str());
    xml_attribute(&mut writer, "height", texts.image_height.as_str());
    xml_attribute(&mut writer, "preserveAspectRatio", "none");
    xml_attribute(&mut writer, "xlink:href", image.data_uri.as_str());
    xml_attribute(&mut writer, "transform", matrix);
    xml_end(&mut writer);
    xml_end(&mut writer);
    xml_end(&mut writer);
    let document = xml_finish(writer);
    with_declaration(document.as_str())
}

/// Writes the overlay of the top side.
pub fn build_top_svg(figures: &SvgFigures, image: &SilkscreenImage, mask_paths: &Vec<String>) -> (r:
    String)
    ensures
        r@ == svg_header() + xml_rendered(top_svg_steps(figures, image, mask_paths)),
{
    let matrix = write_image_matrix(figures, figures.min_x.as_str());
    write_overlay(figures, image, mask_paths, "scale(1 1) translate(0 0)", matrix.as_str())
}

/// Writes the overlay of the bottom side.
pub fn build_bottom_svg(figures: &SvgFigures, image: &SilkscreenImage, mask_paths: &Vec<String>) -> (r:
    String)
    ensures
        r@ == svg_header() + xml_rendered(bottom_svg_steps(figures, image, mask_paths)),
{
    let matrix = write_image_matrix(figures, figures.max_x.as_str());
    let mut shift: Vec<char> = Vec::new();
    append_str(&mut shift, "scale(-1 1) translate(");
    append_str(&mut shift, figures.mirror_shift.as_str());
    append_str(&mut shift, " 0)");
    let mirror = string_of(shift.as_slice());
    write_overlay(figures, image, mask_paths, mirror.as_str(), matrix.as_str())
}

/// Writes the outline document.
pub fn build_board_outline_svg(figures: &OutlineFigures) -> (r: String)
    ensures
        r@ == svg_header() + xml_rendered(outline_svg_steps(figures)),
{
    let mut width_text = chars_of(figures.width_mm.as_str());
    append_str(&mut width_text, "mm");
    let width = string_of(width_text.as_slice());
    let mut height_text = chars_of(figures.height_mm.as_str());
    append_str(&mut height_text, "mm");
    let height = string_of(height_text.as_slice());
    let mut view_text = chars_of(figures.x.as_str());
    append_str(&mut view_text, " ");
    append_str(&mut view_text, figures.y.as_str());
    append_str(&mut view_text, " ");
    append_str(&mut view_text, figures.width.as_str());
    append_str(&mut view_text, " ");
    append_str(&mut view_text, figures.height.as_str());
    let view = string_of(view_text.as_slice());
    let mut writer = xml_new();
    xml_start(&mut writer, "svg");
    xml_attribute(&mut writer, "width", width.as_str());
    xml_attribute(&mut writer, "height", height.as_str());
    xml_attribute(&mut writer, "viewBox", view.as_str());
    xml_attribute(&mut writer, "version", "1.1");
    xml_attribute(&mut writer, "xmlns", "http://www.w3.org/2000/svg");
    xml_attribute(&mut writer, "xmlns:svg", "http://www.w3.org/2000/svg");
    xml_start(&mut writer, "rect");
    xml_attribute(&mut writer, "x", figures.x.as_str());
    xml_attribute(&mut writer, "y", figures.y.as_str());
    xml_attribute(&mut writer, "width", figures.width.as_str());
    xml_attribute(&mut writer, "height", figures.height.as_str());
    xml_attribute(&mut writer, "fill", "none");
    xml_attribute(&mut writer, "stroke", "#00AA00");
    xml_attribute(&mut writer, "stroke-width", "1");
    xml_end(&mut writer);
    xml_end(&mut writer);
    let document = xml_finish(writer);
    with_declaration(document.as_str())
}

} // verus!
