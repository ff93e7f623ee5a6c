use transjlc::colorful::mark::{build_outline_mark_gerber, compute_mark_points, GridBounds};
use transjlc::colorful::mask::{parse_solder_mask, ApertureEntry, MaskCommand, MaskShape, Point};
use transjlc::colorful::outline::{
    extent_on_grid, parse_outline_bounds, to_grid, OutlineCommand, OutlineExtent, Reading, Unit,
};
use transjlc::colorful::svg::{
    build_board_outline_svg, build_bottom_svg, build_top_svg, Frame, OutlineFigures,
    SilkscreenImage, SvgFigures,
};
use transjlc::error::TransJlcError;

fn mm(nano: i64) -> Reading {
    Reading { nano, unit: Unit::Millimeters }
}

fn inch(nano: i64) -> Reading {
    Reading { nano, unit: Unit::Inches }
}

#[test]
fn mark_file_draws_the_board_and_flashes_the_marks() {
    let bounds = GridBounds { min_x: 0, max_x: 1_000_000, min_y: -250_000, max_y: 123_456_789 };
    let marks = compute_mark_points(&bounds);
    assert_eq!(
        marks,
        vec![(7620, -242_380), (7620, 123_449_169), (992_380, 123_449_169)]
    );
    assert_eq!(
        build_outline_mark_gerber(&bounds, &marks),
        "G04 Fabrication_ColorfulBoardOutlineMark*\n\
         %FSLAX25Y25*%\n\
         %MOMM*%\n\
         %LPD*%\n\
         %ADD10C,0.150*%\n\
         D10*\n\
         X+0000000Y-0250000D02*\n\
         X+1000000Y-0250000D01*\n\
         X+1000000Y+123456789D01*\n\
         X+0000000Y+123456789D01*\n\
         X+0000000Y-0250000D01*\n\
         %ADD11C,1.000*%\n\
         D11*\n\
         X+0007620Y-0242380D03*\n\
         X+0007620Y+123449169D03*\n\
         X+0992380Y+123449169D03*\n\
         M02*\n"
    );
}

#[test]
fn mark_file_writes_every_coordinate_with_sign_and_seven_digits() {
    let bounds = GridBounds {
        min_x: i64::MIN,
        max_x: i64::MAX,
        min_y: -1,
        max_y: 9_999_999,
    };
    let text = build_outline_mark_gerber(&bounds, &[]);
    assert!(text.contains("X-9223372036854775808Y-0000001D02*\n"));
    assert!(text.contains("X+9223372036854775807Y+9999999D01*\n"));
    assert!(text.ends_with("%ADD11C,1.000*%\nD11*\nM02*\n"));
}

#[test]
fn outline_extent_is_the_box_of_all_coordinates() {
    let commands = vec![
        OutlineCommand::Other,
        OutlineCommand::Operation { x: Some(10_000_000), y: Some(5_000_000) },
        OutlineCommand::Operation { x: None, y: Some(-2_000_000) },
        OutlineCommand::Operation { x: Some(-1_500_000), y: None },
        OutlineCommand::SetUnit(Unit::Inches),
        OutlineCommand::Operation { x: Some(1_000_000), y: Some(100_000) },
        OutlineCommand::Operation { x: None, y: None },
    ];
    let extent = parse_outline_bounds(None, Unit::Millimeters, &commands).unwrap();
    assert_eq!(
        extent,
        OutlineExtent { min_x: mm(-1_500_000), max_x: inch(1_000_000), min_y: mm(-2_000_000), max_y: mm(5_000_000) }
    );
    let bounds = extent_on_grid(&extent).unwrap();
    assert_eq!(
        bounds,
        GridBounds { min_x: -150_000, max_x: 2_540_000, min_y: -200_000, max_y: 500_000 }
    );

    let single = vec![OutlineCommand::Operation { x: Some(7), y: Some(7) }];
    let point = parse_outline_bounds(Some("cut short"), Unit::Inches, &single).unwrap();
    assert_eq!(point.min_x, inch(7));
    assert_eq!(point.max_x, inch(7));
    assert_eq!(point.min_y, inch(7));
    assert_eq!(point.max_y, inch(7));
}

#[test]
fn outline_without_coordinates_has_no_extent() {
    assert_eq!(
        parse_outline_bounds(None, Unit::Millimeters, &Vec::new()),
        Err(TransJlcError::InvalidGerberFormat {
            reason: "Failed to parse board outline bounds".to_string()
        })
    );
    assert_eq!(
        parse_outline_bounds(Some("line 3: bad"), Unit::Millimeters, &Vec::new()),
        Err(TransJlcError::InvalidGerberFormat {
            reason: "Failed to parse outline: line 3: bad".to_string()
        })
    );
    let only_x = vec![
        OutlineCommand::Operation { x: Some(1), y: None },
        OutlineCommand::SetUnit(Unit::Inches),
    ];
    assert_eq!(
        parse_outline_bounds(Some("late"), Unit::Millimeters, &only_x),
        Err(TransJlcError::InvalidGerberFormat {
            reason: "Failed to parse board outline bounds".to_string()
        })
    );
}

#[test]
fn readings_go_on_the_grid_to_the_nearest_point() {
    assert_eq!(to_grid(mm(0)), Some(0));
    assert_eq!(to_grid(mm(4)), Some(0));
    assert_eq!(to_grid(mm(5)), Some(1));
    assert_eq!(to_grid(mm(14)), Some(1));
    assert_eq!(to_grid(mm(15)), Some(2));
    assert_eq!(to_grid(mm(-4)), Some(0));
    assert_eq!(to_grid(mm(-5)), Some(-1));
    assert_eq!(to_grid(mm(-15)), Some(-2));
    assert_eq!(to_grid(mm(1_000_000)), Some(100_000));
    assert_eq!(to_grid(inch(1_000_000)), Some(2_540_000));
    assert_eq!(to_grid(inch(1)), Some(3));
    assert_eq!(to_grid(inch(-1)), Some(-3));
    assert_eq!(to_grid(mm(10_000_000_000_000_004)), Some(1_000_000_000_000_000));
    assert_eq!(to_grid(mm(10_000_000_000_000_005)), None);
    assert_eq!(to_grid(inch(i64::MIN)), None);
    assert_eq!(to_grid(mm(i64::MAX)), None);
}

#[test]
fn mask_openings_are_flashes_and_regions() {
    let apertures = vec![
        ApertureEntry { code: 10, sized: true },
        ApertureEntry { code: 12, sized: false },
        ApertureEntry { code: 11, sized: true },
    ];
    let commands = vec![
        MaskCommand::Flash { x: Some(1_000_000), y: None },
        MaskCommand::SelectAperture(10),
        MaskCommand::SetUnit(Unit::Inches),
        MaskCommand::Flash { x: None, y: Some(2_000_000) },
        MaskCommand::SelectAperture(99),
        MaskCommand::Flash { x: Some(5), y: Some(6) },
        MaskCommand::SelectAperture(11),
        MaskCommand::Move { x: Some(0), y: Some(0) },
        MaskCommand::Interpolate { x: Some(9), y: Some(9) },
        MaskCommand::RegionMode(true),
        MaskCommand::Interpolate { x: Some(10), y: None },
        MaskCommand::Interpolate { x: None, y: Some(20) },
        MaskCommand::Other,
        MaskCommand::RegionMode(false),
        MaskCommand::Flash { x: None, y: None },
        MaskCommand::RegionMode(true),
        MaskCommand::Interpolate { x: Some(1), y: Some(1) },
        MaskCommand::Move { x: Some(50), y: Some(50) },
    ];
    let shapes = parse_solder_mask(None, Unit::Millimeters, &apertures, &commands).unwrap();
    assert_eq!(
        shapes,
        vec![
            MaskShape::Flash { center: Point { x: mm(1_000_000), y: inch(2_000_000) }, aperture: 10 },
            MaskShape::Region {
                points: vec![
                    Point { x: inch(9), y: inch(9) },
                    Point { x: inch(10), y: inch(9) },
                    Point { x: inch(10), y: inch(20) },
                ]
            },
            MaskShape::Flash { center: Point { x: inch(10), y: inch(20) }, aperture: 11 },
            MaskShape::Region {
                points: vec![Point { x: inch(10), y: inch(20) }, Point { x: inch(1), y: inch(1) }]
            },
        ]
    );
}

#[test]
fn flash_without_selection_uses_the_greatest_code() {
    let sized = vec![ApertureEntry { code: 10, sized: false }, ApertureEntry { code: 20, sized: true }];
    let flash = vec![MaskCommand::Flash { x: Some(3), y: Some(4) }];
    assert_eq!(
        parse_solder_mask(Some("cut short"), Unit::Millimeters, &sized, &flash).unwrap(),
        vec![MaskShape::Flash { center: Point { x: mm(3), y: mm(4) }, aperture: 20 }]
    );
    assert!(parse_solder_mask(None, Unit::Millimeters, &Vec::new(), &flash).unwrap().is_empty());
    let short = vec![
        MaskCommand::RegionMode(true),
        MaskCommand::RegionMode(false),
        MaskCommand::RegionMode(true),
    ];
    assert!(parse_solder_mask(None, Unit::Inches, &sized, &short).unwrap().is_empty());
    assert!(parse_solder_mask(None, Unit::Inches, &sized, &Vec::new()).unwrap().is_empty());
    assert_eq!(
        parse_solder_mask(Some("line 1: bad"), Unit::Inches, &sized, &Vec::new()),
        Err(TransJlcError::InvalidGerberFormat {
            reason: "Failed to parse solder mask: line 1: bad".to_string()
        })
    );
}

fn figures() -> SvgFigures {
    SvgFigures {
        width_mm: "10".to_string(),
        height_mm: "5".to_string(),
        min_x: "0".to_string(),
        min_y: "-19.68".to_string(),
        max_x: "39.37".to_string(),
        width: "39.37".to_string(),
        height: "19.68".to_string(),
        marks: vec!["0.3", "0.3", "0.3", "19.38", "39.07", "19.38"]
            .into_iter()
            .map(String::from)
            .collect(),
        shrink: Frame {
            left: "l".to_string(),
            right: "r".to_string(),
            top: "t".to_string(),
            bottom: "b".to_string(),
        },
        expand: Frame {
            left: "L".to_string(),
            right: "R".to_string(),
            top: "T".to_string(),
            bottom: "B".to_string(),
        },
        mirror_shift: "-39.37".to_string(),
        image_scale_x: "0.5".to_string(),
        image_scale_y: "0.25".to_string(),
    }
}

#[test]
fn top_overlay_is_written_element_by_element() {
    let image = SilkscreenImage { width: 80, height: 40, data_uri: "data:image/png;base64,AA==".to_string() };
    let masks = vec!["M 1 2 Z".to_string(), "M 3 4 Z".to_string()];
    let svg = build_top_svg(&figures(), &image, &masks);
    assert_eq!(
        svg,
        "<?xml version=\"1.0\" encoding=\"UTF-8\" standalone=\"no\"?>\n\
<svg\n  width=\"10mm\"\n  height=\"5mm\"\n  boardBox=\"0 -19.68 39.37 19.68\"\n  viewBox=\"0 -19.68 39.37 19.68\"\n  version=\"1.1\"\n  eda-version=\"1.6(2025-08-27)\"\n  mark-points=\"0.3 0.3 0.3 19.38 39.07 19.38\"\n  xmlns:inkscape=\"http://www.inkscape.org/namespaces/inkscape\"\n  xmlns:sodipodi=\"http://sodipodi.sourceforge.net/DTD/sodipodi-0.dtd\"\n  xmlns:xlink=\"http://www.w3.org/1999/xlink\"\n  xmlns=\"http://www.w3.org/2000/svg\"\n  xmlns:svg=\"http://www.w3.org/2000/svg\">\n  <defs>\n    <clipPath\n      id=\"clipPath0\">\n      <path\n        d=\"M r b L l b l t r t r b \"\n        id=\"outline0\"\n        stroke=\"none\"\n        style=\"fill-opacity:1;fill-rule:nonzero;fill:block;\"/>\n    </clipPath>\n  </defs>\n  <defs>\n    <clipPath\n      id=\"clipPath1\"\n      clip-path=\"url(#clipPath0)\">\n      <path\n        d=\"M R T L R B L B L T R T M 1 2 ZM 3 4 Z\"\n        id=\"solder1\"\n        stroke=\"none\"\n        style=\"fill-opacity:1;fill-rule:evenodd;clip-rule:evenodd;fill:block;\"/>\n    </clipPath>\n  </defs>\n  <g\n    clip-path=\"url(#clipPath1)\"\n    transform=\"scale(1 1) translate(0 0)\">\n    <path\n      d=\"M L B L L T R T R B L B \"\n      fill=\"#FFFFFF\"\n      stroke=\"none\"\n      stroke-width=\"0\"\n      id=\"background\"/>\n    <image\n      width=\"80\"\n      height=\"40\"\n      preserveAspectRatio=\"none\"\n      xlink:href=\"data:image/png;base64,AA==\"\n      transform=\"matrix(0.5 0 0 0.25 0 -19.68)\"/>\n  </g>\n</svg>\n"
    );
}

#[test]
fn bottom_overlay_is_mirrored() {
    let image = SilkscreenImage { width: 80, height: 40, data_uri: "uri".to_string() };
    let top = build_top_svg(&figures(), &image, &Vec::new());
    let bottom = build_bottom_svg(&figures(), &image, &Vec::new());
    assert!(top.contains("transform=\"scale(1 1) translate(0 0)\""));
    assert!(bottom.contains("transform=\"scale(-1 1) translate(-39.37 0)\""));
    assert!(top.contains("transform=\"matrix(0.5 0 0 0.25 0 -19.68)\""));
    assert!(bottom.contains("transform=\"matrix(0.5 0 0 0.25 39.37 -19.68)\""));
    assert!(bottom.contains("d=\"M R T L R B L B L T R T \""));
    assert_eq!(
        top.replace("scale(1 1) translate(0 0)", "scale(-1 1) translate(-39.37 0)")
            .replace("matrix(0.5 0 0 0.25 0 -19.68)", "matrix(0.5 0 0 0.25 39.37 -19.68)"),
        bottom
    );
}

#[test]
fn outline_document_is_one_rectangle() {
    let svg = build_board_outline_svg(&OutlineFigures {
        width_mm: "10".to_string(),
        height_mm: "5".to_string(),
        x: "0".to_string(),
        y: "1.5".to_string(),
        width: "39.37".to_string(),
        height: "19.68".to_string(),
    });
    assert_eq!(
        svg,
        "<?xml version=\"1.0\" encoding=\"UTF-8\" standalone=\"no\"?>\n\
<svg\n  width=\"10mm\"\n  height=\"5mm\"\n  viewBox=\"0 1.5 39.37 19.68\"\n  version=\"1.1\"\n  xmlns=\"http://www.w3.org/2000/svg\"\n  xmlns:svg=\"http://www.w3.org/2000/svg\">\n  <rect\n    x=\"0\"\n    y=\"1.5\"\n    width=\"39.37\"\n    height=\"19.68\"\n    fill=\"none\"\n    stroke=\"#00AA00\"\n    stroke-width=\"1\"/>\n</svg>\n"
    );
}

#[test]
fn parse_sample_solder_mask_generates_paths() {
    let apertures = vec![
        ApertureEntry { code: 10, sized: true },
        ApertureEntry { code: 11, sized: true },
    ];
    let commands = vec![
        MaskCommand::SetUnit(Unit::Millimeters),
        MaskCommand::SelectAperture(10),
        MaskCommand::Flash { x: Some(1_500_000), y: Some(2_500_000) },
        MaskCommand::SelectAperture(11),
        MaskCommand::Flash { x: Some(3_000_000), y: None },
        MaskCommand::RegionMode(true),
        MaskCommand::Move { x: Some(0), y: Some(0) },
        MaskCommand::Interpolate { x: Some(1_000_000), y: None },
        MaskCommand::Interpolate { x: None, y: Some(1_000_000) },
        MaskCommand::Interpolate { x: Some(0), y: Some(0) },
        MaskCommand::RegionMode(false),
    ];
    let paths = parse_solder_mask(None, Unit::Millimeters, &apertures, &commands).expect("parse mask");
    assert!(!paths.is_empty(), "expected parsed solder mask paths");
    assert_eq!(paths.len(), 3);
}
