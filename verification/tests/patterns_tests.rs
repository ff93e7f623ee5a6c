use transjlc::error::TransJlcError;
use transjlc::patterns::{EdaPatterns, LayerType, PatternMatcher};

#[test]
fn patterns_test_kicad_pattern_matching() {
    let patterns = PatternMatcher::create_kicad_patterns();

    assert_eq!(
        patterns.match_filename("project-Edge_Cuts.gbr"),
        Some(LayerType::BoardOutline)
    );
    assert_eq!(
        patterns.match_filename("project-F_Cu.gbr"),
        Some(LayerType::TopCopper)
    );
    assert_eq!(
        patterns.match_filename("project-B_Cu.gbr"),
        Some(LayerType::BottomCopper)
    );
    assert_eq!(
        patterns.match_filename("project-In1_Cu.gbr"),
        Some(LayerType::InnerLayer(1))
    );
}

#[test]
fn patterns_test_protel_pattern_matching() {
    let patterns = PatternMatcher::create_protel_patterns();

    assert_eq!(
        patterns.match_filename("project.GTL"),
        Some(LayerType::TopCopper)
    );
    assert_eq!(
        patterns.match_filename("project.gtl"),
        Some(LayerType::TopCopper)
    );
}

#[test]
fn test_layer_type_to_jlc_filename() {
    assert_eq!(
        LayerType::TopCopper.to_jlc_filename(),
        "Gerber_TopLayer.GTL"
    );
    assert_eq!(
        LayerType::InnerLayer(1).to_jlc_filename(),
        "Gerber_InnerLayer1.G1"
    );
    assert_eq!(
        LayerType::BoardOutline.to_jlc_filename(),
        "Gerber_BoardOutlineLayer.GKO"
    );
}

#[test]
fn test_can_handle_files() {
    let patterns = PatternMatcher::create_kicad_patterns();

    let files_with_multiple_layers = vec![
        "project-F_Cu.gbr".to_string(),
        "project-B_Cu.gbr".to_string(),
        "project-F_Mask.gbr".to_string(),
        "project-Edge_Cuts.gbr".to_string(),
    ];

    let files_with_few_layers = vec!["project-F_Cu.gbr".to_string(), "unknown.txt".to_string()];

    assert!(patterns.can_handle_files(&files_with_multiple_layers));
    assert!(!patterns.can_handle_files(&files_with_few_layers));
}

#[test]
fn integration_tests_test_kicad_pattern_matching() {
    let patterns = PatternMatcher::create_kicad_patterns();

    assert_eq!(
        patterns.match_filename("project-F_Cu.gbr"),
        Some(LayerType::TopCopper)
    );
    assert_eq!(
        patterns.match_filename("project-B_Cu.gbr"),
        Some(LayerType::BottomCopper)
    );
    assert_eq!(
        patterns.match_filename("project-F_Mask.gbr"),
        Some(LayerType::TopSoldermask)
    );
    assert_eq!(
        patterns.match_filename("project-Edge_Cuts.gbr"),
        Some(LayerType::BoardOutline)
    );
    assert_eq!(
        patterns.match_filename("project-PTH.drl"),
        Some(LayerType::PthThrough)
    );
    assert_eq!(
        patterns.match_filename("project-In1_Cu.gbr"),
        Some(LayerType::InnerLayer(1))
    );
    assert_eq!(
        patterns.match_filename("project-In10_Cu.gbr"),
        Some(LayerType::InnerLayer(10))
    );
}

#[test]
fn integration_tests_test_protel_pattern_matching() {
    let patterns = PatternMatcher::create_protel_patterns();

    assert_eq!(
        patterns.match_filename("project.GTL"),
        Some(LayerType::TopCopper)
    );
    assert_eq!(
        patterns.match_filename("project.gtl"),
        Some(LayerType::TopCopper)
    );
    assert_eq!(
        patterns.match_filename("PROJECT.GBL"),
        Some(LayerType::BottomCopper)
    );
    assert_eq!(
        patterns.match_filename("project.GKO"),
        Some(LayerType::BoardOutline)
    );
}

#[test]
fn test_auto_detection_kicad() {
    let files = vec![
        "project-F_Cu.gbr".to_string(),
        "project-B_Cu.gbr".to_string(),
        "project-F_Mask.gbr".to_string(),
        "project-Edge_Cuts.gbr".to_string(),
        "project-PTH.drl".to_string(),
    ];

    let patterns = PatternMatcher::auto_detect_eda(&files).expect("Should detect KiCad format");

    assert_eq!(patterns.name, "KiCad");
}

#[test]
fn test_auto_detection_protel() {
    let files = vec![
        "project.GTL".to_string(),
        "project.GBL".to_string(),
        "project.GTS".to_string(),
        "project.GKO".to_string(),
        "project.DRL".to_string(),
    ];

    let patterns = PatternMatcher::auto_detect_eda(&files).expect("Should detect Protel format");

    assert_eq!(patterns.name, "Protel");
}

#[test]
fn test_error_handling_no_matching_patterns() {
    let files = vec!["unknown.xyz".to_string(), "another.abc".to_string()];

    let result = PatternMatcher::auto_detect_eda(&files);
    assert!(result.is_err());
    assert_eq!(result.unwrap_err(), TransJlcError::NoMatchingPattern);
}

#[test]
fn test_layer_type_jlc_filename_conversion() {
    assert_eq!(
        LayerType::TopCopper.to_jlc_filename(),
        "Gerber_TopLayer.GTL"
    );
    assert_eq!(
        LayerType::BottomCopper.to_jlc_filename(),
        "Gerber_BottomLayer.GBL"
    );
    assert_eq!(
        LayerType::BoardOutline.to_jlc_filename(),
        "Gerber_BoardOutlineLayer.GKO"
    );
    assert_eq!(
        LayerType::InnerLayer(1).to_jlc_filename(),
        "Gerber_InnerLayer1.G1"
    );
    assert_eq!(
        LayerType::InnerLayer(42).to_jlc_filename(),
        "Gerber_InnerLayer42.G42"
    );
    assert_eq!(
        LayerType::PthThrough.to_jlc_filename(),
        "Drill_PTH_Through.DRL"
    );
}

#[test]
fn every_layer_has_its_canonical_name() {
    assert_eq!(LayerType::NpthThrough.to_jlc_filename(), "Drill_NPTH_Through.DRL");
    assert_eq!(LayerType::PthThroughVia.to_jlc_filename(), "Drill_PTH_Through_Via.DRL");
    assert_eq!(LayerType::BottomSilkscreen.to_jlc_filename(), "Gerber_BottomSilkscreenLayer.GBO");
    assert_eq!(LayerType::BottomSoldermask.to_jlc_filename(), "Gerber_BottomSolderMaskLayer.GBS");
    assert_eq!(LayerType::BottomPasteMask.to_jlc_filename(), "Gerber_BottomPasteMaskLayer.GBP");
    assert_eq!(LayerType::TopSilkscreen.to_jlc_filename(), "Gerber_TopSilkscreenLayer.GTO");
    assert_eq!(LayerType::TopSoldermask.to_jlc_filename(), "Gerber_TopSolderMaskLayer.GTS");
    assert_eq!(LayerType::TopPasteMask.to_jlc_filename(), "Gerber_TopPasteMaskLayer.GTP");
    assert_eq!(LayerType::InnerLayer(0).to_jlc_filename(), "Gerber_InnerLayer0.G0");
    assert_eq!(
        LayerType::InnerLayer(4294967295).to_jlc_filename(),
        "Gerber_InnerLayer4294967295.G4294967295"
    );
    assert_eq!(LayerType::Other.to_jlc_filename(), "Unknown");
}

#[test]
fn npth_rule_wins_over_pth_rule() {
    let kicad = PatternMatcher::create_kicad_patterns();
    assert_eq!(kicad.match_filename("board-NPTH.drl"), Some(LayerType::NpthThrough));
    assert_eq!(kicad.match_filename("board-npth.DRL"), Some(LayerType::NpthThrough));
    assert_eq!(kicad.match_filename("board-PTH.drl"), Some(LayerType::PthThrough));
    assert_eq!(kicad.match_filename("board.drl"), Some(LayerType::PthThrough));

    let protel = PatternMatcher::create_protel_patterns();
    assert_eq!(protel.match_filename("board-NPTH.drl"), Some(LayerType::NpthThrough));
    assert_eq!(protel.match_filename("board.DRL"), Some(LayerType::PthThrough));

    let mut custom = PatternMatcher::create_custom_patterns("mine".to_string());
    custom.add_pattern(LayerType::PthThrough, "drill".to_string());
    custom.add_pattern(LayerType::PthThroughVia, "via".to_string());
    custom.add_pattern(LayerType::NpthThrough, "np-drill".to_string());
    assert_eq!(custom.match_filename("np-drill-via.drl"), Some(LayerType::NpthThrough));
    assert_eq!(custom.match_filename("drill-via.drl"), Some(LayerType::PthThrough));
    assert_eq!(custom.match_filename("via.drl"), Some(LayerType::PthThroughVia));
}

#[test]
fn drill_rules_need_the_drill_extension() {
    let protel = PatternMatcher::create_protel_patterns();
    assert_eq!(protel.match_filename("holes.txt"), None);

    let mut custom = EdaPatterns::new("mine".to_string());
    custom.add_pattern(LayerType::NpthThrough, "npth".to_string());
    assert_eq!(custom.match_filename("npth.txt"), None);
    assert_eq!(custom.match_filename("npth.drl"), Some(LayerType::NpthThrough));
}

#[test]
fn inner_layer_number_round_trips_through_the_native_dialect() {
    let jlc = PatternMatcher::create_jlc_patterns();
    for n in [1u32, 2, 9, 10, 42, 99, 100, 9999, 65536, 4294967295] {
        let name = LayerType::InnerLayer(n).to_jlc_filename();
        assert_eq!(jlc.match_filename(&name), Some(LayerType::InnerLayer(n)));
    }
}

#[test]
fn no_file_is_an_inner_layer_of_number_zero() {
    let kicad = PatternMatcher::create_kicad_patterns();
    assert_eq!(kicad.match_filename("a-In0_Cu.gbr"), None);
    assert_eq!(kicad.match_filename("a-In00_Cu.gbr"), None);
    assert_eq!(kicad.match_filename("a-In01_Cu.gbr"), Some(LayerType::InnerLayer(1)));
    let jlc = PatternMatcher::create_jlc_patterns();
    assert_eq!(jlc.match_filename("Gerber_InnerLayer0.G0"), None);
    assert_eq!(jlc.match_filename("Gerber_InnerLayer0.G7"), None);
    let protel = PatternMatcher::create_protel_patterns();
    assert_eq!(protel.match_filename("board.G0"), None);
    assert_eq!(protel.match_filename("board.G3"), Some(LayerType::InnerLayer(3)));

    let mut custom = EdaPatterns::new("mine".to_string());
    custom.add_pattern(LayerType::InnerLayer(0), "inner".to_string());
    custom.add_pattern(LayerType::TopCopper, "inner".to_string());
    assert_eq!(custom.match_filename("board0-inner5.gbr"), None);
    assert_eq!(custom.dialect_name(), "mine");
    assert_eq!(kicad.dialect_name(), "KiCad");
}

#[test]
fn native_dialect_recognises_every_canonical_name() {
    let jlc = PatternMatcher::create_jlc_patterns();
    let layers = [
        LayerType::NpthThrough,
        LayerType::PthThrough,
        LayerType::PthThroughVia,
        LayerType::BottomSilkscreen,
        LayerType::BottomSoldermask,
        LayerType::BottomPasteMask,
        LayerType::BottomCopper,
        LayerType::TopSilkscreen,
        LayerType::TopSoldermask,
        LayerType::TopPasteMask,
        LayerType::TopCopper,
        LayerType::BoardOutline,
    ];
    for layer in layers {
        assert_eq!(jlc.match_filename(&layer.to_jlc_filename()), Some(layer));
    }
    assert_eq!(jlc.match_filename("Unknown"), None);
}

#[test]
fn inner_layer_number_falls_back_to_the_first_digits_of_the_name() {
    let mut custom = EdaPatterns::new("mine".to_string());
    custom.add_pattern(LayerType::InnerLayer(0), "inner".to_string());
    assert_eq!(custom.match_filename("board7-inner12.gbr"), Some(LayerType::InnerLayer(7)));
    assert_eq!(custom.match_filename("board-inner.gbr"), None);
    assert_eq!(custom.match_filename("99999999999-inner.gbr"), None);

    let mut grouped = EdaPatterns::new("grouped".to_string());
    grouped.add_pattern(LayerType::InnerLayer(0), "([a-z]+)-L(\\d+)".to_string());
    assert_eq!(grouped.match_filename("3-board-L5.gbr"), Some(LayerType::InnerLayer(5)));
}

#[test]
fn invalid_rules_are_passed_over() {
    let mut custom = EdaPatterns::new("mine".to_string());
    custom.add_pattern(LayerType::TopCopper, "(unclosed".to_string());
    custom.add_pattern(LayerType::TopCopper, "top".to_string());
    assert_eq!(custom.match_filename("top.gbr"), Some(LayerType::TopCopper));
    assert_eq!(custom.match_filename("(unclosed"), None);
}

#[test]
fn kinds_are_tried_in_the_order_of_their_first_rule() {
    let mut custom = EdaPatterns::new("mine".to_string());
    custom.add_pattern(LayerType::TopCopper, "xyz".to_string());
    custom.add_pattern(LayerType::BottomCopper, "copper".to_string());
    custom.add_pattern(LayerType::TopCopper, "copper".to_string());
    assert_eq!(custom.match_filename("copper.gbr"), Some(LayerType::TopCopper));
}

#[test]
fn detection_counts_kinds_and_not_files() {
    let kicad = PatternMatcher::create_kicad_patterns();
    let inner_only = vec![
        "b-In1_Cu.gbr".to_string(),
        "b-In2_Cu.gbr".to_string(),
        "b-In3_Cu.gbr".to_string(),
        "b-F_Cu.gbr".to_string(),
    ];
    assert!(!kicad.can_handle_files(&inner_only));

    let three = vec![
        "b-In1_Cu.gbr".to_string(),
        "b-F_Cu.gbr".to_string(),
        "b.drl".to_string(),
    ];
    assert!(kicad.can_handle_files(&three));
    assert!(!kicad.can_handle_files(&[]));
}

#[test]
fn detection_fails_below_three_kinds_in_every_dialect() {
    let lone_drill = vec!["holes.drl".to_string()];
    assert_eq!(
        PatternMatcher::auto_detect_eda(&lone_drill).unwrap_err(),
        TransJlcError::NoMatchingPattern
    );
    let two = vec!["a.GTL".to_string(), "a.GBL".to_string(), "a-F_Cu.gbr".to_string()];
    assert_eq!(
        PatternMatcher::auto_detect_eda(&two).unwrap_err(),
        TransJlcError::NoMatchingPattern
    );
}

#[test]
fn detection_recognises_converted_output() {
    let files = vec![
        "Gerber_TopLayer.GTL".to_string(),
        "Gerber_InnerLayer1.G1".to_string(),
        "Drill_PTH_Through_Via.DRL".to_string(),
    ];
    let found = PatternMatcher::auto_detect_eda(&files).expect("a dialect");
    assert_eq!(found.name, "Protel");

    let native_only = vec![
        "Drill_NPTH_Through.DRL".to_string(),
        "Drill_PTH_Through.DRL".to_string(),
        "Drill_PTH_Through_Via.DRL".to_string(),
    ];
    let found = PatternMatcher::auto_detect_eda(&native_only).expect("a dialect");
    assert_eq!(found.name, "JLC");
}

#[test]
fn custom_dialect_starts_without_rules() {
    let custom = PatternMatcher::create_custom_patterns("mine".to_string());
    assert_eq!(custom.name, "mine");
    assert_eq!(custom.match_filename("board-F_Cu.gbr"), None);
    assert_eq!(custom.match_filename("board.drl"), None);
}

#[test]
fn error_messages_carry_their_context() {
    assert_eq!(
        TransJlcError::NoMatchingPattern.message(),
        "No matching EDA pattern found for files in directory"
    );
    assert_eq!(
        TransJlcError::UnsupportedEda { format: "eagle".to_string() }.message(),
        "Unsupported EDA format: eagle"
    );
    assert_eq!(
        TransJlcError::InvalidGerberFormat { reason: "no bounds".to_string() }.message(),
        "Invalid Gerber file format: no bounds"
    );
    assert_eq!(
        TransJlcError::FileNotFound { path: "/tmp/x".to_string() }.message(),
        "File not found in expected location: /tmp/x"
    );
    assert_eq!(
        TransJlcError::ZipExtractionFailed { reason: "bad".to_string() }.message(),
        "ZIP extraction failed: bad"
    );
    assert_eq!(
        TransJlcError::HashApertureError { reason: "bad".to_string() }.message(),
        "Hash aperture generation failed: bad"
    );
    assert_eq!(
        TransJlcError::MissingAsset { name: "readme".to_string() }.message(),
        "Required asset not found: readme"
    );
    assert_eq!(
        TransJlcError::EncryptionFailed { reason: "bad".to_string() }.message(),
        "Encryption failed: bad"
    );
    assert_eq!(
        TransJlcError::InvalidImage { reason: "bad".to_string() }.message(),
        "Invalid image: bad"
    );
    assert_eq!(
        TransJlcError::IoFailure {
            operation: "read".to_string(),
            path: "a.gbr".to_string(),
            reason: "denied".to_string()
        }
        .message(),
        "Failed to read file: a.gbr: denied"
    );
}
