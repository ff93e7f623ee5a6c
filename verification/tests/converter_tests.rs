use std::path::PathBuf;
use transjlc::config::Config;
use transjlc::converter::{custom_dialect_name, Converter, InputFile};
use transjlc::error::TransJlcError;
use transjlc::patterns::{LayerType, PatternMatcher};

#[test]
fn test_converter_creation() {
    let config = Config {
        eda: "kicad".to_string(),
        path: PathBuf::from("."),
        output_path: PathBuf::from("./output"),
        zip: false,
        zip_name: "test".to_string(),
        verbose: false,
        no_progress: true,
    };

    let converter = Converter::new(config);
    assert!(converter.processed_files.is_empty());
}

#[test]
fn test_should_process_gerber() {
    let config = Config {
        eda: "kicad".to_string(),
        path: PathBuf::from("."),
        output_path: PathBuf::from("./output"),
        zip: false,
        zip_name: "test".to_string(),
        verbose: false,
        no_progress: true,
    };

    let converter = Converter::new(config);

    assert!(!converter.should_process_gerber(&LayerType::NpthThrough));
    assert!(!converter.should_process_gerber(&LayerType::PthThrough));
    assert!(!converter.should_process_gerber(&LayerType::PthThroughVia));

    assert!(converter.should_process_gerber(&LayerType::TopCopper));
    assert!(converter.should_process_gerber(&LayerType::BoardOutline));
    assert!(converter.should_process_gerber(&LayerType::InnerLayer(1)));
}

#[test]
fn converter_test_conversion_stats() {
    let config = Config {
        eda: "kicad".to_string(),
        path: PathBuf::from("."),
        output_path: PathBuf::from("./output"),
        zip: true,
        zip_name: "test".to_string(),
        verbose: false,
        no_progress: true,
    };

    let mut converter = Converter::new(config);

    converter.record_processed(LayerType::TopCopper, PathBuf::from("top.gtl"));
    converter.record_processed(LayerType::BottomCopper, PathBuf::from("bottom.gbl"));

    let stats = converter.get_conversion_stats();

    assert_eq!(stats.total_files_processed, 2);
    assert_eq!(stats.output_format, "ZIP");
    assert!(stats.layer_types_found.contains(&LayerType::TopCopper));
    assert!(stats.layer_types_found.contains(&LayerType::BottomCopper));
}

#[test]
fn integration_tests_test_conversion_stats() {
    let config = Config {
        eda: "kicad".to_string(),
        path: PathBuf::from("input"),
        output_path: PathBuf::from("output"),
        zip: false,
        zip_name: "test".to_string(),
        verbose: false,
        no_progress: true,
    };

    let converter = Converter::new(config);
    let stats = converter.get_conversion_stats();

    assert_eq!(stats.total_files_processed, 0);
    assert_eq!(stats.output_format, "Files");
}

#[test]
fn test_determine_g54_requirement() {
    let config = Config {
        eda: "kicad".to_string(),
        path: PathBuf::from("."),
        output_path: PathBuf::from("./output"),
        zip: false,
        zip_name: "test".to_string(),
        verbose: false,
        no_progress: true,
    };

    let converter = Converter::new(config);
    let patterns = PatternMatcher::create_kicad_patterns();
    let mut files = vec![
        InputFile { name: "project-F_Cu.gbr".to_string(), content: "G04*\nD10*\n".to_string() },
        InputFile { name: "project-B_Cu.gbr".to_string(), content: "G04*\nG54D11*\n".to_string() },
    ];

    let needs_prefix = converter
        .determine_g54_requirement(&files, &patterns)
        .expect("Detection should succeed");

    assert!(needs_prefix);

    files[0].content = "G04*\nG54D10*\n".to_string();

    let needs_prefix = converter
        .determine_g54_requirement(&files, &patterns)
        .expect("Detection should succeed");

    assert!(!needs_prefix);
}

#[test]
fn prefix_is_decided_by_gerber_files_only() {
    let config = Config {
        eda: "kicad".to_string(),
        path: PathBuf::from("."),
        output_path: PathBuf::from("./output"),
        zip: false,
        zip_name: "test".to_string(),
        verbose: false,
        no_progress: true,
    };
    let converter = Converter::new(config);
    let patterns = PatternMatcher::create_kicad_patterns();
    let files = vec![
        InputFile { name: "project-PTH.drl".to_string(), content: "D10*\n".to_string() },
        InputFile { name: "notes.txt".to_string(), content: "D10*\n".to_string() },
        InputFile { name: "project-B_Cu.gbr".to_string(), content: "G54D11*\n".to_string() },
    ];
    assert_eq!(converter.determine_g54_requirement(&files, &patterns), Ok(false));
    assert_eq!(converter.determine_g54_requirement(&Vec::new(), &patterns), Ok(false));
}

#[test]
fn kicad_board_is_converted_under_canonical_names() {
    let config = Config {
        eda: "kicad".to_string(),
        path: PathBuf::from("in"),
        output_path: PathBuf::from("out"),
        zip: false,
        zip_name: "Gerber".to_string(),
        verbose: false,
        no_progress: true,
    };
    let mut converter = Converter::new(config);
    let drill = "T1C0.8\nX100Y100\nT0\nM30\n";
    let files = vec![
        InputFile { name: "board-F_Cu.gbr".to_string(), content: "G04 KiCad test*\nG01*\nD10*\nG04 End*\n".to_string() },
        InputFile { name: "board-B_Cu.gbr".to_string(), content: "G04 KiCad test*\nG01*\nD11*\nG04 End*\n".to_string() },
        InputFile { name: "board-F_Mask.gbr".to_string(), content: "G04 KiCad mask*\nG01*\nD12*\nG04 End*\n".to_string() },
        InputFile { name: "board-Edge_Cuts.gbr".to_string(), content: "G04 KiCad outline*\nG01*\nD13*\nG04 End*\n".to_string() },
        InputFile { name: "board-PTH.drl".to_string(), content: drill.to_string() },
        InputFile { name: "report.log".to_string(), content: "stray".to_string() },
    ];
    let names: Vec<String> = files.iter().map(|f| f.name.clone()).collect();
    let patterns = converter.create_pattern_matcher(&names).unwrap();
    assert_eq!(patterns.name, "KiCad");

    let outputs = converter.process_files(&files, &patterns).unwrap();
    let written: Vec<&str> = outputs.iter().map(|o| o.name.as_str()).collect();
    assert_eq!(
        written,
        vec![
            "Gerber_TopLayer.GTL",
            "Gerber_BottomLayer.GBL",
            "Gerber_TopSolderMaskLayer.GTS",
            "Gerber_BoardOutlineLayer.GKO",
            "Drill_PTH_Through.DRL",
        ]
    );
    assert_eq!(outputs[4].layer, LayerType::PthThrough);
    assert_eq!(outputs[4].content, drill);

    let header = regex::Regex::new(
        "^G04 EasyEDA Pro v2\\.2\\.42\\.2, \\d{4}-\\d{2}-\\d{2} \\d{2}:\\d{2}:\\d{2}\\*\nG04 Gerber Generator version 0\\.3\\*\n",
    )
    .unwrap();
    assert!(header.is_match(&outputs[0].content));
    assert!(outputs[0].content.contains("\nG04 KiCad test*\nG01*\nG54D11*\nG04 End*\n\n%ADD10C,0."));
    assert!(outputs[1].content.contains("\nG04 KiCad test*\nG01*\nG54D12*\nG04 End*\n\n%ADD10C,0."));
    assert_eq!(
        outputs[0].content.split('\n').filter(|line| line.starts_with("%ADD")).count(),
        1
    );

    for out in &outputs {
        converter.record_processed(out.layer, PathBuf::from("out").join(&out.name));
    }
    let readme = converter
        .add_required_assets(Some(b"read me".to_vec()), PathBuf::from("out").join("PCB下单必读.txt"))
        .unwrap();
    assert_eq!(readme, b"read me".to_vec());
    let stats = converter.get_conversion_stats();
    assert_eq!(stats.total_files_processed, 6);
    assert_eq!(
        stats.layer_types_found,
        vec![
            LayerType::TopCopper,
            LayerType::BottomCopper,
            LayerType::TopSoldermask,
            LayerType::BoardOutline,
            LayerType::PthThrough,
            LayerType::Other,
        ]
    );
    assert_eq!(stats.output_format, "Files");
}

#[test]
fn later_file_of_a_layer_replaces_the_earlier() {
    let config = Config {
        eda: "auto".to_string(),
        path: PathBuf::from("in"),
        output_path: PathBuf::from("out"),
        zip: false,
        zip_name: "Gerber".to_string(),
        verbose: false,
        no_progress: false,
    };
    let mut converter = Converter::new(config);
    assert!(converter.progress_tracker.enabled);
    converter.record_processed(LayerType::TopCopper, PathBuf::from("a"));
    converter.record_processed(LayerType::InnerLayer(1), PathBuf::from("b"));
    converter.record_processed(LayerType::InnerLayer(2), PathBuf::from("c"));
    converter.record_processed(LayerType::TopCopper, PathBuf::from("d"));
    assert_eq!(
        converter.processed_files,
        vec![
            (LayerType::TopCopper, PathBuf::from("d")),
            (LayerType::InnerLayer(1), PathBuf::from("b")),
            (LayerType::InnerLayer(2), PathBuf::from("c")),
        ]
    );
}

#[test]
fn missing_asset_fails_the_run() {
    let config = Config {
        eda: "auto".to_string(),
        path: PathBuf::from("in"),
        output_path: PathBuf::from("out"),
        zip: false,
        zip_name: "Gerber".to_string(),
        verbose: false,
        no_progress: false,
    };
    let mut converter = Converter::new(config);
    assert_eq!(
        converter.add_required_assets(None, PathBuf::from("out/readme")),
        Err(TransJlcError::MissingAsset { name: "PCB下单必读.txt".to_string() })
    );
    assert!(converter.processed_files.is_empty());
}

#[test]
fn dialect_follows_the_settings() {
    let mut config = Config {
        eda: "auto".to_string(),
        path: PathBuf::from("in"),
        output_path: PathBuf::from("out"),
        zip: false,
        zip_name: "Gerber".to_string(),
        verbose: false,
        no_progress: false,
    };
    let names = vec!["a.GTL".to_string(), "a.GBL".to_string(), "a.GKO".to_string()];
    assert_eq!(Converter::new(config.clone()).create_pattern_matcher(&names).unwrap().name, "Protel");
    let few = vec!["a.GTL".to_string()];
    assert_eq!(
        Converter::new(config.clone()).create_pattern_matcher(&few).unwrap_err(),
        TransJlcError::NoMatchingPattern
    );
    config.eda = "JLC".to_string();
    assert_eq!(Converter::new(config.clone()).create_pattern_matcher(&few).unwrap().name, "JLC");
    config.eda = "Protel".to_string();
    assert_eq!(Converter::new(config.clone()).create_pattern_matcher(&few).unwrap().name, "Protel");
    config.eda = "custom:Eagle".to_string();
    let custom = Converter::new(config.clone()).create_pattern_matcher(&few).unwrap();
    assert_eq!(custom.name, "eagle");
    assert_eq!(custom.match_filename("a.GTL"), None);
}

#[test]
fn unknown_dialect_is_refused() {
    let mut config = Config {
        eda: "Eagle".to_string(),
        path: PathBuf::from("in"),
        output_path: PathBuf::from("out"),
        zip: false,
        zip_name: "Gerber".to_string(),
        verbose: false,
        no_progress: false,
    };
    let names = vec!["a.GTL".to_string(), "a.GBL".to_string(), "a.GKO".to_string()];
    assert_eq!(
        Converter::new(config.clone()).create_pattern_matcher(&names).unwrap_err(),
        TransJlcError::UnsupportedEda { format: "eagle".to_string() }
    );
    for selector in ["custom:", "custom", "Custom_Eda", "", "kicad ", "custom :x"] {
        config.eda = selector.to_string();
        assert_eq!(
            Converter::new(config.clone()).create_pattern_matcher(&names).unwrap_err(),
            TransJlcError::UnsupportedEda { format: selector.to_lowercase() }
        );
    }
    config.eda = "CUSTOM:My Tool".to_string();
    assert_eq!(
        Converter::new(config).create_pattern_matcher(&names).unwrap().name,
        "my tool"
    );
    assert_eq!(custom_dialect_name("custom:x"), Some("x".to_string()));
    assert_eq!(custom_dialect_name("custom:custom:"), Some("custom:".to_string()));
    assert_eq!(custom_dialect_name("custom:"), None);
    assert_eq!(custom_dialect_name("xcustom:y"), None);
}

#[test]
fn unclassified_file_gives_no_output() {
    let config = Config {
        eda: "kicad".to_string(),
        path: PathBuf::from("in"),
        output_path: PathBuf::from("out"),
        zip: false,
        zip_name: "Gerber".to_string(),
        verbose: false,
        no_progress: true,
    };
    let converter = Converter::new(config);
    let patterns = PatternMatcher::create_kicad_patterns();
    let stray = InputFile { name: "notes.txt".to_string(), content: "x".to_string() };
    assert!(converter.process_single_file(&stray, &patterns, true).unwrap().is_none());
    let inner = InputFile { name: "b-In2_Cu.gbr".to_string(), content: "M02*".to_string() };
    let out = converter.process_single_file(&inner, &patterns, false).unwrap().unwrap();
    assert_eq!(out.layer, LayerType::InnerLayer(2));
    assert_eq!(out.name, "Gerber_InnerLayer2.G2");
    assert!(out.content.starts_with("G04 EasyEDA Pro v2.2.42.2, "));
}
