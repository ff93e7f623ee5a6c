use std::path::PathBuf;
use transjlc::config::{Config, EdaType};

#[test]
fn test_eda_type_conversion() {
    let config = Config {
        eda: "kicad".to_string(),
        path: PathBuf::from("."),
        output_path: PathBuf::from("./output"),
        zip: false,
        zip_name: "test".to_string(),
        verbose: false,
        no_progress: false,
    };

    assert_eq!(config.get_eda_type(), EdaType::KiCad);
}

#[test]
fn test_custom_eda_type() {
    let config = Config {
        eda: "custom_eda".to_string(),
        path: PathBuf::from("."),
        output_path: PathBuf::from("./output"),
        zip: false,
        zip_name: "test".to_string(),
        verbose: false,
        no_progress: false,
    };

    assert_eq!(
        config.get_eda_type(),
        EdaType::Custom("custom_eda".to_string())
    );
}

#[test]
fn test_config_eda_type_parsing() {
    let test_cases = vec![
        ("auto", EdaType::Auto),
        ("kicad", EdaType::KiCad),
        ("protel", EdaType::Protel),
        ("jlc", EdaType::Jlc),
        (
            "custom_format",
            EdaType::Custom("custom_format".to_string()),
        ),
    ];

    for (input, expected) in test_cases {
        let config = Config {
            eda: input.to_string(),
            path: PathBuf::from("."),
            output_path: PathBuf::from("./output"),
            zip: false,
            zip_name: "test".to_string(),
            verbose: false,
            no_progress: false,
        };

        assert_eq!(config.get_eda_type(), expected);
    }
}

#[test]
fn eda_type_is_read_in_any_case() {
    let mut config = Config {
        eda: "KiCad".to_string(),
        path: PathBuf::from("."),
        output_path: PathBuf::from("./output"),
        zip: false,
        zip_name: "test".to_string(),
        verbose: false,
        no_progress: false,
    };
    assert_eq!(config.get_eda_type(), EdaType::KiCad);
    config.eda = "AUTO".to_string();
    assert_eq!(config.get_eda_type(), EdaType::Auto);
    config.eda = "Eagle".to_string();
    assert_eq!(config.get_eda_type(), EdaType::Custom("eagle".to_string()));
}

#[test]
fn eda_type_is_written_as_it_is_selected() {
    assert_eq!(EdaType::Auto.as_str(), "auto");
    assert_eq!(EdaType::KiCad.as_str(), "kicad");
    assert_eq!(EdaType::Protel.as_str(), "protel");
    assert_eq!(EdaType::Jlc.as_str(), "jlc");
    assert_eq!(EdaType::Custom("eagle".to_string()).as_str(), "eagle");
}
