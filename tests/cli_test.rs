use rcli::{verify_file, verify_input_file, verify_path, OutputFormat};

#[test]
fn test_verify_input_file() {
    // the second argument says whether the file is there, as in the project root
    assert_eq!(verify_file("-", false), Ok("-".into()));
    assert_eq!(verify_file("*", false), Err("File does not exist"));
    assert_eq!(verify_file("Cargo.toml", true), Ok("Cargo.toml".into()));
    assert_eq!(verify_file("not-exist", false), Err("File does not exist"));
}

#[test]
fn input_file_must_exist() {
    assert_eq!(verify_input_file("input.csv", true), Ok("input.csv".into()));
    assert_eq!(verify_input_file("-", false), Err("File does not exist"));
}

#[test]
fn path_must_be_an_existing_directory() {
    assert_eq!(verify_path("fixtures", true, true), Ok("fixtures".into()));
    assert_eq!(
        verify_path("Cargo.toml", true, false),
        Err("Path does not exist or is not a directory")
    );
    assert_eq!(verify_path("nowhere", false, false), Err("Path does not exist or is not a directory"));
}

#[test]
fn output_format_names() {
    assert_eq!(rcli::csv_convert::parse_format("json"), Ok(OutputFormat::Json));
    assert_eq!(rcli::csv_convert::parse_format("yaml"), Ok(OutputFormat::Yaml));
    assert_eq!(rcli::csv_convert::parse_format("toml"), Err("Invalid format"));
    assert_eq!(OutputFormat::Yaml.as_str(), "yaml");
}

