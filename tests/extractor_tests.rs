use hf_dataset_validator::cargo2hf_extractor::{version_from_output, Cargo2HfExtractor, CargoExtractionPhase};
use hf_dataset_validator::llvm_ir_extractor::{LLVMAnalysisPhase, LLVMIRExtractor};
use hf_dataset_validator::parquet_validator::{split_name_from_filename, ParquetFileInfo, ParquetValidator};
use hf_dataset_validator::rust_analyzer_extractor::{parse_phases_string, ProcessingPhase, RustAnalyzerExtractor};
use hf_dataset_validator::text::{contains_str, escape_colons, find_str, same_text, trim_str};
use hf_dataset_validator::ValidationError;

#[test]
fn test_cargo2hf_extractor_creation() {
    let extractor = Cargo2HfExtractor::new("cargo 1.86.0 (adcd3d2b3 2025-01-10)", "rustc 1.86.0 (05f9846f8 2025-03-31)");
    assert!(extractor.is_ok());
}

#[test]
fn test_llvm_ir_extractor_creation() {
    let extractor = LLVMIRExtractor::new();
    assert!(extractor.is_ok());
}

#[test]
fn test_rust_analyzer_extractor_creation() {
    let extractor = RustAnalyzerExtractor::new();
    assert!(extractor.is_ok());
}

#[test]
fn test_element_type_detection() {
    let extractor = RustAnalyzerExtractor::new().unwrap();

    assert_eq!(extractor.detect_element_type("fn main() {"), "function");
    assert_eq!(extractor.detect_element_type("struct Point {"), "struct");
    assert_eq!(extractor.detect_element_type("enum Color {"), "enum");
    assert_eq!(extractor.detect_element_type("let x = 5;"), "variable");
}

#[test]
fn element_type_other_kinds() {
    let extractor = RustAnalyzerExtractor::new().unwrap();
    assert_eq!(extractor.detect_element_type("impl Point {"), "impl");
    assert_eq!(extractor.detect_element_type("use std::fmt;"), "import");
    assert_eq!(extractor.detect_element_type("}"), "other");
    assert_eq!(extractor.detect_element_type("pub fn new() -> Self { let x = 1; }"), "function");
}

#[test]
fn version_lines() {
    assert_eq!(version_from_output("cargo 1.86.0 (adcd3d2b3 2025-01-10)"), Some("1.86.0".to_string()));
    assert_eq!(version_from_output("rustc 1.86.0"), Some("1.86.0".to_string()));
    assert_eq!(version_from_output("nothing"), None);
    let extractor = Cargo2HfExtractor::new("cargo 1.80.1 (x)", "rustc 1.81.0 (y)").unwrap();
    assert_eq!(extractor.cargo_version(), "1.80.1");
    assert_eq!(extractor.rust_version(), "1.81.0");
    let err = Cargo2HfExtractor::new("garbage", "rustc 1.81.0").err().unwrap();
    assert!(matches!(err, ValidationError::ProcessingError(_)));
}

#[test]
fn processing_order_counts_up() {
    let mut extractor = LLVMIRExtractor::new().unwrap();
    assert_eq!(extractor.next_processing_order(), 1);
    assert_eq!(extractor.next_processing_order(), 2);
    assert_eq!(extractor.llvm_version(), "20.0.0");
    assert_eq!(extractor.rustc_version(), "1.86.0");
    let mut ra = RustAnalyzerExtractor::new().unwrap();
    assert_eq!(ra.next_processing_order(), 1);
    assert_eq!(ra.rust_version(), "1.86.0");
    assert_eq!(ra.analyzer_version(), "0.3.2000");
    let mut cargo = Cargo2HfExtractor::new("cargo 1 x", "rustc 2 y").unwrap();
    assert_eq!(cargo.next_processing_order(), 1);
}

#[test]
fn phase_names() {
    assert_eq!(ProcessingPhase::NameResolution.as_str(), "name_resolution");
    assert_eq!(ProcessingPhase::FindReferences.as_str(), "find_references");
    assert_eq!(LLVMAnalysisPhase::IRGeneration.as_str(), "ir_generation");
    assert_eq!(LLVMAnalysisPhase::MemoryAnalysis.as_str(), "memory_analysis");
    assert_eq!(CargoExtractionPhase::DependencyAnalysis.as_str(), "dependency_analysis");
    assert_eq!(CargoExtractionPhase::VersionHistory.as_str(), "version_history");
}

fn file(name: &str, rows: usize, columns: Vec<&str>) -> ParquetFileInfo {
    ParquetFileInfo {
        filename: name.to_string(),
        num_rows: rows,
        num_columns: columns.len(),
        columns: columns.iter().map(|c| c.to_string()).collect(),
        file_size_bytes: 100,
        split_name: split_name_from_filename(name),
    }
}

#[test]
fn parquet_capabilities() {
    let validator = ParquetValidator::new("data", true).unwrap();
    assert_eq!(validator.dataset_dir(), "data");
    let none = validator.assess_capabilities(&Vec::new()).unwrap();
    assert_eq!(none.capability_count(), 0);
    let one = validator.assess_capabilities(&vec![file("train-0.parquet", 0, vec!["term"])]).unwrap();
    assert!(one.viewer && one.search);
    assert!(!one.preview && !one.filter && !one.statistics);
    let two = validator
        .assess_capabilities(&vec![file("train-0.parquet", 0, vec!["term"]), file("test-0.parquet", 3, vec!["id", "x"])])
        .unwrap();
    assert_eq!(two.capability_count(), 5);
}

#[test]
fn parquet_validator_needs_directory() {
    let err = ParquetValidator::new("missing", false).err().unwrap();
    assert!(matches!(err, ValidationError::DataAccessError { .. }));
}

#[test]
fn split_names_from_files() {
    assert_eq!(split_name_from_filename("train-00000-of-00002.parquet"), "train");
    assert_eq!(split_name_from_filename("data.parquet"), "data.parquet");
}

#[test]
fn group_files_by_split() {
    let validator = ParquetValidator::new("data", true).unwrap();
    let files = vec![
        file("train-0.parquet", 10, vec!["id"]),
        file("test-0.parquet", 3, vec!["id"]),
        file("train-1.parquet", 5, vec!["id"]),
    ];
    let groups = validator.group_by_splits(&files);
    assert_eq!(groups.len(), 2);
    assert_eq!(groups[0].split_name, "train");
    assert_eq!(groups[0].num_files, 2);
    assert_eq!(groups[0].num_rows, 15);
    assert_eq!(groups[0].size_bytes, 200);
    assert_eq!(groups[0].files[1].filename, "train-1.parquet");
    assert_eq!(groups[1].split_name, "test");
    assert_eq!(groups[1].num_rows, 3);
    assert!(validator.group_by_splits(&Vec::new()).is_empty());
}

#[test]
fn element_names() {
    let extractor = RustAnalyzerExtractor::new().unwrap();
    assert_eq!(extractor.extract_element_name("pub fn  build (x: u8) {"), Some("build".to_string()));
    assert_eq!(extractor.extract_element_name("struct Point {"), Some("Point".to_string()));
    assert_eq!(extractor.extract_element_name("struct Unit;"), None);
    assert_eq!(extractor.extract_element_name("let x = 1;"), None);
    assert_eq!(extractor.extract_variable_name("    let mut count: i32 = 0;"), Some("mut count: i32".to_string()));
    assert_eq!(extractor.extract_variable_name("let x = 5;"), Some("x".to_string()));
    assert_eq!(extractor.extract_variable_name("let y: u8;"), Some("y".to_string()));
    assert_eq!(extractor.extract_variable_name("x = 5;"), None);
}

#[test]
fn phase_lists() {
    assert_eq!(
        parse_phases_string("parsing, name_resolution,type_inference").unwrap(),
        vec![ProcessingPhase::Parsing, ProcessingPhase::NameResolution, ProcessingPhase::TypeInference]
    );
    assert_eq!(parse_phases_string(" hover ").unwrap(), vec![ProcessingPhase::Hover]);
    let err = parse_phases_string("parsing,lexing").unwrap_err();
    assert_eq!(err, ValidationError::InvalidInput("Unknown phase: lexing".to_string()));
    assert!(matches!(parse_phases_string(""), Err(ValidationError::InvalidInput(_))));
    assert!(matches!(parse_phases_string("parsing,"), Err(ValidationError::InvalidInput(_))));
}

#[test]
fn text_helpers() {
    assert_eq!(find_str("abcabc", "ca"), Some(2));
    assert_eq!(find_str("abc", "d"), None);
    assert_eq!(find_str("abc", ""), Some(0));
    assert!(contains_str("large_string", "string"));
    assert!(!contains_str("int", "int64"));
    assert_eq!(trim_str("\t  a b \n"), "a b");
    assert_eq!(trim_str("   "), "");
    assert_eq!(escape_colons("a:b\\c"), "a\\:b\\\\c");
    assert!(same_text("x", "x"));
    assert!(!same_text("x", "xy"));
}
