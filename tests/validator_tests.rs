use hf_dataset_validator::{
    validate_config, validate_dataset, validate_split, CachedResponse, DataAccess, DatasetValidator,
    EntityIdentifier, MockDataAccess, ParquetMetadata, Progress, ValidationError, ValidationLevel,
    ValidationResult,
};

fn ratio(p: Progress) -> f64 {
    let (n, d) = p.fraction();
    n as f64 / d as f64
}

fn all_true() -> ValidationResult {
    ValidationResult { viewer: true, preview: true, search: true, filter: true, statistics: true }
}

fn text_features() -> Vec<(String, String)> {
    vec![
        ("text".to_string(), "string".to_string()),
        ("label".to_string(), "int64".to_string()),
    ]
}

#[test]
fn test_basic_validation() {
    let service = MockDataAccess::default();
    let result = validate_split("mock/dataset", "default", "train", service);
    assert!(result.is_ok());

    let (validation_result, progress) = result.unwrap();
    assert_eq!(ratio(progress), 1.0);
    assert!(validation_result.has_any_capability());
}

#[test]
fn test_entity_identifier() {
    let entity = EntityIdentifier::new_split("test".to_string(), "config".to_string(), "split".to_string());
    assert_eq!(entity.dataset, "test");
    assert_eq!(entity.config, Some("config".to_string()));
    assert_eq!(entity.split, Some("split".to_string()));
    assert_eq!(entity.infer_level(), ValidationLevel::Split);
    assert_eq!(entity.to_string(), "test/config/split");
}

#[test]
fn test_validation_result() {
    let mut result1 = ValidationResult { viewer: true, preview: false, search: true, filter: false, statistics: true };
    let result2 = ValidationResult { viewer: false, preview: true, search: false, filter: true, statistics: false };

    result1.merge(&result2);

    assert!(result1.viewer);
    assert!(result1.preview);
    assert!(result1.search);
    assert!(result1.filter);
    assert!(result1.statistics);
    assert_eq!(result1.capability_count(), 5);
}

#[test]
fn merge_laws_on_values() {
    let a = ValidationResult { viewer: true, preview: false, search: false, filter: true, statistics: false };
    let b = ValidationResult { viewer: false, preview: false, search: true, filter: false, statistics: false };
    let c = ValidationResult { viewer: false, preview: true, search: false, filter: false, statistics: false };
    let merged = |x: &ValidationResult, y: &ValidationResult| {
        let mut m = *x;
        m.merge(y);
        m
    };
    assert_eq!(merged(&merged(&a, &b), &c), merged(&a, &merged(&b, &c)));
    assert_eq!(merged(&a, &b), merged(&b, &a));
    assert_eq!(merged(&a, &a), a);
    assert_eq!(merged(&a, &b).capability_count(), 3);
}

#[test]
fn default_result_has_no_capability() {
    let r = ValidationResult::default();
    assert_eq!(r, ValidationResult::new());
    assert_eq!(r.capability_count(), 0);
    assert!(!r.has_any_capability());
}

#[test]
fn infer_level_for_every_shape() {
    let mut e = EntityIdentifier::new_dataset("d".to_string());
    assert_eq!(e.infer_level(), ValidationLevel::Dataset);
    e.split = Some("s".to_string());
    assert_eq!(e.infer_level(), ValidationLevel::Dataset);
    assert_eq!(EntityIdentifier::new_config("d".to_string(), "c".to_string()).infer_level(), ValidationLevel::Config);
    assert_eq!(
        EntityIdentifier::new_split("d".to_string(), "c".to_string(), "s".to_string()).infer_level(),
        ValidationLevel::Split
    );
}

#[test]
fn display_joins_present_fields() {
    assert_eq!(EntityIdentifier::new_split("t".to_string(), "c".to_string(), "s".to_string()).to_string(), "t/c/s");
    assert_eq!(EntityIdentifier::new_config("t".to_string(), "c".to_string()).to_string(), "t/c");
    assert_eq!(EntityIdentifier::new_dataset("t".to_string()).to_string(), "t");
}

#[test]
fn cache_key_format() {
    let e = EntityIdentifier::new_split("d".to_string(), "c".to_string(), "s".to_string());
    assert_eq!(e.cache_key("split-is-valid"), "split-is-valid:d:c:s");
    assert_eq!(EntityIdentifier::new_config("d".to_string(), "c".to_string()).cache_key("k"), "k:d:c:");
    assert_eq!(EntityIdentifier::new_dataset("d".to_string()).cache_key("k"), "k:d::");
}

#[test]
fn split_with_all_checks_true_has_five_capabilities() {
    let mut store = MockDataAccess::new();
    let split = EntityIdentifier::new_split("mock/dataset".to_string(), "default".to_string(), "train".to_string());
    let config = EntityIdentifier::new_config("mock/dataset".to_string(), "default".to_string());
    store.set_response("config-has-viewer", &config, true);
    store.set_response("split-has-preview", &split, true);
    store.set_response("split-has-statistics", &split, true);
    store.set_parquet_metadata("mock/dataset", "default", ParquetMetadata::new(text_features()));
    let (result, progress) = validate_split("mock/dataset", "default", "train", store).unwrap();
    assert_eq!(result.capability_count(), 5);
    assert_eq!(ratio(progress), 1.0);
}

#[test]
fn default_store_split_scores_five() {
    let (result, progress) = validate_split("mock/dataset", "default", "train", MockDataAccess::default()).unwrap();
    assert_eq!(result, all_true());
    assert_eq!(ratio(progress), 1.0);
    let (result, _) = validate_split("mock/dataset", "default", "validation", MockDataAccess::default()).unwrap();
    assert!(!result.statistics);
    assert_eq!(result.capability_count(), 4);
}

#[test]
fn viewer_comes_from_parent_config() {
    let mut store = MockDataAccess::new();
    let split = EntityIdentifier::new_split("d".to_string(), "c".to_string(), "s".to_string());
    store.set_response("config-has-viewer", &split, true);
    let (result, _) = validate_split("d", "c", "s", store.clone()).unwrap();
    assert!(!result.viewer);
    let config = EntityIdentifier::new_config("d".to_string(), "c".to_string());
    store.set_response("config-has-viewer", &config, true);
    let (result, _) = validate_split("d", "c", "s", store).unwrap();
    assert!(result.viewer);
}

#[test]
fn missing_metadata_clears_filter_and_search() {
    let mut store = MockDataAccess::new();
    let split = EntityIdentifier::new_split("d".to_string(), "c".to_string(), "s".to_string());
    let config = EntityIdentifier::new_config("d".to_string(), "c".to_string());
    store.set_response("config-has-viewer", &config, true);
    store.set_response("split-has-preview", &split, true);
    store.set_response("split-has-statistics", &split, true);
    let (result, progress) = validate_split("d", "c", "s", store).unwrap();
    assert!(!result.filter);
    assert!(!result.search);
    assert_eq!(result.capability_count(), 3);
    assert_eq!(progress, Progress { resolved: 1, total: 1 });
}

#[test]
fn metadata_without_text_column_allows_filter_only() {
    let mut store = MockDataAccess::new();
    let features = vec![("label".to_string(), "int64".to_string())];
    store.set_parquet_metadata("d", "c", ParquetMetadata::new(features).with_rows(10));
    let (result, _) = validate_split("d", "c", "s", store).unwrap();
    assert!(result.filter);
    assert!(!result.search);
    assert_eq!(result.capability_count(), 1);
}

#[test]
fn has_indexable_columns_looks_at_types() {
    let store = MockDataAccess::new();
    assert!(store.has_indexable_columns(&text_features()));
    assert!(store.has_indexable_columns(&vec![("body".to_string(), "large_text".to_string())]));
    assert!(!store.has_indexable_columns(&vec![("n".to_string(), "int64".to_string())]));
    assert!(!store.has_indexable_columns(&Vec::new()));
}

#[test]
fn config_with_one_pending_split() {
    let mut store = MockDataAccess::new();
    let names = vec!["a".to_string(), "b".to_string(), "c".to_string()];
    store.set_split_names("d", "cfg", names);
    let a = EntityIdentifier::new_split("d".to_string(), "cfg".to_string(), "a".to_string());
    let b = EntityIdentifier::new_split("d".to_string(), "cfg".to_string(), "b".to_string());
    store.set_cached_validation("split-is-valid", &a, CachedResponse::new(200, all_true(), Progress::complete()));
    store.set_cached_validation("split-is-valid", &b, CachedResponse::new(200, all_true(), Progress::complete()));
    let (result, progress) = validate_config("d", "cfg", store).unwrap();
    assert_eq!(result, all_true());
    assert_eq!(progress, Progress { resolved: 2, total: 3 });
    assert_eq!(ratio(progress), 2.0 / 3.0);
}

#[test]
fn failed_cached_split_is_neither_merged_nor_pending() {
    let mut store = MockDataAccess::new();
    store.set_split_names("d", "cfg", vec!["a".to_string(), "b".to_string()]);
    let a = EntityIdentifier::new_split("d".to_string(), "cfg".to_string(), "a".to_string());
    let b = EntityIdentifier::new_split("d".to_string(), "cfg".to_string(), "b".to_string());
    let only_preview = ValidationResult { viewer: false, preview: true, search: false, filter: false, statistics: false };
    store.set_cached_validation("split-is-valid", &a, CachedResponse::new(500, all_true(), Progress::complete()));
    store.set_cached_validation("split-is-valid", &b, CachedResponse::new(200, only_preview, Progress::complete()));
    let (result, progress) = validate_config("d", "cfg", store).unwrap();
    assert_eq!(result, only_preview);
    assert_eq!(ratio(progress), 1.0);
}

#[test]
fn dataset_with_no_configs() {
    let mut store = MockDataAccess::new();
    store.set_config_names("empty", Vec::new());
    let (result, progress) = validate_dataset("empty", store).unwrap();
    assert_eq!(result, ValidationResult::default());
    assert_eq!(ratio(progress), 1.0);
}

#[test]
fn default_store_dataset_and_config() {
    let (result, progress) = validate_dataset("mock/dataset", MockDataAccess::default()).unwrap();
    assert_eq!(result, all_true());
    assert_eq!(progress, Progress { resolved: 2, total: 2 });
    let (result, progress) = validate_config("org/dataset", "extra", MockDataAccess::default()).unwrap();
    assert_eq!(result, all_true());
    assert_eq!(ratio(progress), 1.0);
}

#[test]
fn listing_failures_propagate() {
    let err = validate_config("nowhere", "cfg", MockDataAccess::new()).unwrap_err();
    assert!(matches!(err, ValidationError::DataAccessError { .. }));
    let err = validate_dataset("nowhere", MockDataAccess::new()).unwrap_err();
    assert!(matches!(err, ValidationError::DataAccessError { .. }));
}

#[test]
fn missing_fields_are_invalid_identifiers() {
    let validator = DatasetValidator::new(MockDataAccess::default());
    let config = EntityIdentifier::new_config("mock/dataset".to_string(), "default".to_string());
    let err = validator.validate(&config, ValidationLevel::Split).unwrap_err();
    assert!(matches!(err, ValidationError::InvalidEntityIdentifier { .. }));
    let dataset = EntityIdentifier::new_dataset("mock/dataset".to_string());
    let err = validator.validate(&dataset, ValidationLevel::Config).unwrap_err();
    assert!(matches!(err, ValidationError::InvalidEntityIdentifier { .. }));
    assert_eq!(err.message(), "Invalid entity identifier: Config required for config validation");
}

#[test]
fn mock_errors_by_kind() {
    let store = MockDataAccess::new();
    let e = EntityIdentifier::new_dataset("d".to_string());
    assert!(matches!(store.check_successful_response("k", &e), Err(ValidationError::DataAccessError { .. })));
    assert!(matches!(store.get_parquet_metadata("d", "c"), Err(ValidationError::MetadataNotFound { .. })));
    assert!(matches!(store.get_cached_validation("k", &e), Err(ValidationError::CacheError { .. })));
    let err = store.get_config_names("d").unwrap_err();
    assert_eq!(err.message(), "Data access error: No config names found for d");
}

#[test]
fn later_writes_replace_earlier_ones() {
    let mut store = MockDataAccess::new();
    let e = EntityIdentifier::new_dataset("d".to_string());
    store.set_response("k", &e, true);
    store.set_response("k", &e, false);
    assert_eq!(store.check_successful_response("k", &e), Ok(false));
}

#[test]
fn progress_fraction() {
    assert_eq!(Progress { resolved: 0, total: 0 }.fraction(), (1, 1));
    assert_eq!(Progress { resolved: 1, total: 4 }.fraction(), (1, 4));
    assert_eq!(Progress::complete().fraction(), (1, 1));
    let c = CachedResponse::new(404, ValidationResult::new(), Progress::complete());
    assert!(!c.is_success());
    assert!(CachedResponse::new(200, ValidationResult::new(), Progress::complete()).is_success());
}

#[test]
fn cache_keys_keep_fields_apart() {
    let a = EntityIdentifier::new_config("a:b".to_string(), "c".to_string());
    let b = EntityIdentifier::new_config("a".to_string(), "b:c".to_string());
    assert_eq!(a.cache_key("k"), "k:a\\:b:c:");
    assert_eq!(b.cache_key("k"), "k:a:b\\:c:");
    assert_ne!(a.cache_key("k"), b.cache_key("k"));
    let c = EntityIdentifier::new_dataset("a\\b".to_string());
    assert_eq!(c.cache_key("k"), "k:a\\b::");
    let d = EntityIdentifier::new_dataset("a\\:b".to_string());
    assert_eq!(d.cache_key("k"), "k:a\\\\\\:b::");
}

#[test]
fn colon_in_names_does_not_confuse_the_store() {
    let mut store = MockDataAccess::new();
    store.set_split_names("a:b", "c", vec!["s".to_string()]);
    assert!(store.get_split_names("a", "b:c").is_err());
    assert_eq!(store.get_split_names("a:b", "c"), Ok(vec!["s".to_string()]));
}

#[test]
fn aggregation_ignores_child_order() {
    let only = |viewer: bool, search: bool| ValidationResult { viewer, preview: false, search, filter: false, statistics: false };
    let build = |names: Vec<&str>| {
        let mut store = MockDataAccess::new();
        store.set_config_names("d", names.iter().map(|n| n.to_string()).collect());
        let a = EntityIdentifier::new_config("d".to_string(), "a".to_string());
        let b = EntityIdentifier::new_config("d".to_string(), "b".to_string());
        store.set_cached_validation("config-is-valid", &a, CachedResponse::new(200, only(true, false), Progress::complete()));
        store.set_cached_validation("config-is-valid", &b, CachedResponse::new(200, only(false, true), Progress::complete()));
        validate_dataset("d", store).unwrap()
    };
    let forward = build(vec!["a", "b", "c"]);
    let backward = build(vec!["c", "b", "a"]);
    assert_eq!(forward, backward);
    assert_eq!(forward.0, only(true, true));
    assert_eq!(forward.1, Progress { resolved: 2, total: 3 });
}

#[test]
fn listing_errors_come_back_unchanged() {
    let err = validate_config("nowhere", "cfg", MockDataAccess::new()).unwrap_err();
    assert_eq!(err, ValidationError::DataAccessError { message: "No split names found for nowhere:cfg".to_string() });
    let validator = DatasetValidator::new(MockDataAccess::new());
    let err = validator.validate(&EntityIdentifier::new_dataset("gone".to_string()), ValidationLevel::Dataset).unwrap_err();
    assert_eq!(err, ValidationError::DataAccessError { message: "No config names found for gone".to_string() });
    let err = validator
        .validate(&EntityIdentifier::new_config("d".to_string(), "c".to_string()), ValidationLevel::Split)
        .unwrap_err();
    assert_eq!(err, ValidationError::InvalidEntityIdentifier { message: "Split required for split validation".to_string() });
}

#[test]
fn progress_values_compare_as_numbers() {
    let one = Progress::complete();
    assert!(Progress { resolved: 0, total: 0 }.same_value(&one));
    assert!(Progress { resolved: 3, total: 3 }.same_value(&one));
    assert!(Progress { resolved: 2, total: 4 }.same_value(&Progress { resolved: 1, total: 2 }));
    assert!(!Progress { resolved: 2, total: 3 }.same_value(&one));
    assert!(!Progress { resolved: 0, total: 5 }.same_value(&Progress { resolved: 0, total: 0 }));
}
