use hf_dataset_validator::dataset_loader::{DatasetExample, DatasetLoader};
use hf_dataset_validator::ValidationError;

fn files(names: &[&str]) -> Vec<(String, String)> {
    names.iter().map(|n| (n.to_string(), format!("data/{}", n))).collect()
}

fn example(term: &str, group: &str) -> DatasetExample {
    DatasetExample {
        id: format!("id-{}", term),
        term: term.to_string(),
        count: 1,
        category: "c".to_string(),
        significance: "s".to_string(),
        vibe: "v".to_string(),
        action_suggestion: "a".to_string(),
        emoji_representation: None,
        semantic_names: None,
        osi_layer: None,
        prime_factor: None,
        is_power_of_two: None,
        numerical_address: None,
        first_seen_timestamp: None,
        last_seen_timestamp: None,
        character_group: group.to_string(),
    }
}

#[test]
fn test_dataset_loader() {
    let dataset_files = files(&["train-00001-of-00002.parquet", "test-00000-of-00001.parquet", "train-00000-of-00002.parquet"]);
    let loader = DatasetLoader::new("solfunmeme-hf-dataset", true, dataset_files).unwrap();
    let splits = loader.get_splits();

    assert!(!splits.is_empty());
    assert!(splits.contains(&"train".to_string()));

    let train = loader.split_files("train").unwrap();
    assert!(train.len() > 0);
}

#[test]
fn splits_are_sorted_and_distinct() {
    let loader = DatasetLoader::new("d", true, files(&["validation-0.parquet", "train-1.parquet", "test.parquet", "train-0.parquet"]))
        .unwrap();
    assert_eq!(loader.get_splits(), vec!["test.parquet".to_string(), "train".to_string(), "validation".to_string()]);
    assert_eq!(
        loader.split_files("train").unwrap(),
        vec!["data/train-0.parquet".to_string(), "data/train-1.parquet".to_string()]
    );
    let err = loader.split_files("other").unwrap_err();
    assert_eq!(err, ValidationError::DataAccessError { message: "Split 'other' not found".to_string() });
}

#[test]
fn loader_needs_directory() {
    let err = DatasetLoader::new("missing", false, Vec::new()).err().unwrap();
    assert!(matches!(err, ValidationError::DataAccessError { .. }));
}

#[test]
fn select_examples() {
    let loader = DatasetLoader::new("d", true, Vec::new()).unwrap();
    let examples = vec![example("Rocket", "r"), example("moon", "m"), example("ROCKETS", "r")];
    let rs = loader.get_by_character_group(examples.clone(), "r");
    assert_eq!(rs.iter().map(|e| e.term.as_str()).collect::<Vec<_>>(), vec!["Rocket", "ROCKETS"]);
    let found = loader.search_by_term(examples.clone(), "rOcK");
    assert_eq!(found.iter().map(|e| e.term.as_str()).collect::<Vec<_>>(), vec!["Rocket", "ROCKETS"]);
    assert!(loader.search_by_term(examples, "sun").is_empty());
}
