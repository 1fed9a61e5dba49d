pub mod cargo2hf_extractor;
pub mod data_access;
pub mod dataset_validator;
pub mod dataset_loader;
pub mod llvm_ir_extractor;
pub mod mock;
pub mod parquet_validator;
pub mod rust_analyzer_extractor;
pub mod text;
pub mod validator;

pub use data_access::DataAccess;
pub use dataset_validator::{validate_config, validate_dataset, validate_split, DatasetValidator};
pub use mock::MockDataAccess;
pub use validator::{
    CachedResponse, EntityIdentifier, ParquetMetadata, Progress, ValidationCapability, ValidationError,
    ValidationLevel, ValidationResult,
};
