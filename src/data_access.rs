use vstd::prelude::*;
use crate::validator::{
    CachedResponse, EntityIdentifier, EntityView, ErrorView, MetadataView, ParquetMetadata, ValidationError,
};

verus! {

/// What a cache lookup gave: a recorded response, no entry yet, or another failure.
pub enum CacheOutcome {
    Hit(CachedResponse),
    Miss,
    Failed,
}

/// Reads a cache lookup's result as an outcome: a `CacheError` is a miss.
pub open spec fn outcome_of(r: Result<CachedResponse, ValidationError>) -> CacheOutcome {
    match r {
        Ok(c) => CacheOutcome::Hit(c),
        Err(ValidationError::CacheError { .. }) => CacheOutcome::Miss,
        Err(_) => CacheOutcome::Failed,
    }
}

pub open spec fn names_view(v: Seq<String>) -> Seq<Seq<char>> {
    v.map_values(|s: String| s@)
}

/// The backing store that answers existence, metadata and cache questions.
///
/// The spec functions describe one consistent snapshot of the store: each call
/// answers as they say.
pub trait DataAccess: Send + Sync {
    /// The answer of a named check on an entity; `None` where the store fails.
    spec fn response(&self, kind: Seq<char>, entity: EntityView) -> Option<bool>;

    /// The schema of a config; `None` where the store has none.
    spec fn metadata(&self, dataset: Seq<char>, config: Seq<char>) -> Option<MetadataView>;

    /// The split names of a config; `None` where they cannot be listed.
    spec fn split_names(&self, dataset: Seq<char>, config: Seq<char>) -> Option<Seq<Seq<char>>>;

    /// The error given where the split names of a config cannot be listed.
    spec fn split_names_error(&self, dataset: Seq<char>, config: Seq<char>) -> ErrorView;

    /// The config names of a dataset; `None` where they cannot be listed.
    spec fn config_names(&self, dataset: Seq<char>) -> Option<Seq<Seq<char>>>;

    /// The error given where the config names of a dataset cannot be listed.
    spec fn config_names_error(&self, dataset: Seq<char>) -> ErrorView;

    /// What the cache holds for a check on an entity.
    spec fn cached(&self, kind: Seq<char>, entity: EntityView) -> CacheOutcome;

    /// Whether a schema has a column that a text search can use.
    spec fn indexable(&self, features: Seq<(Seq<char>, Seq<char>)>) -> bool;

    fn check_successful_response(&self, kind: &str, entity: &EntityIdentifier) -> (r: Result<bool, ValidationError>)
        ensures
            r is Ok <==> self.response(kind@, entity@) is Some,
            r is Ok ==> self.response(kind@, entity@) == Some(r->Ok_0),
    ;

    fn get_parquet_metadata(&self, dataset: &str, config: &str) -> (r: Result<ParquetMetadata, ValidationError>)
        ensures
            r is Ok <==> self.metadata(dataset@, config@) is Some,
            r is Ok ==> self.metadata(dataset@, config@) == Some(r->Ok_0@),
    ;

    fn get_split_names(&self, dataset: &str, config: &str) -> (r: Result<Vec<String>, ValidationError>)
        ensures
            r is Ok <==> self.split_names(dataset@, config@) is Some,
            r is Ok ==> self.split_names(dataset@, config@) == Some(names_view(r->Ok_0@)),
            r is Err ==> r->Err_0@ == self.split_names_error(dataset@, config@),
    ;

    fn get_config_names(&self, dataset: &str) -> (r: Result<Vec<String>, ValidationError>)
        ensures
            r is Ok <==> self.config_names(dataset@) is Some,
            r is Ok ==> self.config_names(dataset@) == Some(names_view(r->Ok_0@)),
            r is Err ==> r->Err_0@ == self.config_names_error(dataset@),
    ;

    fn get_cached_validation(&self, kind: &str, entity: &EntityIdentifier) -> (r: Result<CachedResponse, ValidationError>)
        ensures
            outcome_of(r) == self.cached(kind@, entity@),
    ;

    fn has_indexable_columns(&self, features: &Vec<(String, String)>) -> (r: bool)
        ensures
            r == self.indexable(crate::validator::features_view(features@)),
    ;
}

} // verus!
