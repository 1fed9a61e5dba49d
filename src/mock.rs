use vstd::prelude::*;
use crate::data_access::{names_view, CacheOutcome, DataAccess};
use crate::dataset_validator::{config_valid_kind, preview_kind, split_valid_kind, statistics_kind, viewer_kind};
use crate::text::{
    contains_seq, contains_str, copy_strings, escape_colons, has_colon_str, join2, lemma_join2_injective, same_text,
};
use crate::validator::{
    config_entity, features_view, key_of, lemma_cache_key_injective, or_empty, split_entity, CachedResponse,
    EntityIdentifier, EntityView, ErrorView, MetadataView, ParquetMetadata, Progress, ValidationError, ValidationResult,
};

verus! {

/// The value stored last under `key`, if any.
pub open spec fn lookup<V>(entries: Seq<(String, V)>, key: Seq<char>) -> Option<V>
    decreases entries.len(),
{
    if entries.len() == 0 {
        None
    } else if entries.last().0@ == key {
        Some(entries.last().1)
    } else {
        lookup(entries.drop_last(), key)
    }
}

/// `dataset:config`, escaped where a field holds a `:`: the key of a config's
/// schema and split names.
pub open spec fn pair_key(d: Seq<char>, c: Seq<char>) -> Seq<char> {
    join2(d, c)
}

/// A column type that a text search can use.
pub open spec fn is_text_type(t: Seq<char>) -> bool {
    contains_seq(t, "string"@) || contains_seq(t, "text"@)
}

pub open spec fn any_text_column(features: Seq<(Seq<char>, Seq<char>)>) -> bool {
    exists|i: int| 0 <= i < features.len() && is_text_type(#[trigger] features[i].1)
}

/// Index of the entry stored last under `key`.
fn find_entry<V>(entries: &Vec<(String, V)>, key: &String) -> (r: Option<usize>)
    ensures
        match r {
            Some(i) => i < entries@.len() && lookup(entries@, key@) == Some(entries@[i as int].1),
            None => lookup(entries@, key@) is None,
        },
{
    let mut i: usize = entries.len();
    assert(entries@.take(i as int) =~= entries@);
    while i > 0
        invariant
            i <= entries@.len(),
            lookup(entries@, key@) == lookup(entries@.take(i as int), key@),
        decreases i,
    {
        let ghost prefix = entries@.take(i as int);
        assert(prefix.drop_last() =~= entries@.take(i - 1));
        i = i - 1;
        if entries[i].0 == *key {
            return Some(i);
        }
    }
    None
}

fn copy_metadata(m: &ParquetMetadata) -> (r: ParquetMetadata)
    ensures
        r.features@ == m.features@,
        r.num_rows == m.num_rows,
{
    let mut features: Vec<(String, String)> = Vec::new();
    let mut i: usize = 0;
    while i < m.features.len()
        invariant
            i <= m.features@.len(),
            features@ =~= m.features@.take(i as int),
        decreases m.features.len() - i,
    {
        let name = m.features[i].0.clone();
        let ty = m.features[i].1.clone();
        features.push((name, ty));
        proof {
            assert(features@.last() == m.features@[i as int]);
        }
        i = i + 1;
    }
    assert(m.features@.take(i as int) =~= m.features@);
    ParquetMetadata { features, num_rows: m.num_rows }
}

fn pair_key_of(dataset: &str, config: &str) -> (r: String)
    ensures
        r@ == pair_key(dataset@, config@),
{
    let escape = has_colon_str(dataset) || has_colon_str(config);
    let mut key = String::new();
    if escape {
        let d = escape_colons(dataset);
        key.append(d.as_str());
    } else {
        key.append(dataset);
    }
    key.append(":");
    if escape {
        let c = escape_colons(config);
        key.append(c.as_str());
    } else {
        key.append(config);
    }
    proof {
        reveal_strlit(":");
        assert(key@ =~= pair_key(dataset@, config@));
    }
    key
}

fn message_with(prefix: &str, detail: &String) -> (r: String)
    ensures
        r@ == prefix@ + detail@,
{
    let mut out = String::from_str(prefix);
    out.append(detail.as_str());
    out
}

/// An in-memory store. Each table keeps every value written to it; a lookup
/// sees the one written last under its key.
#[derive(Clone)]
pub struct MockDataAccess {
    successful_responses: Vec<(String, bool)>,
    parquet_metadata: Vec<(String, ParquetMetadata)>,
    split_names: Vec<(String, Vec<String>)>,
    config_names: Vec<(String, Vec<String>)>,
    cached_validations: Vec<(String, CachedResponse)>,
}

impl MockDataAccess {
    /// An empty store: every check fails, nothing is listed, every cache lookup misses.
    pub fn new() -> (r: MockDataAccess)
        ensures
            forall|k: Seq<char>, e: EntityView| r.response(k, e) is None,
            forall|d: Seq<char>, c: Seq<char>| r.metadata(d, c) is None,
            forall|d: Seq<char>, c: Seq<char>| r.split_names(d, c) is None,
            forall|d: Seq<char>| r.config_names(d) is None,
            forall|k: Seq<char>, e: EntityView| r.cached(k, e) is Miss,
    {
        MockDataAccess {
            successful_responses: Vec::new(),
            parquet_metadata: Vec::new(),
            split_names: Vec::new(),
            config_names: Vec::new(),
            cached_validations: Vec::new(),
        }
    }

    pub open spec fn same_responses(self, other: Self) -> bool {
        forall|k: Seq<char>, e: EntityView| #[trigger] self.response(k, e) == other.response(k, e)
    }

    pub open spec fn same_metadata(self, other: Self) -> bool {
        forall|d: Seq<char>, c: Seq<char>| #[trigger] self.metadata(d, c) == other.metadata(d, c)
    }

    pub open spec fn same_split_names(self, other: Self) -> bool {
        forall|d: Seq<char>, c: Seq<char>| #[trigger] self.split_names(d, c) == other.split_names(d, c)
    }

    pub open spec fn same_config_names(self, other: Self) -> bool {
        forall|d: Seq<char>| #[trigger] self.config_names(d) == other.config_names(d)
    }

    pub open spec fn same_cache(self, other: Self) -> bool {
        forall|k: Seq<char>, e: EntityView| #[trigger] self.cached(k, e) == other.cached(k, e)
    }

    /// Records the answer of a named check on an entity.
    pub fn set_response(&mut self, kind: &str, entity: &EntityIdentifier, value: bool)
        ensures
            forall|k: Seq<char>, e: EntityView| #[trigger]
                final(self).response(k, e) == if key_of(k, e) == key_of(kind@, entity@) {
                    Some(value)
                } else {
                    old(self).response(k, e)
                },
            final(self).same_metadata(*old(self)),
            final(self).same_split_names(*old(self)),
            final(self).same_config_names(*old(self)),
            final(self).same_cache(*old(self)),
    {
        let key = entity.cache_key(kind);
        self.successful_responses.push((key, value));
        proof {
            assert(final(self).successful_responses@.drop_last() =~= old(self).successful_responses@);
        }
    }

    /// Records the schema of a config.
    pub fn set_parquet_metadata(&mut self, dataset: &str, config: &str, metadata: ParquetMetadata)
        ensures
            forall|d: Seq<char>, c: Seq<char>| #[trigger]
                final(self).metadata(d, c) == if pair_key(d, c) == pair_key(dataset@, config@) {
                    Some(metadata@)
                } else {
                    old(self).metadata(d, c)
                },
            final(self).same_responses(*old(self)),
            final(self).same_split_names(*old(self)),
            final(self).same_config_names(*old(self)),
            final(self).same_cache(*old(self)),
    {
        let key = pair_key_of(dataset, config);
        self.parquet_metadata.push((key, metadata));
        proof {
            assert(final(self).parquet_metadata@.drop_last() =~= old(self).parquet_metadata@);
        }
    }

    /// Records the split names of a config.
    pub fn set_split_names(&mut self, dataset: &str, config: &str, names: Vec<String>)
        ensures
            forall|d: Seq<char>, c: Seq<char>| #[trigger]
                final(self).split_names(d, c) == if pair_key(d, c) == pair_key(dataset@, config@) {
                    Some(names_view(names@))
                } else {
                    old(self).split_names(d, c)
                },
            final(self).same_responses(*old(self)),
            final(self).same_metadata(*old(self)),
            final(self).same_config_names(*old(self)),
            final(self).same_cache(*old(self)),
    {
        let key = pair_key_of(dataset, config);
        self.split_names.push((key, names));
        proof {
            assert(final(self).split_names@.drop_last() =~= old(self).split_names@);
        }
    }

    /// Records the config names of a dataset.
    pub fn set_config_names(&mut self, dataset: &str, names: Vec<String>)
        ensures
            forall|d: Seq<char>| #[trigger]
                final(self).config_names(d) == if d == dataset@ {
                    Some(names_view(names@))
                } else {
                    old(self).config_names(d)
                },
            final(self).same_responses(*old(self)),
            final(self).same_metadata(*old(self)),
            final(self).same_split_names(*old(self)),
            final(self).same_cache(*old(self)),
    {
        let key = String::from_str(dataset);
        self.config_names.push((key, names));
        proof {
            assert(final(self).config_names@.drop_last() =~= old(self).config_names@);
        }
    }

    /// Records a validation outcome for a check on an entity.
    pub fn set_cached_validation(&mut self, kind: &str, entity: &EntityIdentifier, response: CachedResponse)
        ensures
            forall|k: Seq<char>, e: EntityView| #[trigger]
                final(self).cached(k, e) == if key_of(k, e) == key_of(kind@, entity@) {
                    CacheOutcome::Hit(response)
                } else {
                    old(self).cached(k, e)
                },
            final(self).same_responses(*old(self)),
            final(self).same_metadata(*old(self)),
            final(self).same_split_names(*old(self)),
            final(self).same_config_names(*old(self)),
    {
        let key = entity.cache_key(kind);
        self.cached_validations.push((key, response));
        proof {
            assert(final(self).cached_validations@.drop_last() =~= old(self).cached_validations@);
        }
    }
}

/// The entity lies within the dataset `d`, and within config `c` and split
/// `sp` where those are given.
pub open spec fn in_scope(e: EntityView, d: Seq<char>, c: Option<Seq<char>>, sp: Option<Seq<char>>) -> bool {
    e.dataset == d && (c is None || or_empty(e.config) == c->Some_0) && (sp is None || or_empty(e.split)
        == sp->Some_0)
}

/// The result recorded for every split of the default data.
pub open spec fn default_split_result(has_statistics: bool) -> ValidationResult {
    ValidationResult { viewer: true, preview: true, search: true, filter: true, statistics: has_statistics }
}

pub open spec fn default_schema() -> MetadataView {
    MetadataView { features: seq![("text"@, "string"@), ("label"@, "int64"@)], num_rows: None }
}

pub open spec fn default_splits() -> Seq<Seq<char>> {
    seq!["train"@, "test"@, "validation"@]
}

pub open spec fn default_configs() -> Seq<Seq<char>> {
    seq!["default"@, "extra"@]
}

pub proof fn lemma_pair_key_injective(d1: Seq<char>, c1: Seq<char>, d2: Seq<char>, c2: Seq<char>)
    requires
        pair_key(d1, c1) == pair_key(d2, c2),
    ensures
        d1 == d2,
        c1 == c2,
{
    lemma_join2_injective(d1, c1, d2, c2);
}

impl MockDataAccess {
    /// Everything recorded for a split of the default data.
    pub open spec fn split_filled(self, d: Seq<char>, c: Seq<char>, sp: Seq<char>) -> bool {
        let e = split_entity(d, c, sp);
        &&& self.response(preview_kind(), e) == Some(true)
        &&& self.response(statistics_kind(), e) == Some(sp != "validation"@)
        &&& self.cached(split_valid_kind(), e) == CacheOutcome::Hit(
            CachedResponse {
                http_status: 200,
                content: default_split_result(sp != "validation"@),
                progress: Progress { resolved: 1, total: 1 },
            },
        )
    }

    /// Everything recorded for a config of the default data.
    pub open spec fn config_filled(self, d: Seq<char>, c: Seq<char>) -> bool {
        &&& self.split_names(d, c) == Some(default_splits())
        &&& self.metadata(d, c) == Some(default_schema())
        &&& self.split_filled(d, c, "train"@)
        &&& self.split_filled(d, c, "test"@)
        &&& self.split_filled(d, c, "validation"@)
        &&& self.response(viewer_kind(), config_entity(d, c)) == Some(true)
        &&& self.cached(config_valid_kind(), config_entity(d, c)) == CacheOutcome::Hit(
            CachedResponse {
                http_status: 200,
                content: default_split_result(true),
                progress: Progress { resolved: 1, total: 1 },
            },
        )
    }

    /// Everything recorded for a dataset of the default data.
    pub open spec fn dataset_filled(self, d: Seq<char>) -> bool {
        &&& self.config_names(d) == Some(default_configs())
        &&& self.config_filled(d, "default"@)
        &&& self.config_filled(d, "extra"@)
    }

    /// Checks and cache entries outside the scope are as in `other`.
    pub open spec fn same_outside(
        self,
        other: Self,
        d: Seq<char>,
        c: Option<Seq<char>>,
        sp: Option<Seq<char>>,
    ) -> bool {
        &&& forall|k: Seq<char>, e: EntityView| #[trigger]
            self.response(k, e) == other.response(k, e) || in_scope(e, d, c, sp)
        &&& forall|k: Seq<char>, e: EntityView| #[trigger]
            self.cached(k, e) == other.cached(k, e) || in_scope(e, d, c, sp)
    }

    /// Schemas and split lists outside the scope are as in `other`.
    pub open spec fn same_tables_outside(self, other: Self, d: Seq<char>, c: Option<Seq<char>>) -> bool {
        &&& forall|d2: Seq<char>, c2: Seq<char>| #[trigger]
            self.metadata(d2, c2) == other.metadata(d2, c2) || (d2 == d && (c is None || c2 == c->Some_0))
        &&& forall|d2: Seq<char>, c2: Seq<char>| #[trigger]
            self.split_names(d2, c2) == other.split_names(d2, c2) || (d2 == d && (c is None || c2 == c->Some_0))
    }

    fn fill_split(&mut self, dataset: &str, config: &str, split: &str)
        ensures
            final(self).split_filled(dataset@, config@, split@),
            final(self).same_outside(*old(self), dataset@, Some(config@), Some(split@)),
            final(self).same_metadata(*old(self)),
            final(self).same_split_names(*old(self)),
            final(self).same_config_names(*old(self)),
    {
        let has_statistics = !same_text(split, "validation");
        let entity = EntityIdentifier::new_split(String::from_str(dataset), String::from_str(config), String::from_str(split));
        let ghost s0 = *self;
        self.set_response("split-has-preview", &entity, true);
        let ghost s1 = *self;
        self.set_response("split-has-statistics", &entity, has_statistics);
        let ghost s2 = *self;
        let result = ValidationResult {
            viewer: true,
            preview: true,
            search: true,
            filter: true,
            statistics: has_statistics,
        };
        self.set_cached_validation("split-is-valid", &entity, CachedResponse::new(200, result, Progress::complete()));
        proof {
            reveal_strlit("split-has-preview");
            reveal_strlit("split-has-statistics");
            assert(preview_kind().len() != statistics_kind().len());
            if key_of(preview_kind(), entity@) == key_of(statistics_kind(), entity@) {
                lemma_cache_key_injective(preview_kind(), entity@, statistics_kind(), entity@);
            }
            assert forall|k: Seq<char>, e: EntityView| #[trigger]
                self.response(k, e) == s0.response(k, e) || in_scope(e, dataset@, Some(config@), Some(split@)) by {
                if key_of(k, e) == key_of(preview_kind(), entity@) {
                    lemma_cache_key_injective(k, e, preview_kind(), entity@);
                }
                if key_of(k, e) == key_of(statistics_kind(), entity@) {
                    lemma_cache_key_injective(k, e, statistics_kind(), entity@);
                }
            }
            assert forall|k: Seq<char>, e: EntityView| #[trigger]
                self.cached(k, e) == s0.cached(k, e) || in_scope(e, dataset@, Some(config@), Some(split@)) by {
                if key_of(k, e) == key_of(split_valid_kind(), entity@) {
                    lemma_cache_key_injective(k, e, split_valid_kind(), entity@);
                }
            }
        }
    }

    fn fill_config(&mut self, dataset: &str, config: &str)
        ensures
            final(self).config_filled(dataset@, config@),
            final(self).same_outside(*old(self), dataset@, Some(config@), None),
            final(self).same_tables_outside(*old(self), dataset@, Some(config@)),
            final(self).same_config_names(*old(self)),
    {
        proof {
            reveal_strlit("train");
            reveal_strlit("test");
            reveal_strlit("validation");
        }
        let ghost s0 = *self;
        let mut names: Vec<String> = Vec::new();
        names.push(String::from_str("train"));
        names.push(String::from_str("test"));
        names.push(String::from_str("validation"));
        assert(names_view(names@) =~= default_splits());
        self.set_split_names(dataset, config, names);
        let mut features: Vec<(String, String)> = Vec::new();
        features.push((String::from_str("text"), String::from_str("string")));
        features.push((String::from_str("label"), String::from_str("int64")));
        let metadata = ParquetMetadata::new(features);
        assert(metadata@.features =~= default_schema().features);
        self.set_parquet_metadata(dataset, config, metadata);
        let ghost s2 = *self;
        self.fill_split(dataset, config, "train");
        let ghost s3 = *self;
        self.fill_split(dataset, config, "test");
        let ghost s4 = *self;
        self.fill_split(dataset, config, "validation");
        let ghost s5 = *self;
        let entity = EntityIdentifier::new_config(String::from_str(dataset), String::from_str(config));
        self.set_response("config-has-viewer", &entity, true);
        let ghost s6 = *self;
        let result = ValidationResult { viewer: true, preview: true, search: true, filter: true, statistics: true };
        self.set_cached_validation("config-is-valid", &entity, CachedResponse::new(200, result, Progress::complete()));
        proof {
            let d = dataset@;
            let c = config@;
            let sps = seq!["train"@, "test"@, "validation"@];
            assert forall|i: int| 0 <= i < 3 implies #[trigger] self.split_filled(d, c, sps[i]) by {
                let e = split_entity(d, c, sps[i]);
                assert(s5.split_filled(d, c, sps[i]));
                if key_of(preview_kind(), e) == key_of(viewer_kind(), entity@) {
                    lemma_cache_key_injective(preview_kind(), e, viewer_kind(), entity@);
                }
                if key_of(statistics_kind(), e) == key_of(viewer_kind(), entity@) {
                    lemma_cache_key_injective(statistics_kind(), e, viewer_kind(), entity@);
                }
                if key_of(split_valid_kind(), e) == key_of(config_valid_kind(), entity@) {
                    lemma_cache_key_injective(split_valid_kind(), e, config_valid_kind(), entity@);
                }
            }
            assert(self.split_filled(d, c, sps[0]));
            assert(self.split_filled(d, c, sps[1]));
            assert(self.split_filled(d, c, sps[2]));
            reveal_strlit("config-has-viewer");
            reveal_strlit("config-is-valid");
            if key_of(viewer_kind(), entity@) == key_of(config_valid_kind(), entity@) {
                lemma_cache_key_injective(viewer_kind(), entity@, config_valid_kind(), entity@);
            }
            assert forall|k: Seq<char>, e: EntityView| #[trigger]
                self.response(k, e) == s0.response(k, e) || in_scope(e, d, Some(c), None) by {
                if key_of(k, e) == key_of(viewer_kind(), entity@) {
                    lemma_cache_key_injective(k, e, viewer_kind(), entity@);
                }
            }
            assert forall|k: Seq<char>, e: EntityView| #[trigger]
                self.cached(k, e) == s0.cached(k, e) || in_scope(e, d, Some(c), None) by {
                if key_of(k, e) == key_of(config_valid_kind(), entity@) {
                    lemma_cache_key_injective(k, e, config_valid_kind(), entity@);
                }
            }
            assert forall|d2: Seq<char>, c2: Seq<char>| #[trigger]
                self.metadata(d2, c2) == s0.metadata(d2, c2) || (d2 == d && c2 == c) by {
                if pair_key(d2, c2) == pair_key(d, c) {
                    lemma_pair_key_injective(d2, c2, d, c);
                }
            }
            assert forall|d2: Seq<char>, c2: Seq<char>| #[trigger]
                self.split_names(d2, c2) == s0.split_names(d2, c2) || (d2 == d && c2 == c) by {
                if pair_key(d2, c2) == pair_key(d, c) {
                    lemma_pair_key_injective(d2, c2, d, c);
                }
            }
        }
    }

    fn fill_dataset(&mut self, dataset: &str)
        ensures
            final(self).dataset_filled(dataset@),
            final(self).same_outside(*old(self), dataset@, None, None),
            final(self).same_tables_outside(*old(self), dataset@, None),
            forall|d: Seq<char>| #[trigger] final(self).config_names(d) == old(self).config_names(d) || d == dataset@,
    {
        proof {
            reveal_strlit("default");
            reveal_strlit("extra");
        }
        let mut names: Vec<String> = Vec::new();
        names.push(String::from_str("default"));
        names.push(String::from_str("extra"));
        assert(names_view(names@) =~= default_configs());
        self.set_config_names(dataset, names);
        self.fill_config(dataset, "default");
        self.fill_config(dataset, "extra");
    }
}

impl MockDataAccess {
    /// Fills the store with three datasets (`user/repo`, `org/dataset`,
    /// `mock/dataset`), each with configs `default` and `extra`, each with splits
    /// `train`, `test` and `validation`. Every check succeeds but statistics on
    /// `validation`, every config has a schema with a text column, and every
    /// split and config has a successful cached validation.
    pub fn setup_default_data(&mut self)
        ensures
            final(self).dataset_filled("user/repo"@),
            final(self).dataset_filled("org/dataset"@),
            final(self).dataset_filled("mock/dataset"@),
    {
        proof {
            reveal_strlit("user/repo");
            reveal_strlit("org/dataset");
            reveal_strlit("mock/dataset");
        }
        self.fill_dataset("user/repo");
        self.fill_dataset("org/dataset");
        self.fill_dataset("mock/dataset");
    }
}

impl Default for MockDataAccess {
    /// A store filled as `setup_default_data` fills it.
    fn default() -> (r: MockDataAccess)
        ensures
            r.dataset_filled("user/repo"@),
            r.dataset_filled("org/dataset"@),
            r.dataset_filled("mock/dataset"@),
    {
        let mut mock = MockDataAccess::new();
        mock.setup_default_data();
        mock
    }
}

impl DataAccess for MockDataAccess {
    closed spec fn response(&self, kind: Seq<char>, entity: EntityView) -> Option<bool> {
        lookup(self.successful_responses@, key_of(kind, entity))
    }

    closed spec fn metadata(&self, dataset: Seq<char>, config: Seq<char>) -> Option<MetadataView> {
        match lookup(self.parquet_metadata@, pair_key(dataset, config)) {
            Some(m) => Some(m@),
            None => None,
        }
    }

    closed spec fn split_names(&self, dataset: Seq<char>, config: Seq<char>) -> Option<Seq<Seq<char>>> {
        match lookup(self.split_names@, pair_key(dataset, config)) {
            Some(v) => Some(names_view(v@)),
            None => None,
        }
    }

    open spec fn split_names_error(&self, dataset: Seq<char>, config: Seq<char>) -> ErrorView {
        ErrorView::DataAccessError { message: "No split names found for "@ + pair_key(dataset, config) }
    }

    open spec fn config_names_error(&self, dataset: Seq<char>) -> ErrorView {
        ErrorView::DataAccessError { message: "No config names found for "@ + dataset }
    }

    closed spec fn config_names(&self, dataset: Seq<char>) -> Option<Seq<Seq<char>>> {
        match lookup(self.config_names@, dataset) {
            Some(v) => Some(names_view(v@)),
            None => None,
        }
    }

    closed spec fn cached(&self, kind: Seq<char>, entity: EntityView) -> CacheOutcome {
        match lookup(self.cached_validations@, key_of(kind, entity)) {
            Some(c) => CacheOutcome::Hit(c),
            None => CacheOutcome::Miss,
        }
    }

    open spec fn indexable(&self, features: Seq<(Seq<char>, Seq<char>)>) -> bool {
        any_text_column(features)
    }

    fn check_successful_response(&self, kind: &str, entity: &EntityIdentifier) -> (r: Result<bool, ValidationError>) {
        let key = entity.cache_key(kind);
        match find_entry(&self.successful_responses, &key) {
            Some(i) => Ok(self.successful_responses[i].1),
            None => Err(ValidationError::DataAccessError { message: message_with("No response found for ", &key) }),
        }
    }

    fn get_parquet_metadata(&self, dataset: &str, config: &str) -> (r: Result<ParquetMetadata, ValidationError>) {
        let key = pair_key_of(dataset, config);
        match find_entry(&self.parquet_metadata, &key) {
            Some(i) => Ok(copy_metadata(&self.parquet_metadata[i].1)),
            None => Err(ValidationError::MetadataNotFound { entity: key }),
        }
    }

    fn get_split_names(&self, dataset: &str, config: &str) -> (r: Result<Vec<String>, ValidationError>) {
        let key = pair_key_of(dataset, config);
        match find_entry(&self.split_names, &key) {
            Some(i) => Ok(copy_strings(&self.split_names[i].1)),
            None => Err(ValidationError::DataAccessError { message: message_with("No split names found for ", &key) }),
        }
    }

    fn get_config_names(&self, dataset: &str) -> (r: Result<Vec<String>, ValidationError>) {
        let key = String::from_str(dataset);
        match find_entry(&self.config_names, &key) {
            Some(i) => Ok(copy_strings(&self.config_names[i].1)),
            None => Err(ValidationError::DataAccessError { message: message_with("No config names found for ", &key) }),
        }
    }

    fn get_cached_validation(&self, kind: &str, entity: &EntityIdentifier) -> (r: Result<CachedResponse, ValidationError>) {
        let key = entity.cache_key(kind);
        match find_entry(&self.cached_validations, &key) {
            Some(i) => Ok(self.cached_validations[i].1),
            None => Err(ValidationError::CacheError { message: message_with("No cached validation found for ", &key) }),
        }
    }

    fn has_indexable_columns(&self, features: &Vec<(String, String)>) -> (r: bool) {
        let ghost fv = features_view(features@);
        let mut i: usize = 0;
        while i < features.len()
            invariant
                i <= features@.len(),
                fv == features_view(features@),
                forall|j: int| 0 <= j < i ==> !is_text_type(#[trigger] fv[j].1),
            decreases features.len() - i,
        {
            let ty = features[i].1.as_str();
            if contains_str(ty, "string") || contains_str(ty, "text") {
                assert(is_text_type(fv[i as int].1));
                return true;
            }
            i = i + 1;
        }
        false
    }
}

} // verus!
