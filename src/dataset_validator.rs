use vstd::prelude::*;
use crate::data_access::{CacheOutcome, DataAccess, names_view};
use crate::validator::{
    config_entity, dataset_entity, no_capability, split_entity, union, ErrorView, EntityIdentifier, EntityView, Progress, ValidationError,
    ValidationLevel, ValidationResult,
};

verus! {

/// Whether the viewer can show a config.
pub open spec fn viewer_kind() -> Seq<char> {
    "config-has-viewer"@
}

/// Whether a split has a preview.
pub open spec fn preview_kind() -> Seq<char> {
    "split-has-preview"@
}

/// Whether a split has statistics.
pub open spec fn statistics_kind() -> Seq<char> {
    "split-has-statistics"@
}

/// The cached validation of a split.
pub open spec fn split_valid_kind() -> Seq<char> {
    "split-is-valid"@
}

/// The cached validation of a config.
pub open spec fn config_valid_kind() -> Seq<char> {
    "config-is-valid"@
}

/// The capabilities of a split, from the raw checks of the store: the viewer
/// flag comes from the parent config, filter and search from the config's schema.
pub open spec fn split_capabilities<D: DataAccess>(data: &D, e: EntityView) -> ValidationResult {
    let c = e.config->Some_0;
    let meta = data.metadata(e.dataset, c);
    ValidationResult {
        viewer: data.response(viewer_kind(), config_entity(e.dataset, c)) == Some(true),
        preview: data.response(preview_kind(), e) == Some(true),
        search: meta is Some && data.indexable(meta->Some_0.features),
        filter: meta is Some,
        statistics: data.response(statistics_kind(), e) == Some(true),
    }
}

/// The merge of the successful cached results among the outcomes.
pub open spec fn merge_outcomes(outs: Seq<CacheOutcome>) -> ValidationResult
    decreases outs.len(),
{
    if outs.len() == 0 {
        no_capability()
    } else {
        let prev = merge_outcomes(outs.drop_last());
        match outs.last() {
            CacheOutcome::Hit(c) => if c.http_status == 200 {
                union(prev, c.content)
            } else {
                prev
            },
            _ => prev,
        }
    }
}

/// The number of cache misses among the outcomes.
pub open spec fn pending_count(outs: Seq<CacheOutcome>) -> nat
    decreases outs.len(),
{
    if outs.len() == 0 {
        0
    } else {
        pending_count(outs.drop_last()) + if outs.last() is Miss {
            1nat
        } else {
            0nat
        }
    }
}

/// Resolved children out of all children.
pub open spec fn progress_of(outs: Seq<CacheOutcome>) -> Progress {
    Progress { resolved: (outs.len() - pending_count(outs)) as usize, total: outs.len() as usize }
}

/// What the cache holds for each child under one check.
pub open spec fn child_outcomes<D: DataAccess>(data: &D, kind: Seq<char>, children: Seq<EntityView>) -> Seq<CacheOutcome> {
    children.map_values(|e: EntityView| data.cached(kind, e))
}

pub open spec fn split_children(d: Seq<char>, c: Seq<char>, names: Seq<Seq<char>>) -> Seq<EntityView> {
    names.map_values(|n: Seq<char>| split_entity(d, c, n))
}

pub open spec fn config_children(d: Seq<char>, names: Seq<Seq<char>>) -> Seq<EntityView> {
    names.map_values(|n: Seq<char>| config_entity(d, n))
}

pub open spec fn entities_view(v: Seq<EntityIdentifier>) -> Seq<EntityView> {
    v.map_values(|e: EntityIdentifier| e@)
}

/// The cached outcomes of a config's splits; `None` where they cannot be listed.
pub open spec fn config_outcomes<D: DataAccess>(data: &D, d: Seq<char>, c: Seq<char>) -> Option<Seq<CacheOutcome>> {
    match data.split_names(d, c) {
        Some(names) => Some(child_outcomes(data, split_valid_kind(), split_children(d, c, names))),
        None => None,
    }
}

/// The cached outcomes of a dataset's configs; `None` where they cannot be listed.
pub open spec fn dataset_outcomes<D: DataAccess>(data: &D, d: Seq<char>) -> Option<Seq<CacheOutcome>> {
    match data.config_names(d) {
        Some(names) => Some(child_outcomes(data, config_valid_kind(), config_children(d, names))),
        None => None,
    }
}

/// What an aggregation over the outcomes yields.
pub open spec fn summary(outs: Seq<CacheOutcome>) -> (ValidationResult, Progress) {
    (merge_outcomes(outs), progress_of(outs))
}

/// What a validation at a level yields, or the error it gives: an
/// invalid-identifier error where a field that the level needs is missing,
/// and the store's own error where the children cannot be listed.
pub open spec fn expected_validation<D: DataAccess>(data: &D, e: EntityView, level: ValidationLevel) -> Result<
    (ValidationResult, Progress),
    ErrorView,
> {
    match level {
        ValidationLevel::Split => if e.config is None {
            Err(ErrorView::InvalidEntityIdentifier { message: "Config required for split validation"@ })
        } else if e.split is None {
            Err(ErrorView::InvalidEntityIdentifier { message: "Split required for split validation"@ })
        } else {
            Ok((split_capabilities(data, e), Progress { resolved: 1, total: 1 }))
        },
        ValidationLevel::Config => match e.config {
            Some(c) => match config_outcomes(data, e.dataset, c) {
                Some(outs) => Ok(summary(outs)),
                None => Err(data.split_names_error(e.dataset, c)),
            },
            None => Err(ErrorView::InvalidEntityIdentifier { message: "Config required for config validation"@ }),
        },
        ValidationLevel::Dataset => match dataset_outcomes(data, e.dataset) {
            Some(outs) => Ok(summary(outs)),
            None => Err(data.config_names_error(e.dataset)),
        },
    }
}

/// A validation's result with its error as plain values.
pub open spec fn result_view(r: Result<(ValidationResult, Progress), ValidationError>) -> Result<
    (ValidationResult, Progress),
    ErrorView,
> {
    match r {
        Ok(v) => Ok(v),
        Err(e) => Err(e@),
    }
}

pub proof fn lemma_pending_bounded(outs: Seq<CacheOutcome>)
    ensures
        pending_count(outs) <= outs.len(),
    decreases outs.len(),
{
    if outs.len() > 0 {
        lemma_pending_bounded(outs.drop_last());
    }
}

/// The `i`-th outcome is a successful cached response.
pub open spec fn succeeded(outs: Seq<CacheOutcome>, i: int) -> bool {
    0 <= i < outs.len() && outs[i] is Hit && outs[i]->Hit_0.http_status == 200
}

/// A merged flag is set exactly where some successful child has it set, so the
/// aggregate does not depend on the order of the children.
pub proof fn lemma_merge_outcomes_flags(outs: Seq<CacheOutcome>)
    ensures
        merge_outcomes(outs).viewer <==> exists|i: int| succeeded(outs, i) && (#[trigger] outs[i])->Hit_0.content.viewer,
        merge_outcomes(outs).preview <==> exists|i: int| succeeded(outs, i) && (#[trigger] outs[i])->Hit_0.content.preview,
        merge_outcomes(outs).search <==> exists|i: int| succeeded(outs, i) && (#[trigger] outs[i])->Hit_0.content.search,
        merge_outcomes(outs).filter <==> exists|i: int| succeeded(outs, i) && (#[trigger] outs[i])->Hit_0.content.filter,
        merge_outcomes(outs).statistics <==> exists|i: int|
            succeeded(outs, i) && (#[trigger] outs[i])->Hit_0.content.statistics,
    decreases outs.len(),
{
    if outs.len() > 0 {
        let prev = outs.drop_last();
        lemma_merge_outcomes_flags(prev);
        let n = outs.len() - 1;
        assert forall|i: int| 0 <= i < n implies #[trigger] outs[i] == prev[i] by {}
        if merge_outcomes(prev).viewer {
            let i = choose|i: int| succeeded(prev, i) && (#[trigger] prev[i])->Hit_0.content.viewer;
            assert(succeeded(outs, i) && outs[i]->Hit_0.content.viewer);
        }
        if merge_outcomes(prev).preview {
            let i = choose|i: int| succeeded(prev, i) && (#[trigger] prev[i])->Hit_0.content.preview;
            assert(succeeded(outs, i) && outs[i]->Hit_0.content.preview);
        }
        if merge_outcomes(prev).search {
            let i = choose|i: int| succeeded(prev, i) && (#[trigger] prev[i])->Hit_0.content.search;
            assert(succeeded(outs, i) && outs[i]->Hit_0.content.search);
        }
        if merge_outcomes(prev).filter {
            let i = choose|i: int| succeeded(prev, i) && (#[trigger] prev[i])->Hit_0.content.filter;
            assert(succeeded(outs, i) && outs[i]->Hit_0.content.filter);
        }
        if merge_outcomes(prev).statistics {
            let i = choose|i: int| succeeded(prev, i) && (#[trigger] prev[i])->Hit_0.content.statistics;
            assert(succeeded(outs, i) && outs[i]->Hit_0.content.statistics);
        }
        if succeeded(outs, n) {
            assert(outs.last() == outs[n]);
        }
        assert forall|i: int| succeeded(outs, i) && i < n implies succeeded(prev, i) by {}
    }
}

/// Runs the validation algorithms against one store.
pub struct DatasetValidator<D: DataAccess> {
    pub data_access: D,
}

impl<D: DataAccess> DatasetValidator<D> {
    pub fn new(data_access: D) -> (r: Self)
        ensures
            r.data_access == data_access,
    {
        DatasetValidator { data_access }
    }

    /// Validates an entity at a level: a split from the raw checks of the store,
    /// a config or a dataset from the cached results of its children.
    pub fn validate(&self, entity: &EntityIdentifier, level: ValidationLevel) -> (r: Result<(ValidationResult, Progress), ValidationError>)
        ensures
            result_view(r) == expected_validation(&self.data_access, entity@, level),
    {
        match level {
            ValidationLevel::Split => self.validate_split(entity),
            ValidationLevel::Config => self.validate_config(entity),
            ValidationLevel::Dataset => self.validate_dataset(entity),
        }
    }

    /// Merges the cached results of the children under one check and counts
    /// those with no entry yet.
    fn aggregate(&self, kind: &str, children: &Vec<EntityIdentifier>) -> (r: (ValidationResult, Progress))
        ensures
            r.0 == merge_outcomes(child_outcomes(&self.data_access, kind@, entities_view(children@))),
            r.1 == progress_of(child_outcomes(&self.data_access, kind@, entities_view(children@))),
    {
        let ghost outs = child_outcomes(&self.data_access, kind@, entities_view(children@));
        let mut result = ValidationResult::new();
        let mut pending: usize = 0;
        let mut i: usize = 0;
        while i < children.len()
            invariant
                outs == child_outcomes(&self.data_access, kind@, entities_view(children@)),
                outs.len() == children@.len(),
                i <= children.len(),
                result == merge_outcomes(outs.take(i as int)),
                pending == pending_count(outs.take(i as int)),
                pending <= i,
            decreases children.len() - i,
        {
            assert(outs.take(i + 1).drop_last() =~= outs.take(i as int));
            let outcome = self.data_access.get_cached_validation(kind, &children[i]);
            match outcome {
                Ok(resp) => {
                    if resp.is_success() {
                        result.merge(&resp.content);
                    }
                },
                Err(ValidationError::CacheError { .. }) => {
                    pending = pending + 1;
                },
                Err(_) => {},
            }
            i = i + 1;
        }
        assert(outs.take(i as int) =~= outs);
        (result, Progress { resolved: children.len() - pending, total: children.len() })
    }

    /// Validates a split from the raw checks of the store; always fully resolved.
    fn validate_split(&self, entity: &EntityIdentifier) -> (r: Result<(ValidationResult, Progress), ValidationError>)
        ensures
            result_view(r) == expected_validation(&self.data_access, entity@, ValidationLevel::Split),
    {
        let dataset = &entity.dataset;
        let config = match &entity.config {
            Some(c) => c,
            None => {
                return Err(ValidationError::InvalidEntityIdentifier {
                    message: String::from_str("Config required for split validation"),
                });
            },
        };
        if entity.split.is_none() {
            return Err(ValidationError::InvalidEntityIdentifier {
                message: String::from_str("Split required for split validation"),
            });
        }
        let mut result = ValidationResult::new();
        let parent = EntityIdentifier::new_config(dataset.clone(), config.clone());
        result.viewer = match self.data_access.check_successful_response("config-has-viewer", &parent) {
            Ok(b) => b,
            Err(_) => false,
        };
        result.preview = match self.data_access.check_successful_response("split-has-preview", entity) {
            Ok(b) => b,
            Err(_) => false,
        };
        match self.data_access.get_parquet_metadata(dataset.as_str(), config.as_str()) {
            Ok(metadata) => {
                result.filter = true;
                result.search = self.data_access.has_indexable_columns(&metadata.features);
            },
            Err(_) => {
                result.filter = false;
                result.search = false;
            },
        }
        result.statistics = match self.data_access.check_successful_response("split-has-statistics", entity) {
            Ok(b) => b,
            Err(_) => false,
        };
        Ok((result, Progress::complete()))
    }

    /// Merges the cached results of the config's splits; fails where the
    /// splits cannot be listed.
    fn validate_config(&self, entity: &EntityIdentifier) -> (r: Result<(ValidationResult, Progress), ValidationError>)
        ensures
            result_view(r) == expected_validation(&self.data_access, entity@, ValidationLevel::Config),
    {
        let dataset = &entity.dataset;
        let config = match &entity.config {
            Some(c) => c,
            None => {
                return Err(ValidationError::InvalidEntityIdentifier {
                    message: String::from_str("Config required for config validation"),
                });
            },
        };
        let splits = match self.data_access.get_split_names(dataset.as_str(), config.as_str()) {
            Ok(v) => v,
            Err(e) => {
                return Err(e);
            },
        };
        let mut children: Vec<EntityIdentifier> = Vec::new();
        let mut i: usize = 0;
        while i < splits.len()
            invariant
                i <= splits.len(),
                children@.len() == i,
                forall|j: int| 0 <= j < i ==> (#[trigger] children@[j])@ == split_entity(dataset@, config@, splits@[j]@),
            decreases splits.len() - i,
        {
            children.push(EntityIdentifier::new_split(dataset.clone(), config.clone(), splits[i].clone()));
            i = i + 1;
        }
        assert(entities_view(children@) =~= split_children(dataset@, config@, names_view(splits@)));
        Ok(self.aggregate("split-is-valid", &children))
    }

    /// Merges the cached results of the dataset's configs; fails where the
    /// configs cannot be listed.
    fn validate_dataset(&self, entity: &EntityIdentifier) -> (r: Result<(ValidationResult, Progress), ValidationError>)
        ensures
            result_view(r) == expected_validation(&self.data_access, entity@, ValidationLevel::Dataset),
    {
        let dataset = &entity.dataset;
        let configs = match self.data_access.get_config_names(dataset.as_str()) {
            Ok(v) => v,
            Err(e) => {
                return Err(e);
            },
        };
        let mut children: Vec<EntityIdentifier> = Vec::new();
        let mut i: usize = 0;
        while i < configs.len()
            invariant
                i <= configs.len(),
                children@.len() == i,
                forall|j: int| 0 <= j < i ==> (#[trigger] children@[j])@ == config_entity(dataset@, configs@[j]@),
            decreases configs.len() - i,
        {
            children.push(EntityIdentifier::new_config(dataset.clone(), configs[i].clone()));
            i = i + 1;
        }
        assert(entities_view(children@) =~= config_children(dataset@, names_view(configs@)));
        Ok(self.aggregate("config-is-valid", &children))
    }
}

/// Validates one split of a store.
pub fn validate_split<D: DataAccess>(dataset: &str, config: &str, split: &str, data_access: D) -> (r: Result<
    (ValidationResult, Progress),
    ValidationError,
>)
    ensures
        r == Ok::<(ValidationResult, Progress), ValidationError>(
            (split_capabilities(&data_access, split_entity(dataset@, config@, split@)), Progress { resolved: 1, total: 1 }),
        ),
        result_view(r) == expected_validation(&data_access, split_entity(dataset@, config@, split@), ValidationLevel::Split),
{
    let validator = DatasetValidator::new(data_access);
    let entity = EntityIdentifier::new_split(String::from_str(dataset), String::from_str(config), String::from_str(split));
    validator.validate(&entity, ValidationLevel::Split)
}

/// Validates one config of a store from the cached results of its splits.
pub fn validate_config<D: DataAccess>(dataset: &str, config: &str, data_access: D) -> (r: Result<
    (ValidationResult, Progress),
    ValidationError,
>)
    ensures
        result_view(r) == expected_validation(&data_access, config_entity(dataset@, config@), ValidationLevel::Config),
        r is Err ==> r->Err_0@ == data_access.split_names_error(dataset@, config@),
{
    let validator = DatasetValidator::new(data_access);
    let entity = EntityIdentifier::new_config(String::from_str(dataset), String::from_str(config));
    validator.validate(&entity, ValidationLevel::Config)
}

/// Validates one dataset of a store from the cached results of its configs.
pub fn validate_dataset<D: DataAccess>(dataset: &str, data_access: D) -> (r: Result<
    (ValidationResult, Progress),
    ValidationError,
>)
    ensures
        result_view(r) == expected_validation(&data_access, dataset_entity(dataset@), ValidationLevel::Dataset),
        r is Err ==> r->Err_0@ == data_access.config_names_error(dataset@),
{
    let validator = DatasetValidator::new(data_access);
    let entity = EntityIdentifier::new_dataset(String::from_str(dataset));
    validator.validate(&entity, ValidationLevel::Dataset)
}

/// The progress of an aggregation over `n` children of which `p` are pending
/// is `(n - p) / n`, and exactly one when there are no children.
pub proof fn lemma_aggregate_progress(outs: Seq<CacheOutcome>)
    requires
        outs.len() <= usize::MAX,
    ensures
        outs.len() == 0 ==> progress_of(outs).equals_fraction(1, 1),
        outs.len() > 0 ==> progress_of(outs).equals_fraction(
            outs.len() - pending_count(outs),
            outs.len() as int,
        ),
        pending_count(outs) <= outs.len(),
{
    lemma_pending_bounded(outs);
}

/// A config's progress is the share of its splits with a cached entry, and
/// exactly one when it has no splits; the same holds of a dataset's configs.
pub proof fn lemma_level_progress<D: DataAccess>(data: &D, e: EntityView, level: ValidationLevel)
    requires
        level != ValidationLevel::Split,
        expected_validation(data, e, level) is Ok,
        level == ValidationLevel::Config ==> data.split_names(e.dataset, e.config->Some_0)->Some_0.len()
            <= usize::MAX,
        level == ValidationLevel::Dataset ==> data.config_names(e.dataset)->Some_0.len() <= usize::MAX,
    ensures
        ({
            let outs = if level == ValidationLevel::Config {
                config_outcomes(data, e.dataset, e.config->Some_0)->Some_0
            } else {
                dataset_outcomes(data, e.dataset)->Some_0
            };
            let p = expected_validation(data, e, level)->Ok_0.1;
            &&& outs.len() == 0 ==> p.equals_fraction(1, 1)
            &&& outs.len() > 0 ==> p.equals_fraction(outs.len() - pending_count(outs), outs.len() as int)
        }),
{
    let outs = if level == ValidationLevel::Config {
        config_outcomes(data, e.dataset, e.config->Some_0)->Some_0
    } else {
        dataset_outcomes(data, e.dataset)->Some_0
    };
    lemma_aggregate_progress(outs);
}

/// A split's validation is always fully resolved.
pub proof fn lemma_split_progress_complete<D: DataAccess>(data: &D, e: EntityView)
    requires
        e.config is Some,
        e.split is Some,
    ensures
        expected_validation(data, e, ValidationLevel::Split)->Ok_0.1.equals_fraction(1, 1),
{
}

/// A split's viewer flag is its parent config's viewer check, never its own.
pub proof fn lemma_split_viewer_from_parent<D: DataAccess>(data: &D, e: EntityView)
    requires
        e.config is Some,
        e.split is Some,
    ensures
        expected_validation(data, e, ValidationLevel::Split)->Ok_0.0.viewer == (data.response(
            viewer_kind(),
            config_entity(e.dataset, e.config->Some_0),
        ) == Some(true)),
{
}

/// Without a schema for the parent config a split can be neither filtered nor searched.
pub proof fn lemma_split_without_metadata<D: DataAccess>(data: &D, e: EntityView)
    requires
        e.config is Some,
        e.split is Some,
        data.metadata(e.dataset, e.config->Some_0) is None,
    ensures
        !expected_validation(data, e, ValidationLevel::Split)->Ok_0.0.filter,
        !expected_validation(data, e, ValidationLevel::Split)->Ok_0.0.search,
{
}

} // verus!
