use vstd::prelude::*;
use crate::text::{escape_colons, has_colon_str, join4, lemma_join4_injective};

verus! {

/// One of the five capabilities that a dataset entity may offer.
#[derive(Debug, Clone, Copy, PartialEq, Eq, Structural, Hash)]
pub enum ValidationCapability {
    Viewer,
    Preview,
    Search,
    Filter,
    Statistics,
}

/// Five independent capability flags.
#[derive(Debug, Clone, Copy, PartialEq, Eq, Structural)]
pub struct ValidationResult {
    pub viewer: bool,
    pub preview: bool,
    pub search: bool,
    pub filter: bool,
    pub statistics: bool,
}

/// The result with no capability proven.
pub open spec fn no_capability() -> ValidationResult {
    ValidationResult { viewer: false, preview: false, search: false, filter: false, statistics: false }
}

/// Flag-wise disjunction of two results.
pub open spec fn union(a: ValidationResult, b: ValidationResult) -> ValidationResult {
    ValidationResult {
        viewer: a.viewer || b.viewer,
        preview: a.preview || b.preview,
        search: a.search || b.search,
        filter: a.filter || b.filter,
        statistics: a.statistics || b.statistics,
    }
}

pub open spec fn flag_count(b: bool) -> nat {
    if b { 1 } else { 0 }
}

impl ValidationResult {
    /// Number of capabilities set.
    pub open spec fn count(self) -> nat {
        flag_count(self.viewer) + flag_count(self.preview) + flag_count(self.search)
            + flag_count(self.filter) + flag_count(self.statistics)
    }

    pub fn new() -> (r: ValidationResult)
        ensures
            r == no_capability(),
    {
        ValidationResult { viewer: false, preview: false, search: false, filter: false, statistics: false }
    }

    pub fn merge(&mut self, other: &ValidationResult)
        ensures
            *final(self) == union(*old(self), *other),
    {
        self.viewer = self.viewer || other.viewer;
        self.preview = self.preview || other.preview;
        self.search = self.search || other.search;
        self.filter = self.filter || other.filter;
        self.statistics = self.statistics || other.statistics;
    }

    pub fn capability_count(&self) -> (r: usize)
        ensures
            r == self.count(),
            r <= 5,
    {
        let mut n: usize = 0;
        if self.viewer { n = n + 1; }
        if self.preview { n = n + 1; }
        if self.search { n = n + 1; }
        if self.filter { n = n + 1; }
        if self.statistics { n = n + 1; }
        n
    }

    pub fn has_any_capability(&self) -> (r: bool)
        ensures
            r == (self.count() > 0),
    {
        self.viewer || self.preview || self.search || self.filter || self.statistics
    }
}

impl Default for ValidationResult {
    fn default() -> (r: ValidationResult)
        ensures
            r == no_capability(),
    {
        ValidationResult::new()
    }
}

/// Merging is associative, commutative and idempotent.
pub proof fn lemma_merge_laws(a: ValidationResult, b: ValidationResult, c: ValidationResult)
    ensures
        union(union(a, b), c) == union(a, union(b, c)),
        union(a, b) == union(b, a),
        union(a, a) == a,
{
}

/// How specific an entity is: a split is finer than a config, which is finer than a dataset.
#[derive(Debug, Clone, Copy, PartialEq, Eq, Structural)]
pub enum ValidationLevel {
    Split,
    Config,
    Dataset,
}

/// Names a dataset, a config within a dataset, or a split within a config.
#[derive(Debug, Clone, PartialEq, Eq, Hash)]
pub struct EntityIdentifier {
    pub dataset: String,
    pub config: Option<String>,
    pub split: Option<String>,
}

/// What an identifier names, as character sequences.
pub struct EntityView {
    pub dataset: Seq<char>,
    pub config: Option<Seq<char>>,
    pub split: Option<Seq<char>>,
}

pub open spec fn opt_view(o: Option<String>) -> Option<Seq<char>> {
    match o {
        Some(s) => Some(s@),
        None => None,
    }
}

pub open spec fn or_empty(o: Option<Seq<char>>) -> Seq<char> {
    match o {
        Some(s) => s,
        None => Seq::empty(),
    }
}

impl View for EntityIdentifier {
    type V = EntityView;

    open spec fn view(&self) -> EntityView {
        EntityView { dataset: self.dataset@, config: opt_view(self.config), split: opt_view(self.split) }
    }
}

pub open spec fn dataset_entity(d: Seq<char>) -> EntityView {
    EntityView { dataset: d, config: None, split: None }
}

pub open spec fn config_entity(d: Seq<char>, c: Seq<char>) -> EntityView {
    EntityView { dataset: d, config: Some(c), split: None }
}

pub open spec fn split_entity(d: Seq<char>, c: Seq<char>, s: Seq<char>) -> EntityView {
    EntityView { dataset: d, config: Some(c), split: Some(s) }
}

/// The level that the shape of an identifier implies.
pub open spec fn level_of(e: EntityView) -> ValidationLevel {
    match (e.config, e.split) {
        (Some(_), Some(_)) => ValidationLevel::Split,
        (Some(_), None) => ValidationLevel::Config,
        (None, _) => ValidationLevel::Dataset,
    }
}

/// `kind:dataset:config:split`, an absent field written as nothing. Where a
/// field holds a `:`, each `:` and `\\` within every field is preceded by a `\\`.
pub open spec fn key_of(kind: Seq<char>, e: EntityView) -> Seq<char> {
    join4(kind, e.dataset, or_empty(e.config), or_empty(e.split))
}

/// The present fields joined by `/`.
pub open spec fn display_of(e: EntityView) -> Seq<char> {
    match (e.config, e.split) {
        (Some(c), Some(s)) => e.dataset + seq!['/'] + c + seq!['/'] + s,
        (Some(c), None) => e.dataset + seq!['/'] + c,
        _ => e.dataset,
    }
}

/// The contents of an optional field, or nothing.
fn field_text(o: &Option<String>) -> (r: &str)
    ensures
        r@ == or_empty(opt_view(*o)),
{
    match o {
        Some(v) => v.as_str(),
        None => {
            proof {
                reveal_strlit("");
            }
            ""
        },
    }
}

/// Appends `text`, in escape form where `escape` holds.
fn push_field(buf: &mut String, text: &str, escape: bool)
    ensures
        final(buf)@ == old(buf)@ + if escape { crate::text::escape_seq(text@) } else { text@ },
{
    if escape {
        let e = escape_colons(text);
        buf.append(e.as_str());
    } else {
        buf.append(text);
    }
}

impl EntityIdentifier {
    pub fn new_dataset(dataset: String) -> (r: EntityIdentifier)
        ensures
            r@ == dataset_entity(dataset@),
    {
        EntityIdentifier { dataset, config: None, split: None }
    }

    pub fn new_config(dataset: String, config: String) -> (r: EntityIdentifier)
        ensures
            r@ == config_entity(dataset@, config@),
    {
        EntityIdentifier { dataset, config: Some(config), split: None }
    }

    pub fn new_split(dataset: String, config: String, split: String) -> (r: EntityIdentifier)
        ensures
            r@ == split_entity(dataset@, config@, split@),
    {
        EntityIdentifier { dataset, config: Some(config), split: Some(split) }
    }

    /// A split without a config is treated as naming the dataset.
    pub fn infer_level(&self) -> (r: ValidationLevel)
        ensures
            r == level_of(self@),
    {
        match (&self.config, &self.split) {
            (Some(_), Some(_)) => ValidationLevel::Split,
            (Some(_), None) => ValidationLevel::Config,
            (None, None) => ValidationLevel::Dataset,
            (None, Some(_)) => ValidationLevel::Dataset,
        }
    }

    pub fn cache_key(&self, kind: &str) -> (r: String)
        ensures
            r@ == key_of(kind@, self@),
    {
        let dataset = self.dataset.as_str();
        let config = field_text(&self.config);
        let split = field_text(&self.split);
        let escape = has_colon_str(kind) || has_colon_str(dataset) || has_colon_str(config) || has_colon_str(split);
        let mut key = String::new();
        push_field(&mut key, kind, escape);
        key.append(":");
        push_field(&mut key, dataset, escape);
        key.append(":");
        push_field(&mut key, config, escape);
        key.append(":");
        push_field(&mut key, split, escape);
        proof {
            reveal_strlit(":");
            assert(key@ =~= key_of(kind@, self@));
        }
        key
    }

    /// Human-readable form, for logs: the present fields joined by `/`.
    pub fn to_string(&self) -> (r: String)
        ensures
            r@ == display_of(self@),
    {
        let mut out = self.dataset.clone();
        match (&self.config, &self.split) {
            (Some(c), Some(s)) => {
                out.append("/");
                out.append(c.as_str());
                out.append("/");
                out.append(s.as_str());
            },
            (Some(c), None) => {
                out.append("/");
                out.append(c.as_str());
            },
            _ => {},
        }
        proof {
            reveal_strlit("/");
            assert(out@ =~= display_of(self@));
        }
        out
    }
}

/// Two cache keys are equal only for the same check on the same fields, an
/// absent field counting as an empty one, whatever characters the fields hold.
pub proof fn lemma_cache_key_injective(k1: Seq<char>, e1: EntityView, k2: Seq<char>, e2: EntityView)
    requires
        key_of(k1, e1) == key_of(k2, e2),
    ensures
        k1 == k2,
        e1.dataset == e2.dataset,
        or_empty(e1.config) == or_empty(e2.config),
        or_empty(e1.split) == or_empty(e2.split),
{
    lemma_join4_injective(
        k1,
        e1.dataset,
        or_empty(e1.config),
        or_empty(e1.split),
        k2,
        e2.dataset,
        or_empty(e2.config),
        or_empty(e2.split),
    );
}

/// Every shape of identifier has exactly one level: split and config present give
/// `Split`, config alone gives `Config`, no config gives `Dataset`.
pub proof fn lemma_level_total(e: EntityView)
    ensures
        (e.config is Some && e.split is Some) <==> level_of(e) == ValidationLevel::Split,
        (e.config is Some && e.split is None) <==> level_of(e) == ValidationLevel::Config,
        e.config is None <==> level_of(e) == ValidationLevel::Dataset,
{
}

/// Share of an entity's children whose validation is resolved: `resolved / total`,
/// and exactly one when there are no children.
#[derive(Debug, Clone, Copy, PartialEq, Eq, Structural)]
pub struct Progress {
    pub resolved: usize,
    pub total: usize,
}

impl Progress {
    /// The progress equals the fraction `n / d`, where `d > 0`.
    pub open spec fn equals_fraction(self, n: int, d: int) -> bool {
        d > 0 && if self.total == 0 {
            n == d
        } else {
            self.resolved * d == n * self.total
        }
    }

    /// The numerator and denominator of the progress, the denominator positive.
    pub open spec fn as_fraction(self) -> (int, int) {
        if self.total == 0 {
            (1, 1)
        } else {
            (self.resolved as int, self.total as int)
        }
    }

    /// Two progress values stand for the same number.
    pub open spec fn same_value_as(self, other: Progress) -> bool {
        self.as_fraction().0 * other.as_fraction().1 == other.as_fraction().0 * self.as_fraction().1
    }

    /// Fully resolved: one out of one.
    pub fn complete() -> (r: Progress)
        ensures
            r == (Progress { resolved: 1, total: 1 }),
            r.equals_fraction(1, 1),
    {
        Progress { resolved: 1, total: 1 }
    }

    /// Whether two progress values stand for the same number (`0/0`, `3/3`
    /// and `1/1` are all one).
    pub fn same_value(&self, other: &Progress) -> (r: bool)
        ensures
            r == self.same_value_as(*other),
    {
        let (n1, d1) = self.fraction();
        let (n2, d2) = other.fraction();
        proof {
            assert(n1 as int * d2 as int <= u128::MAX) by (nonlinear_arith)
                requires
                    0 <= n1 <= u64::MAX,
                    0 <= d2 <= u64::MAX,
            ;
            assert(n2 as int * d1 as int <= u128::MAX) by (nonlinear_arith)
                requires
                    0 <= n2 <= u64::MAX,
                    0 <= d1 <= u64::MAX,
            ;
        }
        (n1 as u128) * (d2 as u128) == (n2 as u128) * (d1 as u128)
    }

    /// The progress as a fraction with a non-zero denominator.
    pub fn fraction(&self) -> (r: (usize, usize))
        ensures
            r == (if self.total == 0 { (1usize, 1usize) } else { (self.resolved, self.total) }),
            r.1 > 0,
            self.equals_fraction(r.0 as int, r.1 as int),
    {
        if self.total == 0 {
            (1, 1)
        } else {
            (self.resolved, self.total)
        }
    }
}

/// A validation outcome recorded earlier for one check on one entity.
#[derive(Debug, Clone, Copy, PartialEq, Eq, Structural)]
pub struct CachedResponse {
    pub http_status: u16,
    pub content: ValidationResult,
    pub progress: Progress,
}

impl CachedResponse {
    pub fn new(status: u16, content: ValidationResult, progress: Progress) -> (r: CachedResponse)
        ensures
            r == (CachedResponse { http_status: status, content, progress }),
    {
        CachedResponse { http_status: status, content, progress }
    }

    pub fn is_success(&self) -> (r: bool)
        ensures
            r == (self.http_status == 200),
    {
        self.http_status == 200
    }
}

/// Schema of the stored data of one config: column names with their types, and
/// the row count where known.
#[derive(Debug, Clone, PartialEq, Eq)]
pub struct ParquetMetadata {
    pub features: Vec<(String, String)>,
    pub num_rows: Option<u64>,
}

/// Column names and types as character sequences.
pub open spec fn features_view(f: Seq<(String, String)>) -> Seq<(Seq<char>, Seq<char>)> {
    f.map_values(|p: (String, String)| (p.0@, p.1@))
}

pub struct MetadataView {
    pub features: Seq<(Seq<char>, Seq<char>)>,
    pub num_rows: Option<u64>,
}

impl View for ParquetMetadata {
    type V = MetadataView;

    open spec fn view(&self) -> MetadataView {
        MetadataView { features: features_view(self.features@), num_rows: self.num_rows }
    }
}

impl ParquetMetadata {
    pub fn new(features: Vec<(String, String)>) -> (r: ParquetMetadata)
        ensures
            r.features == features,
            r.num_rows is None,
    {
        ParquetMetadata { features, num_rows: None }
    }

    pub fn with_rows(self, num_rows: u64) -> (r: ParquetMetadata)
        ensures
            r.features == self.features,
            r.num_rows == Some(num_rows),
    {
        let mut m = self;
        m.num_rows = Some(num_rows);
        m
    }
}

#[derive(Debug, Clone, PartialEq, Eq)]
pub enum ValidationError {
    InvalidEntityIdentifier { message: String },
    DataAccessError { message: String },
    MetadataNotFound { entity: String },
    CacheError { message: String },
    InvalidInput(String),
    ProcessingError(String),
}

/// An error with its texts as character sequences.
pub enum ErrorView {
    InvalidEntityIdentifier { message: Seq<char> },
    DataAccessError { message: Seq<char> },
    MetadataNotFound { entity: Seq<char> },
    CacheError { message: Seq<char> },
    InvalidInput(Seq<char>),
    ProcessingError(Seq<char>),
}

impl View for ValidationError {
    type V = ErrorView;

    open spec fn view(&self) -> ErrorView {
        match self {
            ValidationError::InvalidEntityIdentifier { message } => ErrorView::InvalidEntityIdentifier {
                message: message@,
            },
            ValidationError::DataAccessError { message } => ErrorView::DataAccessError { message: message@ },
            ValidationError::MetadataNotFound { entity } => ErrorView::MetadataNotFound { entity: entity@ },
            ValidationError::CacheError { message } => ErrorView::CacheError { message: message@ },
            ValidationError::InvalidInput(m) => ErrorView::InvalidInput(m@),
            ValidationError::ProcessingError(m) => ErrorView::ProcessingError(m@),
        }
    }
}

impl ValidationError {
    /// The error's message, as it is shown to a user.
    pub fn message(&self) -> (r: String)
        ensures
            r@ == error_text(*self),
    {
        let mut out = String::new();
        match self {
            ValidationError::InvalidEntityIdentifier { message } => {
                out.append("Invalid entity identifier: ");
                out.append(message.as_str());
            },
            ValidationError::DataAccessError { message } => {
                out.append("Data access error: ");
                out.append(message.as_str());
            },
            ValidationError::MetadataNotFound { entity } => {
                out.append("Metadata not found for ");
                out.append(entity.as_str());
            },
            ValidationError::CacheError { message } => {
                out.append("Cache error: ");
                out.append(message.as_str());
            },
            ValidationError::InvalidInput(m) => {
                out.append("Invalid input: ");
                out.append(m.as_str());
            },
            ValidationError::ProcessingError(m) => {
                out.append("Processing error: ");
                out.append(m.as_str());
            },
        }
        out
    }
}

/// The text of an error: a prefix naming its kind, then its detail.
pub open spec fn error_text(e: ValidationError) -> Seq<char> {
    match e {
        ValidationError::InvalidEntityIdentifier { message } => "Invalid entity identifier: "@ + message@,
        ValidationError::DataAccessError { message } => "Data access error: "@ + message@,
        ValidationError::MetadataNotFound { entity } => "Metadata not found for "@ + entity@,
        ValidationError::CacheError { message } => "Cache error: "@ + message@,
        ValidationError::InvalidInput(m) => "Invalid input: "@ + m@,
        ValidationError::ProcessingError(m) => "Processing error: "@ + m@,
    }
}

} // verus!
