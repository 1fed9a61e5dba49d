use vstd::prelude::*;
use crate::text::{find_str, first_occurrence};
use crate::validator::ValidationError;

verus! {

/// The version of this extractor, recorded in each record.
pub const EXTRACTOR_VERSION: &'static str = "0.1.0";

/// A kind of data extracted from a Cargo project.
#[derive(Debug, Clone, Copy, PartialEq, Eq, Structural, Hash)]
pub enum CargoExtractionPhase {
    /// Project metadata from the manifest.
    ProjectMetadata,
    /// The dependency graph and its constraints.
    DependencyAnalysis,
    /// Source code metrics and structure.
    SourceCodeAnalysis,
    /// Build configuration and scripts.
    BuildAnalysis,
    /// Registry and ecosystem metadata.
    EcosystemAnalysis,
    /// History and development patterns.
    VersionHistory,
}

pub open spec fn cargo_phase_name(p: CargoExtractionPhase) -> Seq<char> {
    match p {
        CargoExtractionPhase::ProjectMetadata => "project_metadata"@,
        CargoExtractionPhase::DependencyAnalysis => "dependency_analysis"@,
        CargoExtractionPhase::SourceCodeAnalysis => "source_code_analysis"@,
        CargoExtractionPhase::BuildAnalysis => "build_analysis"@,
        CargoExtractionPhase::EcosystemAnalysis => "ecosystem_analysis"@,
        CargoExtractionPhase::VersionHistory => "version_history"@,
    }
}

impl CargoExtractionPhase {
    /// The name of the phase as used in dataset names.
    pub fn as_str(&self) -> (r: &'static str)
        ensures
            r@ == cargo_phase_name(*self),
    {
        match self {
            CargoExtractionPhase::ProjectMetadata => "project_metadata",
            CargoExtractionPhase::DependencyAnalysis => "dependency_analysis",
            CargoExtractionPhase::SourceCodeAnalysis => "source_code_analysis",
            CargoExtractionPhase::BuildAnalysis => "build_analysis",
            CargoExtractionPhase::EcosystemAnalysis => "ecosystem_analysis",
            CargoExtractionPhase::VersionHistory => "version_history",
        }
    }
}

/// One dependency of a package.
#[derive(Debug, Clone)]
pub struct DependencyInfo {
    pub name: String,
    pub version_req: String,
    pub resolved_version: Option<String>,
    pub optional: bool,
    pub default_features: bool,
    pub features: Vec<String>,
    pub source: String,
    pub is_dev: bool,
    pub is_build: bool,
}

/// The second space-separated field of a tool's `--version` line
/// (`cargo 1.86.0 (adcd 2025-01-01)` gives `1.86.0`); `None` without a space.
pub open spec fn version_field(s: Seq<char>) -> Option<Seq<char>> {
    match first_occurrence(s, seq![' ']) {
        None => None,
        Some(i) => {
            let rest = s.subrange(i + 1, s.len() as int);
            match first_occurrence(rest, seq![' ']) {
                None => Some(rest),
                Some(j) => Some(rest.subrange(0, j)),
            }
        },
    }
}

/// Reads the version out of a tool's `--version` line.
pub fn version_from_output(output: &str) -> (r: Option<String>)
    ensures
        r is Some <==> version_field(output@) is Some,
        r is Some ==> r->Some_0@ == version_field(output@)->Some_0,
{
    proof {
        reveal_strlit(" ");
        assert(" "@ =~= seq![' ']);
    }
    let n = output.unicode_len();
    match find_str(output, " ") {
        None => None,
        Some(i) => {
            let rest = output.substring_char(i + 1, n);
            match find_str(rest, " ") {
                None => Some(String::from_str(rest)),
                Some(j) => Some(String::from_str(rest.substring_char(0, j))),
            }
        },
    }
}

/// Extracts data about Cargo projects, phase by phase.
pub struct Cargo2HfExtractor {
    extractor_version: String,
    cargo_version: String,
    rust_version: String,
    processing_order: u32,
}

impl Cargo2HfExtractor {
    pub closed spec fn order(&self) -> u32 {
        self.processing_order
    }

    /// The extractor, cargo and rustc versions.
    pub closed spec fn versions(&self) -> (Seq<char>, Seq<char>, Seq<char>) {
        (self.extractor_version@, self.cargo_version@, self.rust_version@)
    }

    /// An extractor for the toolchain whose `cargo --version` and
    /// `rustc --version` lines are given; fails where a line holds no version.
    pub fn new(cargo_version_output: &str, rustc_version_output: &str) -> (r: Result<Cargo2HfExtractor, ValidationError>)
        ensures
            r is Ok <==> (version_field(cargo_version_output@) is Some && version_field(rustc_version_output@) is Some),
            r is Ok ==> r->Ok_0.order() == 0 && r->Ok_0.versions() == (
                EXTRACTOR_VERSION@,
                version_field(cargo_version_output@)->Some_0,
                version_field(rustc_version_output@)->Some_0,
            ),
            r is Err ==> r->Err_0 is ProcessingError,
    {
        let cargo_version = match version_from_output(cargo_version_output) {
            Some(v) => v,
            None => {
                let mut message = String::from_str("Failed to parse cargo version from: ");
                message.append(cargo_version_output);
                return Err(ValidationError::ProcessingError(message));
            },
        };
        let rust_version = match version_from_output(rustc_version_output) {
            Some(v) => v,
            None => {
                let mut message = String::from_str("Failed to parse rustc version from: ");
                message.append(rustc_version_output);
                return Err(ValidationError::ProcessingError(message));
            },
        };
        Ok(Cargo2HfExtractor {
            extractor_version: String::from_str(EXTRACTOR_VERSION),
            cargo_version,
            rust_version,
            processing_order: 0,
        })
    }

    pub fn cargo_version(&self) -> (r: &String)
        ensures
            r@ == self.versions().1,
    {
        &self.cargo_version
    }

    pub fn rust_version(&self) -> (r: &String)
        ensures
            r@ == self.versions().2,
    {
        &self.rust_version
    }

    /// Numbers the next record: one more than the previous number.
    pub fn next_processing_order(&mut self) -> (r: u32)
        requires
            old(self).order() < u32::MAX,
        ensures
            r == old(self).order() + 1,
            final(self).order() == r,
            final(self).versions() == old(self).versions(),
    {
        self.processing_order = self.processing_order + 1;
        self.processing_order
    }
}

} // verus!
