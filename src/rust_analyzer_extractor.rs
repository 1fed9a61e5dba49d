use vstd::prelude::*;
use crate::text::{
    contains_seq, contains_str, find_str, lemma_split_nonempty, same_text, split_seq, text_between, text_between_seq,
    trim_seq, trim_str,
};
use crate::validator::ValidationError;

verus! {

/// A phase of semantic analysis, in roughly the order a language server runs them.
#[derive(Debug, Clone, Copy, PartialEq, Eq, Structural, Hash)]
pub enum ProcessingPhase {
    /// Syntax tree generation and tokenization.
    Parsing,
    /// Symbol binding and scope analysis.
    NameResolution,
    /// Type checking and inference.
    TypeInference,
    /// High-level intermediate representation.
    HirGeneration,
    /// Errors and warnings.
    Diagnostics,
    /// Completion suggestions.
    Completions,
    /// Hover information.
    Hover,
    /// Go-to-definition navigation.
    GotoDefinition,
    /// Finding all references to a symbol.
    FindReferences,
}

/// The name of a phase as used in file names.
pub open spec fn processing_phase_name(p: ProcessingPhase) -> Seq<char> {
    match p {
        ProcessingPhase::Parsing => "parsing"@,
        ProcessingPhase::NameResolution => "name_resolution"@,
        ProcessingPhase::TypeInference => "type_inference"@,
        ProcessingPhase::HirGeneration => "hir_generation"@,
        ProcessingPhase::Diagnostics => "diagnostics"@,
        ProcessingPhase::Completions => "completions"@,
        ProcessingPhase::Hover => "hover"@,
        ProcessingPhase::GotoDefinition => "goto_definition"@,
        ProcessingPhase::FindReferences => "find_references"@,
    }
}

impl ProcessingPhase {
    pub fn as_str(&self) -> (r: &'static str)
        ensures
            r@ == processing_phase_name(*self),
    {
        match self {
            ProcessingPhase::Parsing => "parsing",
            ProcessingPhase::NameResolution => "name_resolution",
            ProcessingPhase::TypeInference => "type_inference",
            ProcessingPhase::HirGeneration => "hir_generation",
            ProcessingPhase::Diagnostics => "diagnostics",
            ProcessingPhase::Completions => "completions",
            ProcessingPhase::Hover => "hover",
            ProcessingPhase::GotoDefinition => "goto_definition",
            ProcessingPhase::FindReferences => "find_references",
        }
    }
}

/// One semantic analysis event on one line of one source file.
#[derive(Debug, Clone)]
pub struct RustAnalyzerRecord {
    /// `file_path:line:phase`.
    pub id: String,
    pub file_path: String,
    /// One-based line number.
    pub line: u32,
    /// One-based column number.
    pub column: u32,
    pub phase: String,
    pub processing_order: u32,
    /// `function`, `struct`, `variable`, `import`, ...
    pub element_type: String,
    pub element_name: Option<String>,
    pub element_signature: Option<String>,
    /// Syntax information, as JSON.
    pub syntax_data: Option<String>,
    /// Symbol information, as JSON.
    pub symbol_data: Option<String>,
    /// Type information, as JSON.
    pub type_data: Option<String>,
    /// Diagnostics, as JSON.
    pub diagnostic_data: Option<String>,
    pub processing_time_ms: u64,
    pub timestamp: u64,
    pub rust_version: String,
    pub analyzer_version: String,
    pub source_snippet: String,
    pub context_before: Option<String>,
    pub context_after: Option<String>,
}

/// What the parsing phase found in one file.
#[derive(Debug, Clone)]
pub struct ParsingPhaseData {
    pub file_path: String,
    pub source_code: String,
    pub syntax_tree_json: String,
    pub tokens: Vec<TokenInfo>,
    pub parse_errors: Vec<ParseErrorInfo>,
    pub parse_time_ms: u64,
}

#[derive(Debug, Clone)]
pub struct TokenInfo {
    pub kind: String,
    pub text: String,
    pub start: u32,
    pub end: u32,
    pub line: u32,
    pub column: u32,
}

#[derive(Debug, Clone)]
pub struct ParseErrorInfo {
    pub message: String,
    pub start: u32,
    pub end: u32,
    pub severity: String,
}

/// What name resolution found in one file.
#[derive(Debug, Clone)]
pub struct NameResolutionPhaseData {
    pub file_path: String,
    pub symbols: Vec<SymbolInfo>,
    pub scopes: Vec<ScopeInfo>,
    pub imports: Vec<ImportInfo>,
    pub unresolved_names: Vec<UnresolvedNameInfo>,
    pub resolution_time_ms: u64,
}

#[derive(Debug, Clone)]
pub struct SymbolInfo {
    pub name: String,
    pub kind: String,
    pub definition_location: LocationInfo,
    pub visibility: String,
    pub signature: Option<String>,
}

#[derive(Debug, Clone)]
pub struct ScopeInfo {
    pub scope_id: String,
    pub parent_scope: Option<String>,
    pub start: u32,
    pub end: u32,
    pub symbols: Vec<String>,
}

#[derive(Debug, Clone)]
pub struct ImportInfo {
    pub path: String,
    pub alias: Option<String>,
    pub location: LocationInfo,
    pub resolved: bool,
}

#[derive(Debug, Clone)]
pub struct UnresolvedNameInfo {
    pub name: String,
    pub location: LocationInfo,
    pub context: String,
}

#[derive(Debug, Clone)]
pub struct LocationInfo {
    pub file_path: String,
    pub line: u32,
    pub column: u32,
    pub start: u32,
    pub end: u32,
}

#[derive(Debug, Clone)]
pub struct TypeErrorInfo {
    pub message: String,
    pub location: LocationInfo,
    pub expected_type: Option<String>,
    pub actual_type: Option<String>,
}

#[derive(Debug, Clone)]
pub struct InferredTypeInfo {
    pub symbol_name: String,
    pub location: LocationInfo,
    pub inferred_type: String,
    pub inference_method: String,
}

/// The kind of element a source line declares or uses, by the first keyword
/// found among `fn`, `struct`, `enum`, `impl`, `let`, `use` (each followed by a space).
pub open spec fn element_type_of(line: Seq<char>) -> Seq<char> {
    if contains_seq(line, "fn "@) {
        "function"@
    } else if contains_seq(line, "struct "@) {
        "struct"@
    } else if contains_seq(line, "enum "@) {
        "enum"@
    } else if contains_seq(line, "impl "@) {
        "impl"@
    } else if contains_seq(line, "let "@) {
        "variable"@
    } else if contains_seq(line, "use "@) {
        "import"@
    } else {
        "other"@
    }
}

/// The name a line declares: a function's name up to its `(`, or a struct's
/// name up to the next space.
pub open spec fn element_name_of(line: Seq<char>) -> Option<Seq<char>> {
    match text_between_seq(line, "fn "@, "("@) {
        Some(name) => Some(name),
        None => text_between_seq(line, "struct "@, " "@),
    }
}

/// The binding of a `let` line: what stands before `=`, or else before `:`
/// (`let mut n = 0;` gives `mut n`).
pub open spec fn variable_name_of(line: Seq<char>) -> Option<Seq<char>> {
    match text_between_seq(line, "let "@, "="@) {
        Some(name) => Some(name),
        None => text_between_seq(line, "let "@, ":"@),
    }
}

/// Extracts semantic analysis records from Rust sources, phase by phase.
pub struct RustAnalyzerExtractor {
    rust_version: String,
    analyzer_version: String,
    processing_order: u32,
}

impl RustAnalyzerExtractor {
    pub closed spec fn order(&self) -> u32 {
        self.processing_order
    }

    pub closed spec fn versions(&self) -> (Seq<char>, Seq<char>) {
        (self.rust_version@, self.analyzer_version@)
    }

    /// A fresh extractor: no record numbered yet.
    pub fn new() -> (r: Result<RustAnalyzerExtractor, ValidationError>)
        ensures
            r is Ok,
            r->Ok_0.order() == 0,
            r->Ok_0.versions() == ("1.86.0"@, "0.3.2000"@),
    {
        let rust_version = match Self::get_rust_version() {
            Ok(v) => v,
            Err(e) => {
                return Err(e);
            },
        };
        let analyzer_version = match Self::get_analyzer_version() {
            Ok(v) => v,
            Err(e) => {
                return Err(e);
            },
        };
        Ok(RustAnalyzerExtractor { rust_version, analyzer_version, processing_order: 0 })
    }

    /// The Rust toolchain version recorded in each record.
    fn get_rust_version() -> (r: Result<String, ValidationError>)
        ensures
            r is Ok && r->Ok_0@ == "1.86.0"@,
    {
        Ok(String::from_str("1.86.0"))
    }

    /// The analyzer version recorded in each record.
    fn get_analyzer_version() -> (r: Result<String, ValidationError>)
        ensures
            r is Ok && r->Ok_0@ == "0.3.2000"@,
    {
        Ok(String::from_str("0.3.2000"))
    }

    pub fn rust_version(&self) -> (r: &String)
        ensures
            r@ == self.versions().0,
    {
        &self.rust_version
    }

    pub fn analyzer_version(&self) -> (r: &String)
        ensures
            r@ == self.versions().1,
    {
        &self.analyzer_version
    }

    /// Numbers the next record: one more than the previous number.
    pub fn next_processing_order(&mut self) -> (r: u32)
        requires
            old(self).order() < u32::MAX,
        ensures
            r == old(self).order() + 1,
            final(self).order() == r,
            final(self).versions() == old(self).versions(),
    {
        self.processing_order = self.processing_order + 1;
        self.processing_order
    }

    /// The name of the function or struct that a line declares.
    pub fn extract_element_name(&self, line: &str) -> (r: Option<String>)
        ensures
            r is Some <==> element_name_of(line@) is Some,
            r is Some ==> r->Some_0@ == element_name_of(line@)->Some_0,
    {
        match text_between(line, "fn ", "(") {
            Some(name) => Some(name),
            None => text_between(line, "struct ", " "),
        }
    }

    /// The binding that a `let` line introduces.
    pub fn extract_variable_name(&self, line: &str) -> (r: Option<String>)
        ensures
            r is Some <==> variable_name_of(line@) is Some,
            r is Some ==> r->Some_0@ == variable_name_of(line@)->Some_0,
    {
        match text_between(line, "let ", "=") {
            Some(name) => Some(name),
            None => text_between(line, "let ", ":"),
        }
    }

    /// Classifies a source line by the first keyword it contains.
    pub fn detect_element_type(&self, line: &str) -> (r: String)
        ensures
            r@ == element_type_of(line@),
    {
        if contains_str(line, "fn ") {
            String::from_str("function")
        } else if contains_str(line, "struct ") {
            String::from_str("struct")
        } else if contains_str(line, "enum ") {
            String::from_str("enum")
        } else if contains_str(line, "impl ") {
            String::from_str("impl")
        } else if contains_str(line, "let ") {
            String::from_str("variable")
        } else if contains_str(line, "use ") {
            String::from_str("import")
        } else {
            String::from_str("other")
        }
    }
}

/// The phase that a name stands for.
pub open spec fn phase_named(n: Seq<char>) -> Option<ProcessingPhase> {
    if n == "parsing"@ {
        Some(ProcessingPhase::Parsing)
    } else if n == "name_resolution"@ {
        Some(ProcessingPhase::NameResolution)
    } else if n == "type_inference"@ {
        Some(ProcessingPhase::TypeInference)
    } else if n == "hir_generation"@ {
        Some(ProcessingPhase::HirGeneration)
    } else if n == "diagnostics"@ {
        Some(ProcessingPhase::Diagnostics)
    } else if n == "completions"@ {
        Some(ProcessingPhase::Completions)
    } else if n == "hover"@ {
        Some(ProcessingPhase::Hover)
    } else if n == "goto_definition"@ {
        Some(ProcessingPhase::GotoDefinition)
    } else if n == "find_references"@ {
        Some(ProcessingPhase::FindReferences)
    } else {
        None
    }
}

/// The phase that a name stands for.
pub fn phase_from_name(n: &str) -> (r: Option<ProcessingPhase>)
    ensures
        r == phase_named(n@),
{
    if same_text(n, "parsing") {
        Some(ProcessingPhase::Parsing)
    } else if same_text(n, "name_resolution") {
        Some(ProcessingPhase::NameResolution)
    } else if same_text(n, "type_inference") {
        Some(ProcessingPhase::TypeInference)
    } else if same_text(n, "hir_generation") {
        Some(ProcessingPhase::HirGeneration)
    } else if same_text(n, "diagnostics") {
        Some(ProcessingPhase::Diagnostics)
    } else if same_text(n, "completions") {
        Some(ProcessingPhase::Completions)
    } else if same_text(n, "hover") {
        Some(ProcessingPhase::Hover)
    } else if same_text(n, "goto_definition") {
        Some(ProcessingPhase::GotoDefinition)
    } else if same_text(n, "find_references") {
        Some(ProcessingPhase::FindReferences)
    } else {
        None
    }
}

/// Reading a phase's name gives the phase back.
pub proof fn lemma_phase_name_round_trip(p: ProcessingPhase)
    ensures
        phase_named(processing_phase_name(p)) == Some(p),
{
    reveal_strlit("parsing");
    reveal_strlit("name_resolution");
    reveal_strlit("type_inference");
    reveal_strlit("hir_generation");
    reveal_strlit("diagnostics");
    reveal_strlit("completions");
    reveal_strlit("hover");
    reveal_strlit("goto_definition");
    reveal_strlit("find_references");
    assert("parsing"@.len() == 7 && "parsing"@[0] == 'p');
    assert("name_resolution"@.len() == 15 && "name_resolution"@[0] == 'n');
    assert("type_inference"@.len() == 14 && "type_inference"@[0] == 't');
    assert("hir_generation"@.len() == 14 && "hir_generation"@[0] == 'h');
    assert("diagnostics"@.len() == 11 && "diagnostics"@[0] == 'd');
    assert("completions"@.len() == 11 && "completions"@[0] == 'c');
    assert("hover"@.len() == 5 && "hover"@[0] == 'h');
    assert("goto_definition"@.len() == 15 && "goto_definition"@[0] == 'g');
    assert("find_references"@.len() == 15 && "find_references"@[0] == 'f');
}

/// Each comma-separated piece, trimmed, names a phase.
pub open spec fn all_phases_named(fields: Seq<Seq<char>>) -> bool {
    forall|k: int| 0 <= k < fields.len() ==> (#[trigger] phase_named(trim_seq(fields[k]))) is Some
}

pub open spec fn phases_of(fields: Seq<Seq<char>>) -> Seq<ProcessingPhase> {
    fields.map_values(|f: Seq<char>| phase_named(trim_seq(f))->Some_0)
}

/// Reads a comma-separated list of phase names (`parsing, hover`); fails on
/// the first piece that names no phase.
pub fn parse_phases_string(phases_str: &str) -> (r: Result<Vec<ProcessingPhase>, ValidationError>)
    ensures
        r is Ok <==> all_phases_named(split_seq(phases_str@, ',')),
        r is Ok ==> r->Ok_0@ == phases_of(split_seq(phases_str@, ',')),
        r is Ok ==> r->Ok_0@.len() > 0,
        r is Err ==> r->Err_0 is InvalidInput,
{
    proof {
        reveal_strlit(",");
        assert(","@ =~= seq![',']);
        lemma_split_nonempty(phases_str@, ',');
    }
    let ghost fields = split_seq(phases_str@, ',');
    let ghost mut done: Seq<Seq<char>> = Seq::empty();
    let mut phases: Vec<ProcessingPhase> = Vec::new();
    let mut rest: &str = phases_str;
    loop
        invariant
            ","@ == seq![','],
            fields == split_seq(phases_str@, ','),
            fields == done + split_seq(rest@, ','),
            all_phases_named(done),
            phases@ == phases_of(done),
        decreases rest@.len(),
    {
        let n = rest.unicode_len();
        let (piece, next) = match find_str(rest, ",") {
            Some(i) => (rest.substring_char(0, i), Some(rest.substring_char(i + 1, n))),
            None => (rest, None),
        };
        proof {
            assert(split_seq(rest@, ',')[0] == piece@);
        }
        let name = trim_str(piece);
        match phase_from_name(name.as_str()) {
            Some(phase) => {
                phases.push(phase);
                proof {
                    let old_done = done;
                    done = done.push(piece@);
                    assert(phases@ =~= phases_of(done));
                    assert forall|k: int| 0 <= k < done.len() implies (#[trigger] phase_named(
                        trim_seq(done[k]),
                    )) is Some by {
                        if k < old_done.len() {
                            assert(done[k] == old_done[k]);
                        }
                    }
                }
                match next {
                    Some(after) => {
                        proof {
                            assert(split_seq(rest@, ',') =~= seq![piece@] + split_seq(after@, ','));
                            assert(fields =~= done + split_seq(after@, ','));
                        }
                        rest = after;
                    },
                    None => {
                        proof {
                            assert(fields =~= done);
                        }
                        return Ok(phases);
                    },
                }
            },
            None => {
                proof {
                    assert(fields[done.len() as int] == piece@);
                }
                let mut message = String::from_str("Unknown phase: ");
                message.append(name.as_str());
                return Err(ValidationError::InvalidInput(message));
            },
        }
    }
}

} // verus!
