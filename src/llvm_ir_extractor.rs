use vstd::prelude::*;
use crate::cargo2hf_extractor::EXTRACTOR_VERSION;
use crate::validator::ValidationError;

verus! {

/// A phase of LLVM IR analysis.
#[derive(Debug, Clone, Copy, PartialEq, Eq, Structural, Hash)]
pub enum LLVMAnalysisPhase {
    /// IR generation from MIR.
    IRGeneration,
    /// Optimization passes.
    OptimizationPasses,
    /// Code generation and target-specific optimization.
    CodeGeneration,
    /// Performance analysis.
    PerformanceAnalysis,
    /// Mapping of Rust types to LLVM types.
    TypeSystemMapping,
    /// Memory layout and allocation.
    MemoryAnalysis,
}

pub open spec fn llvm_phase_name(p: LLVMAnalysisPhase) -> Seq<char> {
    match p {
        LLVMAnalysisPhase::IRGeneration => "ir_generation"@,
        LLVMAnalysisPhase::OptimizationPasses => "optimization_passes"@,
        LLVMAnalysisPhase::CodeGeneration => "code_generation"@,
        LLVMAnalysisPhase::PerformanceAnalysis => "performance_analysis"@,
        LLVMAnalysisPhase::TypeSystemMapping => "type_system_mapping"@,
        LLVMAnalysisPhase::MemoryAnalysis => "memory_analysis"@,
    }
}

impl LLVMAnalysisPhase {
    /// The name of the phase as used in dataset names.
    pub fn as_str(&self) -> (r: &'static str)
        ensures
            r@ == llvm_phase_name(*self),
    {
        match self {
            LLVMAnalysisPhase::IRGeneration => "ir_generation",
            LLVMAnalysisPhase::OptimizationPasses => "optimization_passes",
            LLVMAnalysisPhase::CodeGeneration => "code_generation",
            LLVMAnalysisPhase::PerformanceAnalysis => "performance_analysis",
            LLVMAnalysisPhase::TypeSystemMapping => "type_system_mapping",
            LLVMAnalysisPhase::MemoryAnalysis => "memory_analysis",
        }
    }
}

/// How a Rust type is laid out as an LLVM type.
#[derive(Debug, Clone)]
pub struct TypeMappingInfo {
    pub rust_type: String,
    pub llvm_type: String,
    pub size_bytes: u32,
    pub alignment: u32,
    pub is_zero_sized: bool,
    pub generic_params: Vec<String>,
}

/// Extracts data about the compilation of Rust to LLVM IR, phase by phase.
pub struct LLVMIRExtractor {
    extractor_version: String,
    llvm_version: String,
    rustc_version: String,
    processing_order: u32,
}

impl LLVMIRExtractor {
    pub closed spec fn order(&self) -> u32 {
        self.processing_order
    }

    /// The extractor, LLVM and rustc versions.
    pub closed spec fn versions(&self) -> (Seq<char>, Seq<char>, Seq<char>) {
        (self.extractor_version@, self.llvm_version@, self.rustc_version@)
    }

    /// A fresh extractor: no record numbered yet.
    pub fn new() -> (r: Result<LLVMIRExtractor, ValidationError>)
        ensures
            r is Ok,
            r->Ok_0.order() == 0,
            r->Ok_0.versions() == (EXTRACTOR_VERSION@, "20.0.0"@, "1.86.0"@),
    {
        let llvm_version = match Self::get_llvm_version() {
            Ok(v) => v,
            Err(e) => {
                return Err(e);
            },
        };
        let rustc_version = match Self::get_rustc_version() {
            Ok(v) => v,
            Err(e) => {
                return Err(e);
            },
        };
        Ok(LLVMIRExtractor {
            extractor_version: String::from_str(EXTRACTOR_VERSION),
            llvm_version,
            rustc_version,
            processing_order: 0,
        })
    }

    /// The LLVM version recorded in each record.
    fn get_llvm_version() -> (r: Result<String, ValidationError>)
        ensures
            r is Ok && r->Ok_0@ == "20.0.0"@,
    {
        Ok(String::from_str("20.0.0"))
    }

    /// The rustc version recorded in each record.
    fn get_rustc_version() -> (r: Result<String, ValidationError>)
        ensures
            r is Ok && r->Ok_0@ == "1.86.0"@,
    {
        Ok(String::from_str("1.86.0"))
    }

    pub fn llvm_version(&self) -> (r: &String)
        ensures
            r@ == self.versions().1,
    {
        &self.llvm_version
    }

    pub fn rustc_version(&self) -> (r: &String)
        ensures
            r@ == self.versions().2,
    {
        &self.rustc_version
    }

    /// Numbers the next record: one more than the previous number.
    pub fn next_processing_order(&mut self) -> (r: u32)
        requires
            old(self).order() < u32::MAX,
        ensures
            r == old(self).order() + 1,
            final(self).order() == r,
            final(self).versions() == old(self).versions(),
    {
        self.processing_order = self.processing_order + 1;
        self.processing_order
    }
}

} // verus!
