//! The data that crosses component boundaries: generated artifacts, reader
//! contexts, per-round signals and session state.
use vstd::prelude::*;

use indexmap::IndexMap;
use std::collections::HashMap;

verus! {

// ---------------------------------------------------------------------------
// Artifacts
// ---------------------------------------------------------------------------

/// The test bodies the model generates for one target contract; every value
/// is Solidity text from which the handler and invariant files are assembled.
pub struct BodiesJson {
    pub meta: BodiesMeta,
    pub handler: HandlerBodies,
    pub invariant_test: InvariantTestBodies,
}

/// What the bodies were generated for.
#[derive(Clone, Debug)]
pub struct BodiesMeta {
    pub contract: String,
    pub contract_path: String,
    pub solidity: String,
    pub generated_at: String,
}

/// The handler contract: declarations, constructor, and the handler functions
/// by name, in insertion order (which keeps selector weights stable).
pub struct HandlerBodies {
    pub contract_name: String,
    /// Relative path from the workspace root, e.g. `test/handlers/VaultHandler.sol`.
    pub output_path: String,
    pub imports: Vec<String>,
    pub state_vars: Vec<String>,
    pub ghost_vars: Vec<String>,
    pub constructor_signature: String,
    pub constructor_body: Vec<String>,
    pub functions: IndexMap<String, String>,
    pub target_selectors: String,
}

/// The invariant test contract: declarations, `setUp` body, and the invariant
/// functions by name, in insertion order.
pub struct InvariantTestBodies {
    pub contract_name: String,
    /// Relative path from the workspace root, e.g. `test/invariants/VaultInvariantTest.sol`.
    pub output_path: String,
    pub imports: Vec<String>,
    pub state_vars: Vec<String>,
    pub set_up_body: Vec<String>,
    pub invariants: IndexMap<String, String>,
}

/// A set of invariants as Solidity, with the file it goes to.
#[derive(Clone, Debug)]
pub struct InvariantSet {
    pub solidity: String,
    pub target_file_path: String,
}

// ---------------------------------------------------------------------------
// Contexts
// ---------------------------------------------------------------------------

/// What the reader extracts from a target contract.
#[derive(Clone, Debug)]
pub struct ContractContext {
    pub functions: Vec<String>,
    pub state_variables: Vec<String>,
    pub modifiers: Vec<String>,
    pub constants: Vec<String>,
    pub contract_name: String,
    /// The full contract source (comments stripped when they are not wanted).
    pub source_code: String,
}

/// A falsified invariant with the calls and exact values that broke it.
pub struct FuzzReportContext {
    pub falsified_invariant: String,
    pub call_sequence: Vec<String>,
    pub exact_values: HashMap<String, String>,
}

/// Where the files of one fuzzing setup live.
#[derive(Clone, Debug)]
pub struct InvariantFiles {
    pub invariant_file_path: String,
    pub foundry_toml_path: String,
    pub lcov_path: String,
    pub fuzz_output_path: String,
}

/// The kind of code that coverage found unexecuted.
#[derive(Clone, Copy, Debug, PartialEq, Eq, Structural)]
pub enum GapType {
    Line,
    Branch,
    Function,
}

/// One piece of code that was never executed, with source lines around it.
#[derive(Clone, Debug)]
pub struct CoverageGap {
    pub file: String,
    pub line: u32,
    pub gap_type: GapType,
    pub source_context: Vec<String>,
}

/// Coverage totals and the gaps left.
#[derive(Clone, Debug)]
pub struct CoverageContext {
    pub gaps: Vec<CoverageGap>,
    pub line_found: u32,
    pub line_hit: u32,
    pub branch_found: u32,
    pub branch_hit: u32,
    pub function_found: u32,
    pub function_hit: u32,
}

/// A bug that an earlier round confirmed: the falsified invariant and the
/// call sequence that broke it.
#[derive(Clone, Debug)]
pub struct BugInfo {
    pub invariant_name: String,
    pub call_sequence: String,
}

// ---------------------------------------------------------------------------
// Signals
// ---------------------------------------------------------------------------

/// What a fuzzing run found.
#[derive(Clone, Copy, Debug, PartialEq, Eq, Structural)]
pub enum FuzzOutcome {
    Bug,
    Pass,
    FullCoverage,
    DevTestFailed,
}

/// The files a fuzzing run produced.
#[derive(Clone, Debug)]
pub struct FuzzPaths {
    pub fuzz_output: String,
    pub lcov: Option<String>,
    pub invariant_file: String,
}

/// The fuzzer's report of one run.
#[derive(Clone, Debug)]
pub struct FuzzReport {
    pub outcome: FuzzOutcome,
    pub paths: FuzzPaths,
}

/// Whether the model produced this round's artifacts.
#[derive(Clone, Copy, Debug, PartialEq, Eq, Structural)]
pub enum LlmStatus {
    Done,
    Failed,
}

/// The generator's answer for a round.
#[derive(Clone, Debug)]
pub struct LlmSignal {
    pub status: LlmStatus,
    pub reason: Option<String>,
}

/// Why a contract's session ended.
#[derive(Clone, Copy, Debug, PartialEq, Eq, Structural)]
pub enum TerminationReason {
    Bug,
    Exhausted,
    FullCoverage,
    DevTestFailed,
}

/// How a contract's session ended, and its files.
#[derive(Clone, Debug)]
pub struct SessionOutcome {
    pub reason: TerminationReason,
    pub paths: FuzzPaths,
}

/// The orchestrator's decision after a round.
#[derive(Clone, Debug)]
pub struct TerminationDecision {
    pub terminate: bool,
    pub reason: Option<TerminationReason>,
    pub paths: Option<FuzzPaths>,
}

// ---------------------------------------------------------------------------
// Session state
// ---------------------------------------------------------------------------

/// Where the report goes.
#[derive(Clone, Copy, Debug, PartialEq, Eq, Structural)]
pub enum OutputFormat {
    Terminal,
    Ci,
}

/// The settings of a session.
#[derive(Clone, Debug)]
pub struct SessionConfig {
    pub llm_url: String,
    pub llm_key: String,
    pub output_format: OutputFormat,
    pub ci_mode: bool,
}

/// The entry point's request to the orchestrator.
#[derive(Clone, Debug)]
pub struct SessionRequest {
    pub target_paths: Vec<String>,
    pub max_rounds: u32,
    pub config: SessionConfig,
    pub output_format: OutputFormat,
    pub ci_mode: bool,
}

/// The round counters of a running session.
#[derive(Clone, Debug)]
pub struct SessionState {
    pub rounds_remaining: u32,
    pub current_round: u32,
    pub config: SessionConfig,
}

/// Receives a session's outcome when it ends.
pub trait ReporterPort {
    fn emit(&self, outcome: SessionOutcome);
}

} // verus!
