//! The single-call generation flow: its round prompt (system and user
//! messages), the staged prompts, and the provider adapter settings.
use vstd::prelude::*;

use crate::fuzz_output_parser::strings_view;
use crate::interfaces::{ContractContext, CoverageContext};
use crate::prompt::{all_gap_lines, opt_text, AssembledPrompt, Message, Role};
use crate::text::{append, chars_of, decimal, decimal_chars, join, join_chars, seqs_of, string_of};

verus! {

/// A fixed passage of prompt text.
pub const LLM_TEXT_1: &'static str = "Stage 1/3: Security Analysis & Logic Design.\n\
     Analyze: Ghost borrowing, Inflation attacks, and rounding errors.\n\
     \n\
     Return this JSON exactly:\n\
     {\n\
       \"vulnerability_analysis\": [\"string\"],\n\
       \"handler_logic_pseudocode\": \"string describing state tracking\",\n\
       \"invariant_mathematical_proofs\": [\"string\"],\n\
       \"critical_invariants\": [\"string\"]\n\
     }";
/// A fixed passage of prompt text.
pub const LLM_TEXT_2: &'static str = "Stage 2/3: Solidity Generation.\n\
\n\
Based on your previous security analysis, generate the full implementation of the Handler and Invariant test suite. Your output MUST be a valid JSON object matching the internal Rust schema exactly.\n\
\n\
STRICT DESIGN RULES:\n\
1. EXTERNAL CALLS ONLY: Handler functions MUST make external calls to the target contract instance (e.g., `vault.deposit{value: msg.value}()`). Do NOT reimplement the target contract's internal logic inside the handler.\n\
2. NO HALLUCINATIONS: Do not call functions or read variables on the target contract that do not explicitly exist in the provided source code.\n\
3. NO REDUNDANCIES: Do not write meaningless logic or checks, like `require(myUint >= 0)` (since uint256 cannot be negative).\n\
\n\
STRICT SCHEMA RULES:\n\
\n\
Case Sensitivity: Use camelCase for all keys (e.g., contractName, setUpBody, invariantTest).\n\
\n\
Structural Integrity: Do not combine code into a single field. Break it down into the arrays and objects specified below.\n\
\n\
IndexMap Logic: The functions and invariants keys must be JSON Objects (key-value maps) where the value is the full function body as a string.\n\
\n\
No for-in loops: Use the actors array pattern in your logic.\n\
\n\
REQUIRED JSON STRUCTURE:\n\
{\n\
    \"bodies\": {\n\
        \"meta\": {\n\
      \"contract\": \"TargetContractName\",\n\
      \"contractPath\": \"path/to/Target.sol\",\n\
      \"solidity\": \"solidity_version_string\",\n\
      \"generatedAt\": \"timestamp\"\n\
        },\n\
        \"handler\": {\n\
      \"contractName\": \"HandlerName\",\n\
      \"outputPath\": \"path/to/Handler.sol\",\n\
      \"imports\": [\"array\", \"of\", \"import\", \"lines\"],\n\
      \"stateVars\": [\"array\", \"of\", \"state\", \"variables\"],\n\
      \"ghostVars\": [\"array\", \"of\", \"ghost\", \"variables\"],\n\
      \"constructorSignature\": \"signature_string\",\n\
      \"constructorBody\": [\"array\", \"of\", \"solidity\", \"lines\"],\n\
            \"functions\": {\n\
        \"functionName\": \"full_solidity_function_string\"\n\
            },\n\
      \"targetSelectors\": \"selector_expression_string\"\n\
        },\n\
        \"invariantTest\": {\n\
      \"contractName\": \"TestName\",\n\
      \"outputPath\": \"path/to/Test.sol\",\n\
      \"imports\": [\"array\", \"of\", \"import\", \"lines\"],\n\
      \"stateVars\": [\"array\", \"of\", \"state\", \"variables\"],\n\
      \"setUpBody\": [\"array\", \"of\", \"setup\", \"lines\"],\n\
            \"invariants\": {\n\
        \"invariantName\": \"full_solidity_function_string\"\n\
            }\n\
        }\n\
    }\n\
}\n\
\n\
Analysis Context:\n\
";
/// A fixed passage of prompt text.
pub const LLM_TEXT_3: &'static str = "Stage 3/3: generate Foundry config only.\n\
         Return this exact JSON shape:\n\
                     {\n\
                         \"foundry_config\": {\n\
             \"depth\": integer,\n\
             \"runs\": integer,\n\
             \"seed\": \"0x...\",\n\
             \"max_test_rejects\": integer,\n\
             \"dictionary_weight\": integer,\n\
                             \"call_sequence_weights\": {\"handlerFunctionName\": float}\n\
                         }\n\
                     }\n\
         \n\
         Guidance:\n\
         - call_sequence_weights keys must match handler function names exactly.\n\
         - Weights should be realistic and sum near 1.0.\n\
         - Choose runs/depth for meaningful state exploration.\n\
         \n\
         Analysis JSON:\n";
/// A fixed passage of prompt text.
pub const LLM_TEXT_4: &'static str = "\n\
         Return JSON only.\n\
         \n\
         If round is 1, return:\n\
                     {\n\
           \"mode\":\"full\",\n\
           \"bodies\": {...},\n\
           \"foundry_config\": {...}\n\
                     }\n\
         \n\
         If round > 1, prefer patch mode:\n\
                     {\n\
           \"mode\":\"patch\",\n\
           \"bodies_updates\":[{\"path\":\"string\",\"value\":any,\"reason\":\"string\"}],\n\
           \"foundry_config_updates\":[{\"path\":\"string\",\"value\":any,\"reason\":\"string\"}]\n\
                     }\n\
         \n\
         Existing bodies:\n";
/// A fixed passage of prompt text.
pub const LLM_TEXT_5: &'static str = "You are a Senior Smart-Contract Security Researcher and Foundry Fuzzing Expert.\n\
         SOURCE_CODE:\n";
/// A fixed passage of prompt text.
pub const LLM_TEXT_6: &'static str = "\n\n\
         STRICT OPERATIONAL RULES:\n\
         1. NO FOR-IN LOOPS: Solidity mappings are not iterable. Use a ghost array `address[] public actors` and push msg.sender to it.\n\
         2. PHYSICAL VS LOGICAL: Always compare internal state (totalAssets) against physical balances (asset.balanceOf(address(this))).\n\
         3. NAMESPACING: Handler contract must be named `Handler` or `[Target]Handler`.\n\
         4. USE INDEXMAP ORDER: Generate JSON keys in the order they should appear in Solidity.\n\
         5. OUTPUT: Return valid JSON only.";

/// The system message of the single-call flow, for a contract's source.
pub open spec fn system_message_text(source_code: Seq<char>) -> Seq<char> {
    LLM_TEXT_5@
        + source_code
        + LLM_TEXT_6@
}

/// The system message: the role, the source code, and the operational rules.
pub fn build_system_message(source_code: &str) -> (r: String)
    ensures
        r@ == system_message_text(source_code@),
{
    let mut out: Vec<char> = Vec::new();
    append(&mut out, &chars_of(LLM_TEXT_5));
    append(&mut out, &chars_of(source_code));
    append(&mut out, &chars_of(LLM_TEXT_6));
    string_of(&out)
}

/// The coverage section of the single-call flow: full coverage, or the gaps.
pub open spec fn coverage_gaps_text(c: CoverageContext) -> Seq<char> {
    if c.gaps@.len() == 0 {
        "COVERAGE: Full coverage achieved."@
    } else {
        join(seq!["COVERAGE GAPS (never executed):"@] + all_gap_lines(c.gaps@), "\n"@)
    }
}

/// The coverage section: `COVERAGE: Full coverage achieved.` without gaps,
/// else each gap with its kind, place and source lines.
pub fn format_coverage(coverage: &CoverageContext) -> (r: String)
    ensures
        r@ == coverage_gaps_text(*coverage),
{
    if coverage.gaps.len() == 0 {
        return string_of(&chars_of("COVERAGE: Full coverage achieved."));
    }
    let mut lines: Vec<Vec<char>> = Vec::new();
    lines.push(chars_of("COVERAGE GAPS (never executed):"));
    let ghost head = seqs_of(lines@);
    assert(head =~= seq!["COVERAGE GAPS (never executed):"@]);
    let mut i: usize = 0;
    while i < coverage.gaps.len()
        invariant
            i <= coverage.gaps@.len(),
            seqs_of(lines@) == head + all_gap_lines(coverage.gaps@.take(i as int)),
        decreases coverage.gaps@.len() - i,
    {
        crate::prompt::push_gap_lines(&coverage.gaps[i], &mut lines);
        proof {
            assert(coverage.gaps@.take(i + 1).drop_last() =~= coverage.gaps@.take(i as int));
            assert(coverage.gaps@.take(i + 1).last() == coverage.gaps@[i as int]);
        }
        i = i + 1;
    }
    assert(coverage.gaps@.take(coverage.gaps@.len() as int) =~= coverage.gaps@);
    string_of(&join_chars(&lines, &chars_of("\n")))
}

/// The sections of the single-call user message.
pub open spec fn user_message_sections(
    round: u32,
    fuzz_output: Option<Seq<char>>,
    coverage: Option<CoverageContext>,
) -> Seq<Seq<char>> {
    let a = seq!["Round: "@ + decimal(round as nat)];
    let b: Seq<Seq<char>> = match fuzz_output {
        Some(o) => seq!["FUZZ OUTPUT:\n"@ + o],
        None => seq![],
    };
    let c: Seq<Seq<char>> = match coverage {
        Some(cov) => seq![coverage_gaps_text(cov)],
        None => seq![],
    };
    a + b + c + seq![crate::prompt::round_instruction(round)]
}

/// The user message: the round, the raw fuzz output, the coverage gaps, and
/// the round's instruction, separated by blank lines.
pub fn build_user_message(
    round: u32,
    fuzz_output: &Option<String>,
    coverage_context: &Option<CoverageContext>,
) -> (r: String)
    ensures
        r@ == join(user_message_sections(round, opt_text(*fuzz_output), *coverage_context), "\n\n"@),
{
    let mut sections: Vec<Vec<char>> = Vec::new();
    let mut first = chars_of("Round: ");
    append(&mut first, &decimal_chars(round as u64));
    sections.push(first);
    match fuzz_output {
        Some(o) => {
            let mut s = chars_of("FUZZ OUTPUT:\n");
            append(&mut s, &chars_of(o.as_str()));
            sections.push(s);
        },
        None => {},
    }
    match coverage_context {
        Some(c) => {
            sections.push(chars_of(format_coverage(c).as_str()));
        },
        None => {},
    }
    if round == 1 {
        sections.push(chars_of("Generate the full handler and invariant test suite for this contract."));
    } else {
        sections.push(
            chars_of(
                "Based on the fuzz output and coverage gaps above, patch or rewrite the invariants and handler as needed.",
            ),
        );
    }
    assert(seqs_of(sections@) =~= user_message_sections(round, opt_text(*fuzz_output), *coverage_context));
    string_of(&join_chars(&sections, &chars_of("\n\n")))
}

/// `fuzz_output` when there is fuzz output, then `coverage` when there is coverage.
pub open spec fn context_sections_of(has_fuzz: bool, has_coverage: bool) -> Seq<Seq<char>> {
    crate::prompt::context_section_names(false, has_fuzz, has_coverage)
}

/// The context sections the prompt carries.
pub fn build_context_sections(
    fuzz_output: &Option<String>,
    coverage_context: &Option<CoverageContext>,
) -> (r: Vec<String>)
    ensures
        strings_view(r@) == context_sections_of(fuzz_output is Some, coverage_context is Some),
{
    let mut sections: Vec<String> = Vec::new();
    if fuzz_output.is_some() {
        sections.push(string_of(&chars_of("fuzz_output")));
    }
    if coverage_context.is_some() {
        sections.push(string_of(&chars_of("coverage")));
    }
    assert(strings_view(sections@) =~= context_sections_of(fuzz_output is Some, coverage_context is Some));
    sections
}

/// The single-call round prompt: system message from the source, user
/// message from the round, fuzz output and coverage.
pub fn assemble_prompt(
    round: u32,
    contract_context: ContractContext,
    fuzz_output: Option<String>,
    coverage_context: Option<CoverageContext>,
) -> (r: Result<AssembledPrompt, crate::response_parser::GenerationError>)
    ensures
        r matches Ok(p) && p.messages@.len() == 2 && p.messages@[0].role == Role::System
            && p.messages@[0].content@ == system_message_text(contract_context.source_code@)
            && p.messages@[1].role == Role::User && p.messages@[1].content@ == join(
            user_message_sections(round, opt_text(fuzz_output), coverage_context),
            "\n\n"@,
        ) && p.round == round && strings_view(p.context_sections@) == context_sections_of(
            fuzz_output is Some,
            coverage_context is Some,
        ),
{
    let system = build_system_message(contract_context.source_code.as_str());
    let user = build_user_message(round, &fuzz_output, &coverage_context);
    let mut messages: Vec<Message> = Vec::new();
    messages.push(Message { role: Role::System, content: system });
    messages.push(Message { role: Role::User, content: user });
    Ok(AssembledPrompt {
        messages,
        round,
        context_sections: build_context_sections(&fuzz_output, &coverage_context),
    })
}

/// The stage-one analysis request of the single-call flow.
pub open spec fn llm_analysis_text() -> Seq<char> {
    LLM_TEXT_1@
}

/// Stage 1: the analysis request (ghost borrowing, inflation, rounding).
pub fn build_round_one_analysis_prompt() -> (r: String)
    ensures
        r@ == llm_analysis_text(),
{
    let mut out: Vec<char> = Vec::new();
    append(&mut out, &chars_of(LLM_TEXT_1));
    string_of(&out)
}

/// The bodies-stage request of the single-call flow.
pub open spec fn llm_bodies_text(analysis_summary: Seq<char>) -> Seq<char> {
    LLM_TEXT_2@
        + analysis_summary
        + "\n"@
}

/// Stage 2: the bodies request with the design and schema rules and the
/// serialised analysis.
pub fn build_round_one_bodies_prompt(analysis_summary: &str) -> (r: String)
    ensures
        r@ == llm_bodies_text(analysis_summary@),
{
    let mut out: Vec<char> = Vec::new();
    append(&mut out, &chars_of(LLM_TEXT_2));
    append(&mut out, &chars_of(analysis_summary));
    append(&mut out, &chars_of("\n"));
    string_of(&out)
}

/// The config-stage request of the single-call flow.
pub open spec fn llm_config_text(analysis_json: Seq<char>, functions_json: Seq<char>) -> Seq<char> {
    LLM_TEXT_3@
        + analysis_json
        + "\n\
         \n\
         Handler function names:\n"@
        + functions_json
}

/// Stage 3: the Foundry config request, with call sequence weights per
/// handler function.
pub fn build_round_one_config_prompt(analysis_json: &str, functions_json: &str) -> (r: String)
    ensures
        r@ == llm_config_text(analysis_json@, functions_json@),
{
    let mut out: Vec<char> = Vec::new();
    append(&mut out, &chars_of(LLM_TEXT_3));
    append(&mut out, &chars_of(analysis_json));
    append(&mut out, &chars_of("\n\
         \n\
         Handler function names:\n"));
    append(&mut out, &chars_of(functions_json));
    string_of(&out)
}

/// The round-N request of the single-call flow.
pub open spec fn llm_round_n_text(
    round: u32,
    existing_bodies_json: Seq<char>,
    existing_config_json: Seq<char>,
) -> Seq<char> {
    "Round: "@
        + decimal(round as nat)
        + LLM_TEXT_4@
        + existing_bodies_json
        + "\n\
         \n\
         Existing foundry config:\n"@
        + existing_config_json
}

/// The round-N request: full or patch mode shapes, and the current bodies and
/// config as JSON.
pub fn build_round_n_prompt(round: u32, existing_bodies_json: &str, existing_config_json: &str) -> (r: String)
    ensures
        r@ == llm_round_n_text(round, existing_bodies_json@, existing_config_json@),
{
    let mut out: Vec<char> = Vec::new();
    append(&mut out, &chars_of("Round: "));
    append(&mut out, &decimal_chars(round as u64));
    append(&mut out, &chars_of(LLM_TEXT_4));
    append(&mut out, &chars_of(existing_bodies_json));
    append(&mut out, &chars_of("\n\
         \n\
         Existing foundry config:\n"));
    append(&mut out, &chars_of(existing_config_json));
    string_of(&out)
}

/// The settings of a provider adapter: the environment variable for its key,
/// the provider, the default model, the key, the message for an empty reply,
/// and the token limit.
pub struct OpenRouterAdapter {
    api_key_env: String,
    provider: String,
    default_model: String,
    api_key: String,
    empty_content_message: String,
    max_tokens: Option<u32>,
}

impl OpenRouterAdapter {
    /// The environment variable for the key.
    pub closed spec fn spec_api_key_env(&self) -> Seq<char> {
        self.api_key_env@
    }

    /// The provider name.
    pub closed spec fn spec_provider(&self) -> Seq<char> {
        self.provider@
    }

    /// The default model.
    pub closed spec fn spec_default_model(&self) -> Seq<char> {
        self.default_model@
    }

    /// The key.
    pub closed spec fn spec_api_key(&self) -> Seq<char> {
        self.api_key@
    }

    /// The error message for an empty reply.
    pub closed spec fn spec_empty_content_message(&self) -> Seq<char> {
        self.empty_content_message@
    }

    /// The token limit.
    pub closed spec fn spec_max_tokens(&self) -> Option<u32> {
        self.max_tokens
    }

    /// An OpenRouter adapter with `api_key`: key variable `OPENROUTER_API_KEY`,
    /// provider `openrouter`, default model `openai/gpt-4o-mini`, no token limit.
    pub fn new(api_key: String) -> (r: Self)
        ensures
            r.spec_api_key_env() == "OPENROUTER_API_KEY"@,
            r.spec_provider() == "openrouter"@,
            r.spec_default_model() == "openai/gpt-4o-mini"@,
            r.spec_api_key() == api_key@,
            r.spec_empty_content_message() == "openrouter adapter returned empty content"@,
            r.spec_max_tokens() is None,
    {
        OpenRouterAdapter {
            api_key_env: string_of(&chars_of("OPENROUTER_API_KEY")),
            provider: string_of(&chars_of("openrouter")),
            default_model: string_of(&chars_of("openai/gpt-4o-mini")),
            api_key,
            empty_content_message: string_of(&chars_of("openrouter adapter returned empty content")),
            max_tokens: None,
        }
    }

    /// The same adapter with another default model.
    pub fn with_default_model(self, model: String) -> (r: Self)
        ensures
            r.spec_default_model() == model@,
            r.spec_api_key_env() == self.spec_api_key_env(),
            r.spec_provider() == self.spec_provider(),
            r.spec_api_key() == self.spec_api_key(),
            r.spec_empty_content_message() == self.spec_empty_content_message(),
            r.spec_max_tokens() == self.spec_max_tokens(),
    {
        OpenRouterAdapter { default_model: model, ..self }
    }

    /// The same adapter with another token limit.
    pub fn with_max_tokens(self, max_tokens: Option<u32>) -> (r: Self)
        ensures
            r.spec_max_tokens() == max_tokens,
            r.spec_default_model() == self.spec_default_model(),
            r.spec_api_key_env() == self.spec_api_key_env(),
            r.spec_provider() == self.spec_provider(),
            r.spec_api_key() == self.spec_api_key(),
            r.spec_empty_content_message() == self.spec_empty_content_message(),
    {
        OpenRouterAdapter { max_tokens, ..self }
    }

    /// The default model.
    pub fn default_model(&self) -> (r: &String)
        ensures
            r@ == self.spec_default_model(),
    {
        &self.default_model
    }

    /// The key.
    pub fn api_key(&self) -> (r: &String)
        ensures
            r@ == self.spec_api_key(),
    {
        &self.api_key
    }

    /// The environment variable for the key.
    pub fn api_key_env(&self) -> (r: &String)
        ensures
            r@ == self.spec_api_key_env(),
    {
        &self.api_key_env
    }

    /// The token limit.
    pub fn max_tokens(&self) -> (r: Option<u32>)
        ensures
            r == self.spec_max_tokens(),
    {
        self.max_tokens
    }
}

} // verus!
