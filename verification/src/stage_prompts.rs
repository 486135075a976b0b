//! The prompts of the staged generation: the round-one analysis, bodies and
//! config stages, and the round-N patch request.
use vstd::prelude::*;

use crate::fuzz_output_parser::strings_view;
use crate::import_paths::{
    dependency_imports, dir_of, extract_dependency_imports, import_path, to_import_path,
};
use crate::prompt::{AssembledPrompt, Message, Role};
use crate::text::{
    append, chars_of, contains, decimal, decimal_chars, join, join_chars, lemma_contains_in,
    lemma_contains_left, lemma_contains_prefix, lemma_contains_right, lemma_contains_self,
    lemma_join_contains, lemma_occurs, lemma_piece_in_prefix, lines, seqs_of, starts_with,
    string_of,
};

verus! {

/// The analysis request, after its heading and up to the first key of the reply it asks for.
pub const TEXT_1: &'static str = "Analyze the contract for ALL invariant-breaking vulnerability classes:\n\
     - State corruption: unauthorized state transitions, missing access control\n\
     - Arithmetic: overflow, underflow, rounding and truncation errors\n\
     - Asset accounting: balance tracking, share/asset ratio drift, ghost state divergence\n\
     - Access control: privileged functions reachable by unauthorized callers\n\
     - Business logic: properties that must hold across all valid state transitions\n\
     - Reset/clear completeness: For every function named reset*, clear*, delete*, or disable*, \
       list ALL fields in the affected struct or mapping. For each field NOT modified, explicitly \
       state whether the omission is intentional or a bug (e.g. a missing baseFee clear after \
       resetDynamicFee). A field that logically belongs to the same configuration unit but is \
       silently retained after a reset is a Medium/Low severity finding.\n\
     - tx.origin usage: Search the source for any use of tx.origin. If found, list every code \
       path affected. Note that tx.origin-dependent paths CANNOT be tested from view invariant \
       functions — they require vm.prank(actor, actor) in a handler function plus ghost state \
       recording. Flag this explicitly so the generator uses the ghost pattern for those paths.\n\
     \n\
     Discovery objective: find many independent root causes, not many ways to trigger \
     the same defect. Group equivalent exploit paths under one finding when they come \
     from the same code problem. The generator should later use this analysis to create \
     tests for different possible problems, not duplicate invariants for the same problem.\n\
     \n\
     Return this JSON exactly:\n\
     {\n\
       \"";
/// What the analysis reply holds under `vulnerability_analysis`, up to the next key.
pub const SCHEMA_1: &'static str = "\": [\"string — one entry per finding\"],\n\
       \"";
/// What the analysis reply holds under `handler_logic_pseudocode`, up to the next key.
pub const SCHEMA_2: &'static str = "\": \"string describing what state the handler must track\",\n\
       \"";
/// What the analysis reply holds under `invariant_mathematical_proofs`, up to the next key.
pub const SCHEMA_3: &'static str = "\": [\"string — one entry per invariant\"],\n\
       \"";
/// What the analysis reply holds under `critical_invariants`, up to the next key.
pub const SCHEMA_4: &'static str = "\": [\"string\"],\n\
       \"";
/// What the analysis reply holds under `tx_origin_paths`, and the end of the request.
pub const SCHEMA_5: &'static str = "\": [\"string — one entry per code path that reads tx.origin. Each entry must name: (1) the function, (2) what tx.origin gates, (3) the ghost variable name to store the result, (4) the invariant to assert on that ghost. Leave empty array [] if tx.origin is not used.\"]\n\
     }";
/// A fixed passage of prompt text.
pub const TEXT_2: &'static str = "  If the handler or test must interact with a dependency contract (e.g. call approve, \
transfer, or mint on a token), use EXACTLY these pre-resolved import lines — do not invent paths:\n";
/// A fixed passage of prompt text.
pub const TEXT_3: &'static str = "STRICT DESIGN RULES:\n\
1. EXTERNAL CALLS ONLY: Handler functions MUST call the target contract — never reimplement its logic. \
(a) NEVER import or use internal libraries from the target (FullMath, SafeMath, TickMath…); \
(b) NEVER copy formulas from the source; \
(c) Call public view functions like `target.getFee(pool)` and store the result.\n\
2. NO HALLUCINATIONS: Only call functions and read variables that explicitly exist in the provided source.\n\
3. IMPORTS: Use only the pre-resolved import lines listed in REQUIRED IMPORT LINES. Never invent paths or use low-level .call() for a contract whose interface you know.\n\
4. setUp REGISTRATION: In setUpBody call ONLY `targetContract(address(handler))`. Never call any targetSelector variant — it takes a FuzzSelector struct, not a string. Set the targetSelectors JSON field to \"\".\n\
5. HANDLER ACCESS FROM INVARIANTS: The invariant test has NO direct access to handler state variables. Every handler array or mapping must be accessed via a public getter prefixed with `handler.` — e.g. `handler.actorsLength()`, `handler.actors(i)`, `handler.poolsLength()`, `handler.pools(i)`. Never write `pools.length` or `pools[i]` bare in an invariant function — `pools` is not declared in that scope. If you need to iterate a handler array, define a getter in handler.functions first.\n\
6. GHOST STATE — INITIALIZE: Ghost variables MUST be initialized in the constructor to match the contract's deployed state. Uninitialised ghost state produces false positives from the very first invariant check.\n\
7. GHOST STATE — SYNC ON ACTOR REGISTRATION: When registering a new actor, immediately read its current balance/state from the contract and assign the ghost variable. Never assume zero.\n\
8. INVARIANTS MUST HOLD AT T=0: Every invariant must pass immediately after setUp(), before any handler call. Verify logic against the initial deployed state.\n\
9. NO TAUTOLOGICAL INVARIANTS: Only write invariants that can actually fail — `uint256 >= 0` is always true, do not write it.\n\
10. HANDLER IS THE CALLER: All target calls are FROM `address(this)`, not `msg.sender`. Key ghost mappings by `address(this)`. Use `vm.prank(actor)` to simulate users. Every state-changing call must update its ghost variable.\n\
11. PREVENT DUPLICATE ACTORS: Guard addActor with `mapping(address => bool) public ghost_isActor`. At the top: `if (ghost_isActor[actor]) return; ghost_isActor[actor] = true;`. Declare addActor as `public` (not `external`) so handler functions can call it internally.\n\
12. BOUND NEEDS UINT256: `bound(x, min, max)` requires `uint256`. Cast first: `uint8(bound(uint256(myUint8), 0, 255))`. Cap amounts at `type(uint128).max`, never `type(uint256).max`.\n\
13. CAST BEFORE ASSERT: `assertEq`, `assertLe`, `assertGe`, `assertLt`, `assertGt` only have overloads for `uint256`, `int256`, `bool`, and `address` in Solidity 0.7.x. Always cast smaller types first: `assertEq(uint256(myUint24), 0, ...)`. Never call these with `uint24`, `uint128`, `int24`, etc. directly.\n\
14. AVOID STACK-TOO-DEEP (Solidity 0.7.x): Each function body must declare at most 4 local variables. Split complex invariants into multiple small functions — one property each. Never destructure more than 2 tuple values at once.\n\
15. COUNT TUPLE FIELDS EXACTLY: When destructuring a public mapping that returns a struct (e.g. `(a, b, c) = target.myMapping(key)`), count the exact number of fields in the struct definition in the source code and use exactly that many slots. Never guess — an off-by-one causes a compile error.\n\
16. NO CHEAT CODES IN INVARIANTS: Invariant functions are `view` — never call `vm.prank`, `vm.warp`, `vm.roll`, `vm.deal`, or any other cheat code inside them. State setup belongs in handler functions, not invariant checks.\n\
17. MOCK EXTERNAL DEPENDENCIES: If the target constructor takes an address it later calls, write a minimal mock in `handler.helperContracts` — a full `contract MockDep { ... }` string placed before the Handler in the same file. Scan the source for every call the target makes on that dependency and implement only those functions. Deploy in constructorBody: `MockDep mock = new MockDep(); target = new Target(address(mock), ...);`. Never import a mock from a separate file; never cast raw addresses to contract types.\n\
18. ACTORS ARRAY IS THE ONLY SOURCE OF ADDRESSES: Every address the target interacts with MUST be deployed and pushed into `actors` in the constructor. In handler functions pick with `actors[seed % actors.length]`. Never derive addresses via keccak256 or uint160 casts — they are unregistered and every call using them reverts silently.\n\
19. ASCII ONLY IN STRINGS: All Solidity string literals must use only plain ASCII characters (codes 0-127). Never use Unicode dashes, smart quotes, ellipsis, or any non-ASCII glyph. Use plain hyphen (-) or colon (:) instead. One non-ASCII character in a string causes a parse error and wastes a full round.\n\
20. MATCH REQUIRE BOUNDS EXACTLY: For every handler function that calls a target function, read ALL require statements in that target function and enforce the exact same constraints in your bound() calls. Copy the exact constants — if the target has require(_fee <= MAX_BASE_FEE || _fee == ZERO_FEE_INDICATOR), the handler must bound to [0, MAX_BASE_FEE] or explicitly use ZERO_FEE_INDICATOR. A handler that lets values outside the target require range through causes false-positive invariant failures.\n\
21. TX.ORIGIN PATTERN: If the target reads tx.origin anywhere in its source, that path CANNOT be tested from a view invariant function. Follow this pattern exactly — no variations:\n\
    (a) Declare a ghost variable in stateVars to store the result: `uint256 public ghost_feeForDiscountedActor;`\n\
    (b) Write a handler function that: registers the actor as discounted, calls vm.prank(actor, actor) — the TWO-argument form sets BOTH msg.sender AND tx.origin — then calls the target and saves the result to the ghost variable:\n\
        `function handle_getFeeAsDiscountedActor(uint256 actorSeed) external {`\n\
        `    address actor = actors[actorSeed % actors.length];`\n\
        `    target.registerDiscounted(actor, 100000);`\n\
        `    vm.prank(actor, actor);`\n\
        `    ghost_feeForDiscountedActor = target.getFee(pool);`\n\
        `}`\n\
    (c) Write an invariant that reads ONLY the ghost variable — never call the target directly from an invariant when tx.origin matters:\n\
        `function invariant_discountedFeeNeverExceedsFullFee() external view {`\n\
        `    assertLe(uint256(ghost_feeForDiscountedActor), uint256(target.MAX_FEE_CAP()), \"discounted fee exceeds cap\");`\n\
        `}`\n\
    Never call a tx.origin-dependent function directly from inside an invariant — tx.origin will always be the test contract address, the discounted mapping will always return 0, and the bug will never fire.\n\
22. FUZZABLE MOCK STATE: Mock contracts must have mutable state, not hardcoded return values. For every value the mock returns that the target branches on (e.g. currentTick, observationCardinality, lastObsTimestamp), add a public state variable and a setter. Write handler functions (e.g. handle_setMockCurrentTick) that fuzz those values with bounded inputs. A static mock makes entire code branches invisible to the fuzzer.\n\
";
/// A fixed passage of prompt text.
pub const TEXT_4: &'static str = "STRICT DESIGN RULES:\n\
1. EXTERNAL CALLS ONLY: Handler functions MUST make external calls to the target contract \
instance. Do NOT reimplement the target contract's internal logic inside the handler. \
This means: (a) NEVER import or use any internal library from the target's source (e.g. FullMath, SafeMath, TickMath) — call the target's public getter/view functions instead; \
(b) NEVER copy formulas or math from the target's source into the handler; \
(c) If the target has a public view function like `getFee(pool)`, call `target.getFee(pool)` and store the result — do NOT re-derive the fee yourself.\n\
2. NO HALLUCINATIONS: Do not call functions or read variables on the target contract that do \
not explicitly exist in the provided source code.\n\
3. NO REDUNDANCIES: Do not write meaningless checks like `require(myUint >= 0)`.\n\
4. IMPORTS: Use only the import lines listed in REQUIRED IMPORT LINES above. If you need to interact with a dependency (e.g. call approve or transfer on a token), use the pre-resolved import line provided in the dependency imports block — do not invent paths. Never use low-level .call() for a contract whose interface you know.\n\
5. targetSelectors: Always set to empty string \"\". In the invariant test setUp, call `targetContract(address(handler))` — never call `targetSelector(\"\")` or pass a string to targetSelector, it takes a FuzzSelector struct not a string. Never emit any line that contains `targetSelector` or `targetSelectors` inside setUpBody.\n\
6. NO REDEFINING TEST HELPERS: Do not define functions already provided by inheriting Test — never write your own `bound`, `vm`, `makeAddr`, `deal`, or similar.\n\
7. NO RAW BYTECODE: Never embed hex bytecode in setUp. To deploy a contract: use `new ContractName()` if it is imported, `deployCode(\"ContractName.sol:ContractName\")` only for contracts you cannot import.\n\
8. HANDLER ACCESS FROM INVARIANTS: Public array state vars (e.g. `address[] public actors`) do NOT expose a getActors() method. If the invariant test needs to iterate an array, define a helper in handler.functions using the COMPLETE function syntax, e.g.: `\"actorsLength\": \"function actorsLength() external view returns (uint256) { return actors.length; }\"`. Then call `handler.actorsLength()` from the invariant test. Never call a helper that is not defined in handler.functions.\n\
9. ASCII ONLY IN STRINGS: All Solidity string literals must use only plain ASCII characters. Never use Unicode dashes (—, –), smart quotes, or any non-ASCII character. Use plain hyphen (-) or colon (:) instead.\n\
10. NO UNUSED VARIABLES: Never declare a local variable that is not used in the function body — Solidity treats unused variables as compilation errors.\n\
11. BOUND AMOUNTS TO PREVENT OVERFLOW: Always cap amounts at `type(uint128).max` — never `type(uint256).max`.\n\
12. NO DUPLICATE GETTERS: A `public` state variable automatically generates a getter with that exact name. NEVER define a function whose name matches any public state variable — e.g. if `EtherVault public target;` is declared, do NOT write `function target() ...`. This causes a \"Identifier already declared\" compile error.\n\
13. INTERNAL VS EXTERNAL ACCESS: Inside handler functions use `actors[i]` and `actors.length` directly. The getter syntax only works from outside the contract.\n\
14. ASSERT VS REQUIRE: `assert(condition)` takes exactly one argument. To include a message use `require(condition, \"message\")` — never `assert(condition, \"message\")`.\n\
15. NO LOCAL VARIABLE SHADOWING: Never declare a local variable with the same name as a function or state variable in the same contract. For example, if the handler declares `function deposit(...)`, do NOT write `uint256 deposit = ...;` inside any function body — name it `amount`, `depositAmount`, or similar instead. Solidity raises a compile error on shadowing.\n\
16. NO MATH LIBRARY: Never use `Math.min()` or `Math.max()`. Compute inline: `a < b ? a : b`.\n\
17. INITIALIZE GHOST STATE: If the contract is deployed with an initial supply or state, ghost variables MUST be initialized to match in the constructor. Uninitialised ghost state causes false positives from the first invariant check.\n\
18. SYNC GHOST STATE ON ACTOR REGISTRATION: When an addActor (or equivalent) function registers a new actor, immediately read that actor's current balance/state from the contract and assign it to the ghost variable. Never assume a newly registered actor has zero balance — they may already hold tokens.\n\
19. INVARIANTS MUST HOLD AT T=0: Every invariant must be true immediately after setUp() completes, before any handler calls. If an invariant can fail on the initial state it is a false positive, not a real bug. Verify your invariant logic against the deployed initial state.\n\
20. NO TAUTOLOGICAL INVARIANTS: Never write invariants that are always true by type. `uint256 >= 0` is always true — do not write it. Only write invariants that can actually fail.\n\
21. HANDLER IS THE CALLER: Inside handler functions, ALL calls to the target contract are made FROM `address(this)`, NOT from `msg.sender`. Therefore: (a) ghost mappings must be keyed by `address(this)` not `msg.sender`; (b) use `vm.prank(someAddress)` before the contract call to simulate a specific user; (c) every state-changing call MUST update its corresponding ghost variable.\n\
22. ACCESS CONSTANTS VIA INSTANCE NOT TYPE: Never write `ContractName.CONSTANT_NAME` or `ContractName.CONSTANT_NAME()` — Solidity does not allow accessing public constants or getters via the contract type name. Always access them via an instance variable, e.g. `target.CONSTANT_NAME()`.\n\
23. STRUCT ACCESS FROM EXTERNAL CONTRACTS: When a target contract defines a struct INSIDE its body (e.g. `contract C { struct S {...} }`), reference it from the handler as `ContractName.StructName` — NEVER as bare `StructName`. Example: `VestingWallet.Schedule memory s = target.schedules(key);` — NOT `Schedule memory s = target.schedules(key);`. If assigning to the struct fails, fall back to tuple destructuring: `(uint256 a, uint256 b, ) = target.schedules(key);`. Do NOT call `.fieldName` directly on the getter return without assigning to a variable first.\n\
24. PREVENT DUPLICATE ACTORS: In addActor (or any actor-registration function), guard against re-registration. Declare `mapping(address => bool) public ghost_isActor;` in stateVars. At the top of addActor: `if (ghost_isActor[actor]) return; ghost_isActor[actor] = true;`. Duplicate actors cause invariants that sum over the array to double-count balances, producing false positives.\n\
25. addActor MUST BE PUBLIC: Declare `addActor` as `public`, not `external`. If other handler functions call `addActor` internally (e.g. inside `transfer` to auto-register participants), `external` will cause a compile error. Always use `public`.\n\
26. BOUND NEEDS UINT256: `bound(x, min, max)` requires `x` to be `uint256`. Never pass `address` or `msg.sender` directly — cast first: `bound(uint256(uint160(msg.sender)), 0, max)`.\n\
27. AVOID STACK-TOO-DEEP (Solidity 0.7.x): Each function body must declare at most 4 local variables. Split complex invariants into multiple small functions — one property each. Never destructure more than 2 tuple values at once.\n\
28. MOCK EXTERNAL DEPENDENCIES: If the target constructor accepts an address it later calls functions on, write a minimal mock using `handler.helperContracts`. Steps: (1) scan the source for every call the target makes on that dependency (e.g. `factory.swapFeeManager()`, `factory.isPool(pool)`); (2) write the full `contract MockDep { ... }` definition as a single string in `handler.helperContracts` — it is placed before the Handler in the same file, so no import is needed and no separate .sol file should be created; (3) add `MockDep public mock;` to stateVars; (4) in constructorBody: `mock = new MockDep(); target = new TargetContract(address(mock), ...);`. NEVER import a mock from a separate file. NEVER cast a raw address like `address(0x123)`, `address(this)`, or `address(handler)` to a contract type — those addresses hold no code and every call silently reverts.\n\
29. ACTORS ARRAY IS THE ONLY SOURCE OF ADDRESSES: Any address the target contract will interact with (pools, users, tokens) MUST be deployed or registered in the constructor and immediately pushed into `actors`. In handler functions, always select addresses using `actors[seed % actors.length]` — NEVER generate addresses with `keccak256`, `address(uint160(...))`, or any other derivation. An address not in `actors` was never registered with mock dependencies and every target call using it will revert silently, making the entire fuzz run useless.\n\
";
/// The rule on patching constructor bodies, after its number and heading.
pub const CONSTRUCTOR_RULE: &'static str = " REQUIRES PATCHING STATEVARS: When a patch round adds or changes any variable assignment in constructorBody (e.g. `swapFeeManager = address(this)`, `mockFactory = new MockFactory()`), you MUST also add the corresponding state variable declaration to stateVars in the same patch. Every variable ASSIGNED in constructorBody that is not DECLARED in stateVars causes an \"Undeclared identifier\" compile error that wastes the entire round. Rule: for every new name on the left-hand side of an assignment in constructorBody, there must be a matching `type public name;` line in stateVars.\n\
";
/// A fixed passage of prompt text.
pub const TEXT_5: &'static str = "Stage 2/3: Solidity Generation.\n\
\n\
Based on your previous security analysis, generate the full implementation of the Handler and \
Invariant test suite. Your output MUST be a valid JSON object matching the schema exactly.\n\
\n\
FILE LAYOUT (fixed — do not invent other paths):\n\
  Handler:        ";
/// A fixed passage of prompt text.
pub const TEXT_6: &'static str = ".sol\n\
  Both files are in the same directory. Use relative imports between them.\n\
\n\
CONTRACT NAMES (use exactly these — do not vary capitalisation or suffixes):\n\
  handler.contractName:      \"";
/// A fixed passage of prompt text.
pub const TEXT_7: &'static str = "\
\n\
STRICT SCHEMA RULES:\n\
- Use camelCase for all keys.\n\
- Do not combine code into a single field — use the arrays and objects specified below.\n\
- functions and invariants are JSON objects where the value is the COMPLETE function definition as a string — it MUST start with the `function` keyword (include signature, visibility, body). Never put a bare statement or just a return value as the value.\n\
- Do not include outputPath — paths are managed by the tool, not the LLM.\n\
\n\
REQUIRED JSON STRUCTURE:\n\
{\n\
    \"bodies\": {\n\
        \"meta\": {\n\
            \"contract\": \"";
/// A fixed passage of prompt text.
pub const TEXT_8: &'static str = "\",\n\
            \"generatedAt\": \"timestamp\"\n\
        },\n\
        // NOTE: meta.solidity is set automatically from the source file — do not include it.\n\
        \"handler\": {\n\
            \"contractName\": \"";
/// A fixed passage of prompt text.
pub const TEXT_9: &'static str = "\",\n\
            \"imports\": [\"array of import lines\"],\n\
            \"helperContracts\": [\"optional — full contract definitions for mocks/helpers placed before the Handler in the same file; omit or leave empty if not needed\"],\n\
            \"stateVars\": [\"ALL state variable declarations including ghost vars, each a full Solidity line ending with ;\"],\n\
            \"ghostVars\": [\"names only of the ghost variables already declared in stateVars, e.g. ghost_balance\"],\n\
            \"constructorSignature\": \"signature_string\",\n\
            \"constructorBody\": [\"array of solidity lines\"],\n\
            \"functions\": {\n\
                \"functionName\": \"full_solidity_function_string\"\n\
            },\n\
            \"targetSelectors\": \"\"\n\
        },\n\
        \"invariantTest\": {\n\
            \"contractName\": \"";
/// A fixed passage of prompt text.
pub const TEXT_10: &'static str = "\",\n\
            \"imports\": [\"array of import lines\"],\n\
            \"stateVars\": [\"array of state variables\"],\n\
            \"setUpBody\": [\"array of setup lines\"],\n\
            \"invariants\": {\n\
                \"invariantName\": \"full_solidity_function_string\"\n\
            }\n\
        }\n\
    }\n\
}\n\
\n\
Analysis Context:\n\
";
/// A fixed passage of prompt text.
pub const TEXT_11: &'static str = "Stage 3/3: generate Foundry config only.\n\
         Return this exact JSON shape:\n\
         {\n\
             \"foundry_config\": {\n\
                 \"depth\": integer,\n\
                 \"runs\": integer,\n\
                 \"seed\": \"0x...\",\n\
                 \"max_test_rejects\": integer,\n\
                 \"dictionary_weight\": integer\n\
             }\n\
         }\n\
         \n\
         Guidance:\n\
         - runs: 256–1000 (start conservative; the tool scales up across rounds).\n\
         - depth: 50–500.\n\
         - seed must be a hex string like \"0xdeadbeef\".\n\
         \n\
         Analysis JSON:\n";
/// A fixed passage of prompt text.
pub const TEXT_12: &'static str = "SOLIDITY CONSTRAINTS (must hold after every patch):\n\
             - ALL state variable declarations (including ghost vars) must be in handler.stateVars as full Solidity lines ending with semicolons. handler.ghostVars holds only the variable NAMES (no types, no semicolons) of variables already declared in stateVars.\n\
             - contract ";
/// A fixed passage of prompt text.
pub const TEXT_13: &'static str = " is Test  — do not change this declaration or remove Test inheritance.\n\
             - contract ";
/// The line of the patch constraints that keeps both contracts inheriting `Test`, after the test contract's name.
pub const CONSTRAINT_INHERIT: &'static str = " is Test  — do not change this declaration or remove Test inheritance.\n";
/// The patch constraint against redefining what `Test` provides.
pub const RULE_REDEFINE: &'static str = "- Never redefine functions provided by Test (bound, vm, makeAddr, deal).\n";
/// The rest of the patch constraint against raw bytecode, after its opening words.
pub const RULE_BYTECODE_TAIL: &'static str = " — use deployCode(\"Name.sol:Name\") for dependencies.\n";
/// The patch constraint on iterating actors in an invariant.
pub const RULE_ITERATE: &'static str = "- To iterate actors in an invariant, use handler.actorsLength() and handler.actors(i) — never call handler.getActors().\n";
/// The patch constraint on ASCII string literals.
pub const RULE_ASCII: &'static str = "- ASCII ONLY IN STRINGS: All string literals must use only plain ASCII. No Unicode dashes or smart quotes.\n";
/// The patch constraint on getters of public arrays.
pub const RULE_ARRAY_GETTERS: &'static str = "- PUBLIC ARRAY GETTERS: A `public` array already generates a getter automatically. Never write a separate function with the same name.\n";
/// The patch constraint on import paths.
pub const RULE_IMPORT_PATHS: &'static str = "- IMPORT PATHS: Import dependencies from their own source file — never re-export them from the target contract file.\n";
/// The patch constraint on the handler as the caller.
pub const RULE_CALLER: &'static str = "- HANDLER IS THE CALLER: Ghost mappings must be keyed by address(this) not msg.sender. Every state-changing call must update its ghost variable.\n";
/// The rest of the patch constraint on `assert` and `require`, after its heading.
pub const RULE_ASSERT_TAIL: &'static str = ": assert(condition) takes one argument only. Use require(condition, \"msg\") for messages.\n";
/// The patch constraint on mocking external dependencies.
pub const RULE_MOCK: &'static str = "- MOCK EXTERNAL DEPENDENCIES: If the target constructor takes an address it calls functions on, deploy a mock: `contract MockDep {...}`, then `mock = new MockDep(); target = new TargetContract(address(mock), ...);`. Never cast raw addresses like address(0x123) or address(this) to a contract type — they have no code.\n";
/// The patch constraint on external calls only.
pub const RULE_EXTERNAL: &'static str = "- EXTERNAL CALLS ONLY: Never import or use internal libraries from the target's source (e.g. FullMath, SafeMath, TickMath). Call the target's public getter functions instead — e.g. `target.getFee(pool)` not a reimplemented formula.\n";
/// The patch constraint on the actors array as the source of addresses.
pub const RULE_ACTORS: &'static str = "- ACTORS ARRAY IS THE ONLY SOURCE OF ADDRESSES: handler functions must pick addresses with `actors[seed % actors.length]`. Never use keccak256 or address(uint160(...)) to derive addresses — they are never registered and every call using them reverts.\n";
/// A fixed passage of prompt text.
pub const TEXT_18: &'static str = "\n\
         Return JSON only. No markdown, no prose, no code fences.\n\
         \n\
         REQUIRED OUTPUT FORMAT — YOU MUST USE EXACTLY THIS SHAPE:\n\
         {\n\
           \"mode\": \"patch\",\n\
           \"bodies_updates\": [{\"op\": \"add|replace|remove\", \"path\": \"string\", \"value\": any, \"reason\": \"string\"}],\n\
           \"foundry_config_updates\": [{\"op\": \"add|replace|remove\", \"path\": \"string\", \"value\": any, \"reason\": \"string\"}]\n\
         }\n\
         \n\
         CRITICAL: mode MUST be \"patch\". NEVER return \"mode\": \"full\" in round N — it will fail to parse.\n\
         CRITICAL: The top-level keys must be exactly: mode, bodies_updates, foundry_config_updates. No other keys.\n\
         \n\
         PATCH RULES:\n\
         1. Each update item MUST have exactly 4 keys: op, path, value, reason.\n\
         2. path is a dot-path: \"handler.functions.deposit\", \"meta.solidity\", \"depth\".\n\
         3. op must be one of: add (key must not exist), replace (key must exist), remove (set value to null).\n\
         4. No duplicate paths in one response.\n\
         5. If nothing needs changing for one artifact, return its updates array as [].\n\
         6. New invariants should target distinct root causes. Use the security analysis to \
         understand confirmed failures, then move to other possible problems. Do not add \
         another invariant whose only purpose is to rediscover a confirmed vulnerability \
         through a different call sequence or symptom.\n\
         \n\
         ";
/// A fixed passage of prompt text.
pub const TEXT_19: &'static str = "\
         \n\
         VALID bodies path prefixes:\n\
         - meta.contract / meta.contractPath / meta.generatedAt  (meta.solidity is read-only, set automatically)\n\
         - handler.contractName / handler.imports / handler.stateVars / handler.ghostVars\n\
         - handler.constructorSignature / handler.constructorBody\n\
         - handler.functions.<functionName>\n\
         - invariantTest.contractName / invariantTest.imports / invariantTest.stateVars\n\
         - invariantTest.setUpBody\n\
         - invariantTest.invariants.<invariantName>\n\
         \n\
         VALID foundry_config path prefixes:\n\
         - depth (50–500) / runs (256–1000) / seed / max_test_rejects / dictionary_weight\n\
         \n\
         Existing bodies:\n";

/// How much guidance the prompts spell out.
#[derive(Clone, Copy, Debug, PartialEq, Eq, Structural)]
pub enum PromptMode {
    /// The condensed rule set.
    Concise,
    /// The complete rule set.
    Full,
}

/// Whether `mode` asks for the condensed rule set.
pub fn is_concise(mode: &PromptMode) -> (r: bool)
    ensures
        r == (*mode == PromptMode::Concise),
{
    match mode {
        PromptMode::Concise => true,
        PromptMode::Full => false,
    }
}

/// The content of the first message with `role`, or empty.
pub open spec fn message_with_role(messages: Seq<Message>, role: Role) -> Seq<char>
    decreases messages.len(),
{
    if messages.len() == 0 {
        seq![]
    } else if messages[0].role == role {
        messages[0].content@
    } else {
        message_with_role(messages.drop_first(), role)
    }
}

fn message_content(prompt: &AssembledPrompt, role: Role) -> (r: String)
    ensures
        r@ == message_with_role(prompt.messages@, role),
{
    let mut i: usize = 0;
    assert(prompt.messages@.skip(0) =~= prompt.messages@);
    while i < prompt.messages.len()
        invariant
            i <= prompt.messages@.len(),
            message_with_role(prompt.messages@, role) == message_with_role(
                prompt.messages@.skip(i as int),
                role,
            ),
        decreases prompt.messages@.len() - i,
    {
        let m = &prompt.messages[i];
        proof {
            assert(prompt.messages@.skip(i as int)[0] == prompt.messages@[i as int]);
            assert(prompt.messages@.skip(i as int).drop_first() =~= prompt.messages@.skip(i + 1));
        }
        if m.role == role {
            return m.content.clone();
        }
        i = i + 1;
    }
    string_of(&Vec::new())
}

/// The system message of an assembled prompt (empty without one).
pub fn system_prompt_from_request(prompt: &AssembledPrompt) -> (r: String)
    ensures
        r@ == message_with_role(prompt.messages@, Role::System),
{
    message_content(prompt, Role::System)
}

/// The user message of an assembled prompt (empty without one).
pub fn user_prompt_from_request(prompt: &AssembledPrompt) -> (r: String)
    ensures
        r@ == message_with_role(prompt.messages@, Role::User),
{
    message_content(prompt, Role::User)
}

/// The stage-one request: a security analysis covering every invariant-breaking
/// vulnerability class, returned as JSON.
pub open spec fn analysis_prompt_text() -> Seq<char> {
    "Stage 1/3: Security Analysis & Logic Design.\n"@
        + TEXT_1@
        + "vulnerability_analysis"@
        + SCHEMA_1@
        + "handler_logic_pseudocode"@
        + SCHEMA_2@
        + "invariant_mathematical_proofs"@
        + SCHEMA_3@
        + "critical_invariants"@
        + SCHEMA_4@
        + "tx_origin_paths"@
        + SCHEMA_5@
}

/// The stage-one request opens with its heading and names each key of the
/// JSON reply it asks for.
pub proof fn lemma_analysis_prompt_shape()
    ensures
        starts_with(analysis_prompt_text(), "Stage 1/3: Security Analysis & Logic Design.\n"@),
        contains(analysis_prompt_text(), "vulnerability_analysis"@),
        contains(analysis_prompt_text(), "handler_logic_pseudocode"@),
        contains(analysis_prompt_text(), "invariant_mathematical_proofs"@),
        contains(analysis_prompt_text(), "critical_invariants"@),
        contains(analysis_prompt_text(), "tx_origin_paths"@),
{
    let t = analysis_prompt_text();
    let h = "Stage 1/3: Security Analysis & Logic Design.\n"@;
    let p1 = h + TEXT_1@;
    let k1 = "vulnerability_analysis"@;
    let p2 = p1 + k1 + SCHEMA_1@;
    let k2 = "handler_logic_pseudocode"@;
    let p3 = p2 + k2 + SCHEMA_2@;
    let k3 = "invariant_mathematical_proofs"@;
    let p4 = p3 + k3 + SCHEMA_3@;
    let k4 = "critical_invariants"@;
    let p5 = p4 + k4 + SCHEMA_4@;
    let k5 = "tx_origin_paths"@;
    assert(t.subrange(0, h.len() as int) =~= h);
    assert(t.subrange(0, (p1.len() + k1.len()) as int) =~= p1 + k1);
    lemma_piece_in_prefix(t, p1, k1);
    assert(t.subrange(0, (p2.len() + k2.len()) as int) =~= p2 + k2);
    lemma_piece_in_prefix(t, p2, k2);
    assert(t.subrange(0, (p3.len() + k3.len()) as int) =~= p3 + k3);
    lemma_piece_in_prefix(t, p3, k3);
    assert(t.subrange(0, (p4.len() + k4.len()) as int) =~= p4 + k4);
    lemma_piece_in_prefix(t, p4, k4);
    assert(t.subrange(0, (p5.len() + k5.len()) as int) =~= p5 + k5);
    lemma_piece_in_prefix(t, p5, k5);
}

/// Stage 1 of round one: the security analysis request.
pub fn build_round_one_analysis_prompt() -> (r: String)
    ensures
        r@ == analysis_prompt_text(),
{
    let mut out = chars_of("Stage 1/3: Security Analysis & Logic Design.\n");
    append(&mut out, &chars_of(TEXT_1));
    append(&mut out, &chars_of("vulnerability_analysis"));
    append(&mut out, &chars_of(SCHEMA_1));
    append(&mut out, &chars_of("handler_logic_pseudocode"));
    append(&mut out, &chars_of(SCHEMA_2));
    append(&mut out, &chars_of("invariant_mathematical_proofs"));
    append(&mut out, &chars_of(SCHEMA_3));
    append(&mut out, &chars_of("critical_invariants"));
    append(&mut out, &chars_of(SCHEMA_4));
    append(&mut out, &chars_of("tx_origin_paths"));
    append(&mut out, &chars_of(SCHEMA_5));
    string_of(&out)
}

/// The handler contract's name.
pub open spec fn handler_name(contract_name: Seq<char>) -> Seq<char> {
    contract_name + "Handler"@
}

/// The invariant test contract's name.
pub open spec fn test_name(contract_name: Seq<char>) -> Seq<char> {
    contract_name + "InvariantTest"@
}

/// `import {<Contract>} from "<path>";` for the target contract.
pub open spec fn handler_target_import(contract_name: Seq<char>, contract_path: Seq<char>) -> Seq<char> {
    "import {"@ + contract_name + "} from \""@ + import_path(contract_path) + "\";"@
}

/// `import {<Handler>} from "./<Handler>.sol";` for the invariant test.
pub open spec fn test_handler_import(contract_name: Seq<char>) -> Seq<char> {
    "import {"@ + handler_name(contract_name) + "} from \"./"@ + handler_name(contract_name)
        + ".sol\";"@
}

/// The dependency imports, each quoted on its own indented line.
pub open spec fn quoted_lines(deps: Seq<Seq<char>>) -> Seq<char> {
    join(deps.map_values(|i: Seq<char>| "    \""@ + i + "\""@), "\n"@)
}

/// The block that lists the pre-resolved dependency imports (empty without any).
pub open spec fn dependency_block(deps: Seq<Seq<char>>) -> Seq<char> {
    if deps.len() == 0 {
        seq![]
    } else {
        let lines = quoted_lines(deps);
        TEXT_2@
        + lines
        + "\n"@
    }
}

/// The design rules for the bodies stage.
pub open spec fn rules_block(concise: bool) -> Seq<char> {
    if concise {
        TEXT_3@ + constructor_rule_heading(concise) + CONSTRUCTOR_RULE@
    } else {
        TEXT_4@ + constructor_rule_heading(concise) + CONSTRUCTOR_RULE@
    }
}

/// The number and heading of the last design rule, on patching constructor
/// bodies: rule 23 of the concise rules, rule 30 of the full ones.
pub open spec fn constructor_rule_heading(concise: bool) -> Seq<char> {
    if concise {
        "23. PATCH CONSTRUCTORBODY"@
    } else {
        "30. PATCH CONSTRUCTORBODY"@
    }
}

/// The design rules of either mode end with the numbered rule on patching
/// constructor bodies.
pub proof fn lemma_rules_block_heading(concise: bool)
    ensures
        contains(rules_block(concise), constructor_rule_heading(concise)),
{
    let pre = if concise {
        TEXT_3@
    } else {
        TEXT_4@
    };
    let h = constructor_rule_heading(concise);
    lemma_contains_self(h);
    lemma_contains_left(h, CONSTRUCTOR_RULE@, h);
    lemma_contains_right(pre, h + CONSTRUCTOR_RULE@, h);
    assert(pre + (h + CONSTRUCTOR_RULE@) =~= rules_block(concise));
}

/// The bodies-stage request for a target contract.
pub open spec fn bodies_prompt_text(
    analysis_summary: Seq<char>,
    contract_name: Seq<char>,
    contract_path: Seq<char>,
    source_code: Seq<char>,
    concise: bool,
) -> Seq<char> {
    TEXT_5@
        + "test/fuzzming/"@
        + contract_name
        + "/"@
        + handler_name(contract_name)
        + ".sol\n\
  Invariant test: test/fuzzming/"@
        + contract_name
        + "/"@
        + test_name(contract_name)
        + TEXT_6@
        + handler_name(contract_name)
        + "\"\n\
  invariantTest.contractName: \""@
        + test_name(contract_name)
        + "\"\n\
  meta.contract:              \""@
        + contract_name
        + "\"\n\
  meta.contractPath:          \""@
        + contract_path
        + "\"\n\
\n\
REQUIRED IMPORT LINES:\n\
  In "@
        + handler_name(contract_name)
        + ".imports, you MUST include:\n\
    \""@
        + handler_target_import(contract_name, contract_path)
        + "\"\n\
    \""@
        + "import {Test} from \"forge-std/Test.sol\";"@
        + "\"\n\
  In "@
        + test_name(contract_name)
        + ".imports, you MUST include:\n\
    \""@
        + test_handler_import(contract_name)
        + "\"\n\
    \""@
        + "import {Test} from \"forge-std/Test.sol\";"@
        + "\"\n\
    \""@
        + handler_target_import(contract_name, contract_path)
        + "\"\n\
"@
        + dependency_block(dependency_imports(dir_of(contract_path), lines(source_code)))
        + "\
\n\
CONTRACT INHERITANCE (mandatory):\n\
  "@
        + handler_name(contract_name)
        + " must inherit from Test: write `contract "@
        + handler_name(contract_name)
        + " is Test {`\n\
  "@
        + test_name(contract_name)
        + " must inherit from Test: write `contract "@
        + test_name(contract_name)
        + " is Test {`\n\
\n\
"@
        + rules_block(concise)
        + TEXT_7@
        + contract_name
        + "\",\n\
            \"contractPath\": \""@
        + contract_path
        + TEXT_8@
        + handler_name(contract_name)
        + TEXT_9@
        + test_name(contract_name)
        + TEXT_10@
        + analysis_summary
        + "\n"@
}

/// The bodies-stage request opens with the handler file's path.
#[verifier::spinoff_prover]
#[verifier::rlimit(100)]
proof fn lemma_bodies_prompt_opening(
    analysis_summary: Seq<char>,
    contract_name: Seq<char>,
    contract_path: Seq<char>,
    source_code: Seq<char>,
    concise: bool,
)
    ensures
        bodies_prompt_text(analysis_summary, contract_name, contract_path, source_code, concise).subrange(
            0,
            ((TEXT_5@ + "test/fuzzming/"@) + contract_name + "/"@ + handler_name(contract_name) + ".sol\n\
  Invariant test: test/fuzzming/"@).len() as int,
        ) == (TEXT_5@ + "test/fuzzming/"@) + contract_name + "/"@ + handler_name(contract_name) + ".sol\n\
  Invariant test: test/fuzzming/"@,
{
    let s = bodies_prompt_text(analysis_summary, contract_name, contract_path, source_code, concise);
    let p4 = (TEXT_5@ + "test/fuzzming/"@) + contract_name + "/"@ + handler_name(contract_name) + ".sol\n\
  Invariant test: test/fuzzming/"@;
    assert(s.subrange(0, p4.len() as int) =~= p4);
}

/// The handler file, `test/fuzzming/<name>/<name>Handler.sol`, is named in the bodies-stage
/// request.
#[verifier::spinoff_prover]
#[verifier::rlimit(50)]
proof fn lemma_bodies_prompt_file(
    analysis_summary: Seq<char>,
    contract_name: Seq<char>,
    contract_path: Seq<char>,
    source_code: Seq<char>,
    concise: bool,
)
    ensures
        contains(
            bodies_prompt_text(analysis_summary, contract_name, contract_path, source_code, concise),
            "test/fuzzming/"@ + contract_name + "/"@ + handler_name(contract_name) + ".sol"@,
        ),
{
    let s = bodies_prompt_text(analysis_summary, contract_name, contract_path, source_code, concise);
    let p4 = (TEXT_5@ + "test/fuzzming/"@) + contract_name + "/"@ + handler_name(contract_name) + ".sol\n\
  Invariant test: test/fuzzming/"@;
    let tail4 = ".sol\n\
  Invariant test: test/fuzzming/"@;
    reveal_strlit(".sol\n\
  Invariant test: test/fuzzming/");
    reveal_strlit(".sol");
    let x = "test/fuzzming/"@ + contract_name + "/"@ + handler_name(contract_name);
    let file = x + ".sol"@;
    assert((x + tail4).subrange(0, file.len() as int) =~= file);
    lemma_occurs(x + tail4, file, 0);
    lemma_contains_right(TEXT_5@, x + tail4, file);
    assert(p4 =~= TEXT_5@ + (x + tail4));
    lemma_bodies_prompt_opening(analysis_summary, contract_name, contract_path, source_code, concise);
    lemma_contains_prefix(s, p4, file);
}

/// The target contract's import line is named in the bodies-stage request.
#[verifier::spinoff_prover]
#[verifier::rlimit(50)]
proof fn lemma_bodies_prompt_target_import(
    analysis_summary: Seq<char>,
    contract_name: Seq<char>,
    contract_path: Seq<char>,
    source_code: Seq<char>,
    concise: bool,
)
    ensures
        ({
            let s = bodies_prompt_text(analysis_summary, contract_name, contract_path, source_code, concise);
            contains(s, handler_target_import(contract_name, contract_path))
        }),
{
    let s = bodies_prompt_text(analysis_summary, contract_name, contract_path, source_code, concise);
    {
        let pre = (TEXT_5@ + "test/fuzzming/"@)
        + contract_name
        + "/"@
        + handler_name(contract_name)
        + ".sol\n\
  Invariant test: test/fuzzming/"@
        + contract_name
        + "/"@
        + test_name(contract_name)
        + TEXT_6@
        + handler_name(contract_name)
        + "\"\n\
  invariantTest.contractName: \""@
        + test_name(contract_name)
        + "\"\n\
  meta.contract:              \""@
        + contract_name
        + "\"\n\
  meta.contractPath:          \""@
        + contract_path
        + "\"\n\
\n\
REQUIRED IMPORT LINES:\n\
  In "@
        + handler_name(contract_name)
        + ".imports, you MUST include:\n\
    \""@;
        let x = handler_target_import(contract_name, contract_path);
        assert(s.subrange(0, (pre.len() + x.len()) as int) =~= pre + x);
        lemma_piece_in_prefix(s, pre, x);
    }
}

/// forge-std's `Test` import line is named in the bodies-stage request.
#[verifier::spinoff_prover]
#[verifier::rlimit(50)]
proof fn lemma_bodies_prompt_test_import(
    analysis_summary: Seq<char>,
    contract_name: Seq<char>,
    contract_path: Seq<char>,
    source_code: Seq<char>,
    concise: bool,
)
    ensures
        ({
            let s = bodies_prompt_text(analysis_summary, contract_name, contract_path, source_code, concise);
            contains(s, "import {Test} from \"forge-std/Test.sol\";"@)
        }),
{
    let s = bodies_prompt_text(analysis_summary, contract_name, contract_path, source_code, concise);
    {
        let pre = (TEXT_5@ + "test/fuzzming/"@)
        + contract_name
        + "/"@
        + handler_name(contract_name)
        + ".sol\n\
  Invariant test: test/fuzzming/"@
        + contract_name
        + "/"@
        + test_name(contract_name)
        + TEXT_6@
        + handler_name(contract_name)
        + "\"\n\
  invariantTest.contractName: \""@
        + test_name(contract_name)
        + "\"\n\
  meta.contract:              \""@
        + contract_name
        + "\"\n\
  meta.contractPath:          \""@
        + contract_path
        + "\"\n\
\n\
REQUIRED IMPORT LINES:\n\
  In "@
        + handler_name(contract_name)
        + ".imports, you MUST include:\n\
    \""@
        + handler_target_import(contract_name, contract_path)
        + "\"\n\
    \""@;
        let x = "import {Test} from \"forge-std/Test.sol\";"@;
        assert(s.subrange(0, (pre.len() + x.len()) as int) =~= pre + x);
        lemma_piece_in_prefix(s, pre, x);
    }
}

/// The handler's import line for the test is named in the bodies-stage request.
#[verifier::spinoff_prover]
#[verifier::rlimit(50)]
proof fn lemma_bodies_prompt_handler_import(
    analysis_summary: Seq<char>,
    contract_name: Seq<char>,
    contract_path: Seq<char>,
    source_code: Seq<char>,
    concise: bool,
)
    ensures
        ({
            let s = bodies_prompt_text(analysis_summary, contract_name, contract_path, source_code, concise);
            contains(s, test_handler_import(contract_name))
        }),
{
    let s = bodies_prompt_text(analysis_summary, contract_name, contract_path, source_code, concise);
    {
        let pre = (TEXT_5@ + "test/fuzzming/"@)
        + contract_name
        + "/"@
        + handler_name(contract_name)
        + ".sol\n\
  Invariant test: test/fuzzming/"@
        + contract_name
        + "/"@
        + test_name(contract_name)
        + TEXT_6@
        + handler_name(contract_name)
        + "\"\n\
  invariantTest.contractName: \""@
        + test_name(contract_name)
        + "\"\n\
  meta.contract:              \""@
        + contract_name
        + "\"\n\
  meta.contractPath:          \""@
        + contract_path
        + "\"\n\
\n\
REQUIRED IMPORT LINES:\n\
  In "@
        + handler_name(contract_name)
        + ".imports, you MUST include:\n\
    \""@
        + handler_target_import(contract_name, contract_path)
        + "\"\n\
    \""@
        + "import {Test} from \"forge-std/Test.sol\";"@
        + "\"\n\
  In "@
        + test_name(contract_name)
        + ".imports, you MUST include:\n\
    \""@;
        let x = test_handler_import(contract_name);
        assert(s.subrange(0, (pre.len() + x.len()) as int) =~= pre + x);
        lemma_piece_in_prefix(s, pre, x);
    }
}

/// Every pre-resolved dependency import is named in the bodies-stage request.
#[verifier::spinoff_prover]
#[verifier::rlimit(50)]
proof fn lemma_bodies_prompt_dependencies(
    analysis_summary: Seq<char>,
    contract_name: Seq<char>,
    contract_path: Seq<char>,
    source_code: Seq<char>,
    concise: bool,
)
    ensures
        ({
            let s = bodies_prompt_text(analysis_summary, contract_name, contract_path, source_code, concise);
            let deps = dependency_imports(dir_of(contract_path), lines(source_code));
            forall|j: int| 0 <= j < deps.len() ==> contains(s, #[trigger] deps[j])
        }),
{
    let s = bodies_prompt_text(analysis_summary, contract_name, contract_path, source_code, concise);
    let deps = dependency_imports(dir_of(contract_path), lines(source_code));
    let p31 = (TEXT_5@ + "test/fuzzming/"@)
        + contract_name
        + "/"@
        + handler_name(contract_name)
        + ".sol\n\
  Invariant test: test/fuzzming/"@
        + contract_name
        + "/"@
        + test_name(contract_name)
        + TEXT_6@
        + handler_name(contract_name)
        + "\"\n\
  invariantTest.contractName: \""@
        + test_name(contract_name)
        + "\"\n\
  meta.contract:              \""@
        + contract_name
        + "\"\n\
  meta.contractPath:          \""@
        + contract_path
        + "\"\n\
\n\
REQUIRED IMPORT LINES:\n\
  In "@
        + handler_name(contract_name)
        + ".imports, you MUST include:\n\
    \""@
        + handler_target_import(contract_name, contract_path)
        + "\"\n\
    \""@
        + "import {Test} from \"forge-std/Test.sol\";"@
        + "\"\n\
  In "@
        + test_name(contract_name)
        + ".imports, you MUST include:\n\
    \""@
        + test_handler_import(contract_name)
        + "\"\n\
    \""@
        + "import {Test} from \"forge-std/Test.sol\";"@
        + "\"\n\
    \""@
        + handler_target_import(contract_name, contract_path)
        + "\"\n\
"@
        + dependency_block(dependency_imports(dir_of(contract_path), lines(source_code)));
    assert(s.subrange(0, p31.len() as int) =~= p31);
    assert forall|j: int| 0 <= j < deps.len() implies contains(s, #[trigger] deps[j]) by {
        let quoted = deps.map_values(|i: Seq<char>| "    \""@ + i + "\""@);
        lemma_join_contains(quoted, "\n"@, j);
        lemma_contains_self(deps[j]);
        lemma_contains_left(deps[j], "\""@, deps[j]);
        lemma_contains_right("    \""@, deps[j] + "\""@, deps[j]);
        assert(quoted[j] =~= "    \""@ + (deps[j] + "\""@));
        lemma_contains_in(quoted[j], join(quoted, "\n"@), deps[j]);
        lemma_contains_right(TEXT_2@, join(quoted, "\n"@), deps[j]);
        lemma_contains_left(TEXT_2@ + join(quoted, "\n"@), "\n"@, deps[j]);
        lemma_contains_right((TEXT_5@ + "test/fuzzming/"@)
        + contract_name
        + "/"@
        + handler_name(contract_name)
        + ".sol\n\
  Invariant test: test/fuzzming/"@
        + contract_name
        + "/"@
        + test_name(contract_name)
        + TEXT_6@
        + handler_name(contract_name)
        + "\"\n\
  invariantTest.contractName: \""@
        + test_name(contract_name)
        + "\"\n\
  meta.contract:              \""@
        + contract_name
        + "\"\n\
  meta.contractPath:          \""@
        + contract_path
        + "\"\n\
\n\
REQUIRED IMPORT LINES:\n\
  In "@
        + handler_name(contract_name)
        + ".imports, you MUST include:\n\
    \""@
        + handler_target_import(contract_name, contract_path)
        + "\"\n\
    \""@
        + "import {Test} from \"forge-std/Test.sol\";"@
        + "\"\n\
  In "@
        + test_name(contract_name)
        + ".imports, you MUST include:\n\
    \""@
        + test_handler_import(contract_name)
        + "\"\n\
    \""@
        + "import {Test} from \"forge-std/Test.sol\";"@
        + "\"\n\
    \""@
        + handler_target_import(contract_name, contract_path)
        + "\"\n\
"@, dependency_block(deps), deps[j]);
        lemma_contains_prefix(s, p31, deps[j]);
    }
}

/// The design rules of the mode are part of the bodies-stage request.
#[verifier::spinoff_prover]
#[verifier::rlimit(50)]
proof fn lemma_bodies_prompt_rules(
    analysis_summary: Seq<char>,
    contract_name: Seq<char>,
    contract_path: Seq<char>,
    source_code: Seq<char>,
    concise: bool,
)
    ensures
        ({
            let s = bodies_prompt_text(analysis_summary, contract_name, contract_path, source_code, concise);
            contains(s, rules_block(concise))
        }),
{
    let s = bodies_prompt_text(analysis_summary, contract_name, contract_path, source_code, concise);
    {
        let pre = (TEXT_5@ + "test/fuzzming/"@)
        + contract_name
        + "/"@
        + handler_name(contract_name)
        + ".sol\n\
  Invariant test: test/fuzzming/"@
        + contract_name
        + "/"@
        + test_name(contract_name)
        + TEXT_6@
        + handler_name(contract_name)
        + "\"\n\
  invariantTest.contractName: \""@
        + test_name(contract_name)
        + "\"\n\
  meta.contract:              \""@
        + contract_name
        + "\"\n\
  meta.contractPath:          \""@
        + contract_path
        + "\"\n\
\n\
REQUIRED IMPORT LINES:\n\
  In "@
        + handler_name(contract_name)
        + ".imports, you MUST include:\n\
    \""@
        + handler_target_import(contract_name, contract_path)
        + "\"\n\
    \""@
        + "import {Test} from \"forge-std/Test.sol\";"@
        + "\"\n\
  In "@
        + test_name(contract_name)
        + ".imports, you MUST include:\n\
    \""@
        + test_handler_import(contract_name)
        + "\"\n\
    \""@
        + "import {Test} from \"forge-std/Test.sol\";"@
        + "\"\n\
    \""@
        + handler_target_import(contract_name, contract_path)
        + "\"\n\
"@
        + dependency_block(dependency_imports(dir_of(contract_path), lines(source_code)))
        + "\
\n\
CONTRACT INHERITANCE (mandatory):\n\
  "@
        + handler_name(contract_name)
        + " must inherit from Test: write `contract "@
        + handler_name(contract_name)
        + " is Test {`\n\
  "@
        + test_name(contract_name)
        + " must inherit from Test: write `contract "@
        + test_name(contract_name)
        + " is Test {`\n\
\n\
"@;
        let x = rules_block(concise);
        assert(s.subrange(0, (pre.len() + x.len()) as int) =~= pre + x);
        lemma_piece_in_prefix(s, pre, x);
    }
}

/// The bodies-stage request names the handler file under `test/fuzzming/`, the
/// import lines both test files must carry (the target's, forge-std's `Test`,
/// the handler's), every pre-resolved dependency import, and the design rules
/// for the mode, which end with the numbered rule on patching constructor bodies.
pub proof fn lemma_bodies_prompt_lines(
    analysis_summary: Seq<char>,
    contract_name: Seq<char>,
    contract_path: Seq<char>,
    source_code: Seq<char>,
    concise: bool,
)
    ensures
        ({
            let s = bodies_prompt_text(analysis_summary, contract_name, contract_path, source_code, concise);
            let deps = dependency_imports(dir_of(contract_path), lines(source_code));
            &&& contains(s, "test/fuzzming/"@ + contract_name + "/"@ + handler_name(contract_name) + ".sol"@)
            &&& contains(s, handler_target_import(contract_name, contract_path))
            &&& contains(s, "import {Test} from \"forge-std/Test.sol\";"@)
            &&& contains(s, test_handler_import(contract_name))
            &&& forall|j: int| 0 <= j < deps.len() ==> contains(s, #[trigger] deps[j])
            &&& contains(s, rules_block(concise))
            &&& contains(s, constructor_rule_heading(concise))
        }),
{
    lemma_bodies_prompt_file(analysis_summary, contract_name, contract_path, source_code, concise);
    lemma_bodies_prompt_target_import(analysis_summary, contract_name, contract_path, source_code, concise);
    lemma_bodies_prompt_test_import(analysis_summary, contract_name, contract_path, source_code, concise);
    lemma_bodies_prompt_handler_import(analysis_summary, contract_name, contract_path, source_code, concise);
    lemma_bodies_prompt_dependencies(analysis_summary, contract_name, contract_path, source_code, concise);
    lemma_bodies_prompt_rules(analysis_summary, contract_name, contract_path, source_code, concise);
    lemma_rules_block_heading(concise);
    lemma_contains_in(
        rules_block(concise),
        bodies_prompt_text(analysis_summary, contract_name, contract_path, source_code, concise),
        constructor_rule_heading(concise),
    );
}

fn dependency_block_chars(deps: &Vec<String>) -> (r: Vec<char>)
    ensures
        r@ == dependency_block(strings_view(deps@)),
{
    if deps.len() == 0 {
        return Vec::new();
    }
    let mut quoted: Vec<Vec<char>> = Vec::new();
    let ghost dv = strings_view(deps@).map_values(|i: Seq<char>| "    \""@ + i + "\""@);
    let mut k: usize = 0;
    while k < deps.len()
        invariant
            k <= deps@.len(),
            dv == strings_view(deps@).map_values(|i: Seq<char>| "    \""@ + i + "\""@),
            seqs_of(quoted@) == dv.take(k as int),
        decreases deps@.len() - k,
    {
        let mut q = chars_of("    \"");
        append(&mut q, &chars_of(deps[k].as_str()));
        append(&mut q, &chars_of("\""));
        let ghost before = seqs_of(quoted@);
        assert(dv[k as int] == q@);
        quoted.push(q);
        assert(seqs_of(quoted@) =~= before.push(dv[k as int]));
        assert(seqs_of(quoted@) =~= dv.take(k + 1));
        k = k + 1;
    }
    assert(dv.take(deps@.len() as int) =~= dv);
    let lines = join_chars(&quoted, &chars_of("\n"));
    let mut block: Vec<char> = Vec::new();
    append(&mut block, &chars_of(TEXT_2));
    append(&mut block, &lines);
    append(&mut block, &chars_of("\n"));
    block
}

/// Stage 2 of round one: the request for the handler and invariant test
/// bodies, with the fixed file layout, contract names, required import lines
/// (the target, forge-std, the handler, and pre-resolved relative imports of
/// the source), the design rules for `mode`, the JSON schema, and the
/// serialised analysis of stage 1.
pub fn build_round_one_bodies_prompt(
    analysis_summary: &str,
    contract_name: &str,
    contract_path: &str,
    source_code: &str,
    mode: &PromptMode,
) -> (r: String)
    ensures
        r@ == bodies_prompt_text(
            analysis_summary@,
            contract_name@,
            contract_path@,
            source_code@,
            *mode == PromptMode::Concise,
        ),
{
    let mut hname = chars_of(contract_name);
    append(&mut hname, &chars_of("Handler"));
    let mut tname = chars_of(contract_name);
    append(&mut tname, &chars_of("InvariantTest"));
    let mut target_import = chars_of("import {");
    append(&mut target_import, &chars_of(contract_name));
    append(&mut target_import, &chars_of("} from \""));
    append(&mut target_import, &chars_of(to_import_path(contract_path).as_str()));
    append(&mut target_import, &chars_of("\";"));
    let mut handler_import = chars_of("import {");
    append(&mut handler_import, &hname);
    append(&mut handler_import, &chars_of("} from \"./"));
    append(&mut handler_import, &hname);
    append(&mut handler_import, &chars_of(".sol\";"));
    let deps = extract_dependency_imports(contract_path, source_code);
    let dep_block = dependency_block_chars(&deps);
    let mut rules = if is_concise(mode) {
        let mut r = chars_of(TEXT_3);
        append(&mut r, &chars_of("23. PATCH CONSTRUCTORBODY"));
        r
    } else {
        let mut r = chars_of(TEXT_4);
        append(&mut r, &chars_of("30. PATCH CONSTRUCTORBODY"));
        r
    };
    append(&mut rules, &chars_of(CONSTRUCTOR_RULE));
    let mut out: Vec<char> = Vec::new();
    append(&mut out, &chars_of(TEXT_5));
    append(&mut out, &chars_of("test/fuzzming/"));
    append(&mut out, &chars_of(contract_name));
    append(&mut out, &chars_of("/"));
    append(&mut out, &hname);
    append(&mut out, &chars_of(".sol\n\
  Invariant test: test/fuzzming/"));
    append(&mut out, &chars_of(contract_name));
    append(&mut out, &chars_of("/"));
    append(&mut out, &tname);
    append(&mut out, &chars_of(TEXT_6));
    append(&mut out, &hname);
    append(&mut out, &chars_of("\"\n\
  invariantTest.contractName: \""));
    append(&mut out, &tname);
    append(&mut out, &chars_of("\"\n\
  meta.contract:              \""));
    append(&mut out, &chars_of(contract_name));
    append(&mut out, &chars_of("\"\n\
  meta.contractPath:          \""));
    append(&mut out, &chars_of(contract_path));
    append(&mut out, &chars_of("\"\n\
\n\
REQUIRED IMPORT LINES:\n\
  In "));
    append(&mut out, &hname);
    append(&mut out, &chars_of(".imports, you MUST include:\n\
    \""));
    append(&mut out, &target_import);
    append(&mut out, &chars_of("\"\n\
    \""));
    append(&mut out, &chars_of("import {Test} from \"forge-std/Test.sol\";"));
    append(&mut out, &chars_of("\"\n\
  In "));
    append(&mut out, &tname);
    append(&mut out, &chars_of(".imports, you MUST include:\n\
    \""));
    append(&mut out, &handler_import);
    append(&mut out, &chars_of("\"\n\
    \""));
    append(&mut out, &chars_of("import {Test} from \"forge-std/Test.sol\";"));
    append(&mut out, &chars_of("\"\n\
    \""));
    append(&mut out, &target_import);
    append(&mut out, &chars_of("\"\n\
"));
    append(&mut out, &dep_block);
    append(&mut out, &chars_of("\
\n\
CONTRACT INHERITANCE (mandatory):\n\
  "));
    append(&mut out, &hname);
    append(&mut out, &chars_of(" must inherit from Test: write `contract "));
    append(&mut out, &hname);
    append(&mut out, &chars_of(" is Test {`\n\
  "));
    append(&mut out, &tname);
    append(&mut out, &chars_of(" must inherit from Test: write `contract "));
    append(&mut out, &tname);
    append(&mut out, &chars_of(" is Test {`\n\
\n\
"));
    append(&mut out, &rules);
    append(&mut out, &chars_of(TEXT_7));
    append(&mut out, &chars_of(contract_name));
    append(&mut out, &chars_of("\",\n\
            \"contractPath\": \""));
    append(&mut out, &chars_of(contract_path));
    append(&mut out, &chars_of(TEXT_8));
    append(&mut out, &hname);
    append(&mut out, &chars_of(TEXT_9));
    append(&mut out, &tname);
    append(&mut out, &chars_of(TEXT_10));
    append(&mut out, &chars_of(analysis_summary));
    append(&mut out, &chars_of("\n"));
    string_of(&out)
}

/// The config-stage request: the Foundry config shape and guidance, the
/// serialised analysis, and the handler function names as JSON.
pub open spec fn config_prompt_text(analysis_json: Seq<char>, functions_json: Seq<char>) -> Seq<char> {
    TEXT_11@
        + analysis_json
        + "\n\
         \n\
         Handler function names:\n"@
        + functions_json
}

/// Stage 3 of round one: the request for the Foundry config.
pub fn build_round_one_config_prompt(analysis_json: &str, functions_json: &str) -> (r: String)
    ensures
        r@ == config_prompt_text(analysis_json@, functions_json@),
{
    let mut out: Vec<char> = Vec::new();
    append(&mut out, &chars_of(TEXT_11));
    append(&mut out, &chars_of(analysis_json));
    append(&mut out, &chars_of("\n\
         \n\
         Handler function names:\n"));
    append(&mut out, &chars_of(functions_json));
    string_of(&out)
}

/// The Solidity constraints that a patch must keep, for `mode`.
pub open spec fn patch_constraints(contract_name: Seq<char>, concise: bool) -> Seq<char> {
    let rules = if concise {
        concise_patch_rules()
    } else {
        full_patch_rules()
    };
    TEXT_12@ + handler_name(contract_name) + TEXT_13@ + test_name(contract_name)
        + CONSTRAINT_INHERIT@ + rules
}

/// The condensed patch rules: iterating actors, the handler as the caller,
/// external calls only, and the actors array as the source of addresses.
pub open spec fn concise_patch_rules() -> Seq<char> {
    RULE_ITERATE@ + RULE_CALLER@ + RULE_EXTERNAL@ + RULE_ACTORS@
}

/// The complete patch rules: the condensed ones, in the same order, among
/// the rules on redefining `Test`, raw bytecode, ASCII strings, array getters,
/// import paths, `assert` and `require`, and mocks.
pub open spec fn full_patch_rules() -> Seq<char> {
    RULE_REDEFINE@
        + "- Never embed raw bytecode"@
        + RULE_BYTECODE_TAIL@
        + RULE_ITERATE@
        + RULE_ASCII@
        + RULE_ARRAY_GETTERS@
        + RULE_IMPORT_PATHS@
        + RULE_CALLER@
        + "- ASSERT VS REQUIRE"@
        + RULE_ASSERT_TAIL@
        + RULE_MOCK@
        + RULE_EXTERNAL@
        + RULE_ACTORS@
}

/// The round-N patch request.
pub open spec fn round_n_prompt_text(
    round: u32,
    contract_name: Seq<char>,
    existing_bodies_json: Seq<char>,
    existing_config_json: Seq<char>,
    concise: bool,
) -> Seq<char> {
    "Round: "@
        + decimal(round as nat)
        + TEXT_18@
        + patch_constraints(contract_name, concise)
        + TEXT_19@
        + existing_bodies_json
        + "\n\
         \n\
         Existing foundry config:\n"@
        + existing_config_json
}

/// The round-N request in the full mode carries the complete patch rules,
/// among them the rules against embedding raw bytecode and on `assert` versus
/// `require`; in the concise mode it carries a shorter rule set, at least
/// those two rules shorter. Both carry the condensed rules, which the full
/// set repeats.
pub proof fn lemma_round_n_rule_sets(
    round: u32,
    contract_name: Seq<char>,
    existing_bodies_json: Seq<char>,
    existing_config_json: Seq<char>,
)
    ensures
        ({
            let full = round_n_prompt_text(round, contract_name, existing_bodies_json, existing_config_json, false);
            let concise = round_n_prompt_text(round, contract_name, existing_bodies_json, existing_config_json, true);
            &&& contains(full, "- Never embed raw bytecode"@)
            &&& contains(full, "- ASSERT VS REQUIRE"@)
            &&& concise.len() + "- Never embed raw bytecode"@.len() + "- ASSERT VS REQUIRE"@.len() <= full.len()
            &&& concise.len() < full.len()
            &&& contains(full, RULE_ITERATE@) && contains(concise, RULE_ITERATE@)
            &&& contains(full, RULE_CALLER@) && contains(concise, RULE_CALLER@)
            &&& contains(full, RULE_EXTERNAL@) && contains(concise, RULE_EXTERNAL@)
            &&& contains(full, RULE_ACTORS@) && contains(concise, RULE_ACTORS@)
        }),
{
    reveal_strlit("- Never embed raw bytecode");
    let full = round_n_prompt_text(round, contract_name, existing_bodies_json, existing_config_json, false);
    let concise = round_n_prompt_text(round, contract_name, existing_bodies_json, existing_config_json, true);
    let head = "Round: "@ + decimal(round as nat) + TEXT_18@ + TEXT_12@ + handler_name(contract_name)
        + TEXT_13@ + test_name(contract_name) + CONSTRAINT_INHERIT@;
    let tail = TEXT_19@ + existing_bodies_json + "\n\
         \n\
         Existing foundry config:\n"@ + existing_config_json;
    let fr = full_patch_rules();
    let cr = concise_patch_rules();
    assert(full =~= head + fr + tail);
    assert(concise =~= head + cr + tail);
    // The full rules, piece by piece.
    let f1 = RULE_REDEFINE@;
    let f2 = f1 + "- Never embed raw bytecode"@ + RULE_BYTECODE_TAIL@;
    let f3 = f2 + RULE_ITERATE@ + RULE_ASCII@ + RULE_ARRAY_GETTERS@ + RULE_IMPORT_PATHS@;
    let f4 = f3 + RULE_CALLER@;
    let f5 = f4 + "- ASSERT VS REQUIRE"@ + RULE_ASSERT_TAIL@ + RULE_MOCK@;
    let f6 = f5 + RULE_EXTERNAL@;
    assert(fr =~= f6 + RULE_ACTORS@);
    assert(fr.subrange(0, (f1.len() + "- Never embed raw bytecode"@.len()) as int) =~= f1
        + "- Never embed raw bytecode"@);
    lemma_piece_in_prefix(fr, f1, "- Never embed raw bytecode"@);
    assert(fr.subrange(0, (f2.len() + RULE_ITERATE@.len()) as int) =~= f2 + RULE_ITERATE@);
    lemma_piece_in_prefix(fr, f2, RULE_ITERATE@);
    assert(fr.subrange(0, (f3.len() + RULE_CALLER@.len()) as int) =~= f3 + RULE_CALLER@);
    lemma_piece_in_prefix(fr, f3, RULE_CALLER@);
    assert(fr.subrange(0, (f4.len() + "- ASSERT VS REQUIRE"@.len()) as int) =~= f4
        + "- ASSERT VS REQUIRE"@);
    lemma_piece_in_prefix(fr, f4, "- ASSERT VS REQUIRE"@);
    assert(fr.subrange(0, (f5.len() + RULE_EXTERNAL@.len()) as int) =~= f5 + RULE_EXTERNAL@);
    lemma_piece_in_prefix(fr, f5, RULE_EXTERNAL@);
    lemma_contains_self(RULE_ACTORS@);
    lemma_contains_right(f6, RULE_ACTORS@, RULE_ACTORS@);
    // The condensed rules, piece by piece.
    let c1 = RULE_ITERATE@;
    let c2 = c1 + RULE_CALLER@;
    let c3 = c2 + RULE_EXTERNAL@;
    assert(cr =~= c3 + RULE_ACTORS@);
    lemma_contains_self(c1);
    lemma_contains_left(c1, RULE_CALLER@ + RULE_EXTERNAL@ + RULE_ACTORS@, c1);
    assert(cr =~= c1 + (RULE_CALLER@ + RULE_EXTERNAL@ + RULE_ACTORS@));
    assert(cr.subrange(0, (c1.len() + RULE_CALLER@.len()) as int) =~= c1 + RULE_CALLER@);
    lemma_piece_in_prefix(cr, c1, RULE_CALLER@);
    assert(cr.subrange(0, (c2.len() + RULE_EXTERNAL@.len()) as int) =~= c2 + RULE_EXTERNAL@);
    lemma_piece_in_prefix(cr, c2, RULE_EXTERNAL@);
    lemma_contains_right(c3, RULE_ACTORS@, RULE_ACTORS@);
    // Into the whole requests.
    let pieces = seq![
        "- Never embed raw bytecode"@,
        "- ASSERT VS REQUIRE"@,
        RULE_ITERATE@,
        RULE_CALLER@,
        RULE_EXTERNAL@,
        RULE_ACTORS@,
    ];
    assert forall|k: int| 0 <= k < pieces.len() && contains(fr, #[trigger] pieces[k]) implies contains(
        full,
        pieces[k],
    ) by {
        lemma_contains_right(head, fr, pieces[k]);
        lemma_contains_left(head + fr, tail, pieces[k]);
    }
    assert forall|k: int| 2 <= k < pieces.len() implies contains(concise, #[trigger] pieces[k]) by {
        assert(contains(cr, pieces[k]));
        lemma_contains_right(head, cr, pieces[k]);
        lemma_contains_left(head + cr, tail, pieces[k]);
    }
    assert(contains(full, pieces[0]));
    assert(contains(full, pieces[1]));
    assert(contains(full, pieces[2]));
    assert(contains(full, pieces[3]));
    assert(contains(full, pieces[4]));
    assert(contains(full, pieces[5]));
    assert(contains(concise, pieces[2]));
    assert(contains(concise, pieces[3]));
    assert(contains(concise, pieces[4]));
    assert(contains(concise, pieces[5]));
}

/// The round-N request for a patch: the patch format and rules, the
/// constraints for `mode`, the valid path prefixes, and the current bodies and
/// config as JSON.
pub fn build_round_n_prompt(
    round: u32,
    contract_name: &str,
    existing_bodies_json: &str,
    existing_config_json: &str,
    mode: &PromptMode,
) -> (r: String)
    ensures
        r@ == round_n_prompt_text(
            round,
            contract_name@,
            existing_bodies_json@,
            existing_config_json@,
            *mode == PromptMode::Concise,
        ),
{
    let mut hname = chars_of(contract_name);
    append(&mut hname, &chars_of("Handler"));
    let mut tname = chars_of(contract_name);
    append(&mut tname, &chars_of("InvariantTest"));
    let mut constraints = chars_of(TEXT_12);
    append(&mut constraints, &hname);
    append(&mut constraints, &chars_of(TEXT_13));
    append(&mut constraints, &tname);
    append(&mut constraints, &chars_of(CONSTRAINT_INHERIT));
    if is_concise(mode) {
        append(&mut constraints, &chars_of(RULE_ITERATE));
        append(&mut constraints, &chars_of(RULE_CALLER));
        append(&mut constraints, &chars_of(RULE_EXTERNAL));
        append(&mut constraints, &chars_of(RULE_ACTORS));
    } else {
        append(&mut constraints, &chars_of(RULE_REDEFINE));
        append(&mut constraints, &chars_of("- Never embed raw bytecode"));
        append(&mut constraints, &chars_of(RULE_BYTECODE_TAIL));
        append(&mut constraints, &chars_of(RULE_ITERATE));
        append(&mut constraints, &chars_of(RULE_ASCII));
        append(&mut constraints, &chars_of(RULE_ARRAY_GETTERS));
        append(&mut constraints, &chars_of(RULE_IMPORT_PATHS));
        append(&mut constraints, &chars_of(RULE_CALLER));
        append(&mut constraints, &chars_of("- ASSERT VS REQUIRE"));
        append(&mut constraints, &chars_of(RULE_ASSERT_TAIL));
        append(&mut constraints, &chars_of(RULE_MOCK));
        append(&mut constraints, &chars_of(RULE_EXTERNAL));
        append(&mut constraints, &chars_of(RULE_ACTORS));
    }
    let mut out: Vec<char> = Vec::new();
    append(&mut out, &chars_of("Round: "));
    append(&mut out, &decimal_chars(round as u64));
    append(&mut out, &chars_of(TEXT_18));
    append(&mut out, &constraints);
    append(&mut out, &chars_of(TEXT_19));
    append(&mut out, &chars_of(existing_bodies_json));
    append(&mut out, &chars_of("\n\
         \n\
         Existing foundry config:\n"));
    append(&mut out, &chars_of(existing_config_json));
    string_of(&out)
}

} // verus!
