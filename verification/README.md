# fuzzming

FuzzMing closes the loop between a language model and a fuzzer: it asks the
model for Foundry invariant-test bodies, runs them, reads the results and asks
again, round after round.

This crate holds the parts of that loop that decide things, written in Verus
and proved against their specifications:

- `text` — the string operations the rest is built on (trimming, finding,
  splitting into lines, joining), each with a specification over `Seq<char>`.
- `fuzz_output_parser` — reading forge output into failing invariants and a
  compact summary for the model.
- `json`, `response_parser`, `groq_adapter` — a JSON model, reading a reply's
  text as JSON through `serde_json` (trusted), dot-path patches
  (read-after-write and frame laws, no repeated keys), finding the JSON payload
  of a reply and putting a response envelope in canonical shape (idempotence
  and key-by-key laws).
- `generation` — token accounting, validation of full generations and
  patches, narrowing the bodies a patch round needs, and the retry decision
  of each stage.
- `prompt`, `stage_prompts`, `llm`, `security_analysis`, `import_paths` — the
  exact text of every prompt, and the import lines a generated test needs.
- `generation_adapter`, `ordered_map` — provider settings, retry waits, and
  the calls made on `indexmap::IndexMap`, whose contracts are trusted.

`app/` is the asynchronous program around the library: model calls through
litellm, the stage loops that alternate calls and the library's decisions,
and serde copies of the artifact types.
