# harness

A Rust-native agent framework, verified with Verus: a uniform model interface, a
tool system, and an agent runtime with a typed event stream, first-class
human-in-the-loop approval, durable sessions, retries and middleware.

## Layout

```
src/                 the verified library
  json, codec        JSON documents, and their text by way of serde_json
  text, duplicate    the string and copying operations the rest is built on
  message, history   conversations, and how they are written down
  error, model, tool errors, model calls, tool outputs
  structured         typed structured output with bounded repairs
  tool_macro         what the #[tool] attribute makes of a function
  anthropic, openai  wire formats, stream assembly and what holds of whole streams
  agent              the run machine, tool batches, retries, checkpoints, compaction
app/                 async models, tools and stores, HTTP, files, tokens
tests/               tests of the library
```

The library decides and computes; the code under `app/` performs what it says.
A run of an agent is a machine: `Run::step` takes what came of the last command
and gives back events to emit and the next command. Its contract says exactly
what each input leads to, and `src/agent/laws.rs` proves what holds of whole
runs: the caps on model calls and attempts, that a session is stored before the
run goes on, that a retried attempt has shown nothing, that usage adds up.
`src/agent/story.rs` proves what a run leaves behind: of which messages its
history consists, and in which order the events of each round of tools come.

What is trusted is the behaviour of `serde_json` and a few functions of std, each
stated in the contract of a small wrapper.
