# mentra

The decision logic of an agent runtime for tool-using LLM applications, written in Verus.
Verus verifies every function in `src/` against its contract. Where clones share state the
contracts say little: the cancellation token's functions state nothing (the flag is a std
atomic, of which no value can be stated), and the shared `RuleStore` only states that what it
reads back has one rule per key; the rule set behind its lock, `RuleSet`, has exact contracts.

## Layout

- `src/task/`: persisted project tasks as a dependency graph. Creating, claiming, updating and
  listing tasks, binding them to execution contexts, loading a stored list, the snapshot of the
  task files and the plan that restores it (`disk.rs`), and the laws the graph obeys across
  operations (`laws.rs`).
- `src/runtime/`: run limits and the runtime policy, execution contexts (git worktrees bound
  to tasks), the runtime's own tools and their answers, the built-in shell tools, working
  directories, the tool registry, an agent's task bookkeeping, and the steps of an agent run
  (`turn.rs`: when the model is asked, which tool call runs next, and the history a failed
  run goes back to).
- `src/provider/`: provider definitions, credentials and request headers (name/value pairs
  kept distinct by name, `pairs.rs`), URLs, the Anthropic
  event stream (frames, payloads, events), tool specs and model metadata.
- `src/compaction.rs`: which part of a transcript a compaction summarizes and what it keeps.
- `src/session/`: remembered permission rules (the verified `RuleSet`, and `RuleStore`, one
  set behind a lock shared by every clone) and session identifiers.
- `src/text.rs`: small verified text helpers.
- `app/`: the I/O around the library: task and context files, git, local commands, reading
  the Anthropic byte stream, header maps and tool specs as JSON.
- `tests/`: tests of the library on concrete values.

Calls into `url`, `http` and `std` that the logic needs are made through small trusted
functions whose contracts name what the outside function returns.
