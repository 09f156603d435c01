# llm-review-sdk

An SDK for LLM-powered code review: review rules and agents, a multi-provider
LLM client (Ollama, OpenAI, Anthropic), a workflow layer, the types of the
review HTTP API, and the safe extraction of submitted ZIP projects.

The library under `src/` is written in Verus and verified: each public
function carries a contract, and the laws that relate functions are proved.

- `registry` — values registered under string identifiers; behaves as a
  finite map and keeps identifiers in order of first registration.
- `rules`, `agents` — metadata, violations, severities (totally ordered
  Info < Warning < Error), agent configuration and its builders.
- `inference`, `inference::providers` — messages, completions and token
  usage, and every decision a provider client takes: which messages are
  sent, how a status or a transport failure is reported, when a request is
  tried again and after which pause, how a reply becomes a completion, and
  what a health check concludes.
- `server`, `workflow`, `integration` — API types, errors and their texts,
  and the check that a workflow's agent and rules are registered.
- `zip_project` — which archives and entries are refused or skipped, where
  an entry is written, the record of an extracted file (size, SHA-256,
  kind), and the project tree with its lookups.
- `text` — the string operations the rest builds on.

`app/` holds what Verus does not take: the asynchronous HTTP clients (reqwest,
tokio), the trait-object registries of rules and agents, the server's clock
and address, types with floating-point fields, the file-system side of ZIP
extraction and tree building, and the serde forms of the API types.
