# tls (Telescope)

Telescope scaffolds LLM evaluation workspaces, runs benchmark blocks against an
OpenAI-compatible chat service, has a judge model evaluate the answers, and
writes a Markdown report.

The library under `src/` is written in Verus, and Verus proves the contract
of its functions. Six small functions are trusted instead: each makes one call
into `std`, `chrono` or `url` and converts its result (`string_from_chars`,
`utf8_lossy`, `format_compact`, `parse_url`, `join_url`, `debug_quoted`); their
doc comments say what their contracts claim of those calls. The library holds
the decisions: what `init` creates and
writes (`storage`, `scaffold`, `plan`, `gitignore`), which blocks a run uses
and what it asks (`engine::runner`), how a judge's answer is read
(`engine::evaluator`), the report's text (`engine::reporter`), and how the chat
service's answers are interpreted (`gateway`). `text` holds the character-level
operations those rely on, each with its specification, and `calendar` the
Gregorian calendar behind the time stamps that name run logs and reports.

`app/` is the `tls` command: argument parsing, the file system, `git`, the
HTTP client and the concurrent requests. It asks the library what to do and
does it.

The chat service is the one at `OPENAI_API_COMPATIBLE_LLM_ENDPOINT` (a local
Ollama server, `http://127.0.0.1:11434`, when it is not set); requests go to
its `v1/chat/completions`, with `OPENAI_API_KEY` as the bearer token.
