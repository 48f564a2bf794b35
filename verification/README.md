# Ferrix

Ferrix is a small coding agent for the terminal. It talks to a model through the
Responses API, runs the tools that the model asks for (files, shell commands, and
the tools of MCP servers), and keeps a record of every run as JSON lines below
`.ferrix/runs`.

The library in `src/` holds what the agent decides and computes, with contracts
that Verus proves:

- `turn`: a turn as a machine that says what is to be done next and goes on with
  what came of it; `agent`: what a turn reports and counts.
- `model`: conversations, requests, and answers put together from a stream.
- `config`: the settings by the configuration file and the environment.
- `mcp`: the configuration of MCP servers, the search over their tools, and
  their replies.
- `tools`, `tools::fs`, `tools::bash`: the tools' definitions and results.
- `runs`, `session`, `terminal`: the record of a run, the lines of a session, and
  what is shown.
- `json`, `text`, `decimal`, `failure`: values, text, numbers and errors.

The program in `app/` does the rest: it reads and writes files, starts commands
and servers, sends requests, and prints. `tests/` holds the library's tests.

## Configuration

A workspace may have `.ferrix/config.json` (the model and the terminal) and
`.ferrix/mcp.json` (MCP servers). Environment variables such as `FERRIX_MODEL`,
`FERRIX_BASE_URL` and `FERRIX_STORE_RESPONSES` go before the file; the key is
taken from `OPENAI_API_KEY` or, for OpenRouter, from `OPENROUTER_API_KEY`.
