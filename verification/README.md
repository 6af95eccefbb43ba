# impetus_ext

The logic of the Impetus first-party extensions, verified with Verus: the
extension package manifest and catalog rules, the legacy install envelope, the
MCP stdio JSON-RPC subset, and the rules of the browser, LSP, HTTP fetch, git
and code-search extensions.

## Layout

- `src/` — the verified library.
  - `text`, `paths`, `keyed`, `json` — strings, paths, keyed sequences and the
    JSON value type that the rest is written over.
  - `mcp` — classifying JSON-RPC messages, dispatching `initialize`, `ping`,
    `tools/list` and `tools/call`, and building responses.
  - `manifest`, `digest`, `package`, `catalog`, `legacy` — `extension.toml`
    rules, `catalog.json` checks and regeneration, content digests and the
    legacy Skill/MCP envelope.
  - `browser_protocol`, `browser_backend`, `browser_tools` — Browser Provider
    Protocol 0.1 shapes, the in-memory backend and its laws, the CDP scaffold.
  - `lsp_protocol`, `lsp_session`, `lsp_mock` — `Content-Length` framing,
    request construction, the session state machine, published diagnostics
    and the fake language server.
  - `http_fetch`, `git_tools`, `code_search`, `workspace` — request guards and
    redirect rules, the read-only git argument rules, search parameters and the
    workspace sandbox.
- `tests/` — tests run against the compiled library.
- `app/` — one binary, `impetus-ext-app <program>`, that runs the developer CLI
  (`support`) and the MCP stdio servers (`browser`, `lsp`, `lsp-session`,
  `http-fetch`, `git-tools`, `code-search`): file system, processes, network
  and serde around the library.
