# susecon_agent

A conference-session recommender behind an MCP tool, written in Verus.

- `src/` is the verified library: keyword scoring and ranking of the session
  catalog (`sessions`, `ranking`), the text primitives it rests on (`text`),
  the replies of the tools (`replies`, `tools`), settings (`config`), the
  memory ballast plan (`ballast`) and reading the resident set size out of a
  process status text (`status`).
- `app/` holds the three programs around it: the single MCP server, the agent
  that asks a recommendation backend, and that backend (HTTP, MCP transport,
  YAML loading, the ballast allocation, `getrusage`).
- `tests/` runs the library on concrete values.
