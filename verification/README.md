# sunaba

The logic of Sunaba, an MCP server that lets agents write and run code in
per-language Docker containers, as a Verus-verified library.

- `src/` — the verified library: configuration defaults, the lexical handling of
  workspace paths (splitting, `.`/`..` resolution, component-wise prefixes,
  joining), the confinement of client paths to a workspace, container naming and
  set-up, the commands that run each language, and the defaults of every tool.
- `app/` — the server around it: environment variables, Docker calls, file
  system access, and the MCP tool router.
- `tests/` — tests of the library on concrete values.
