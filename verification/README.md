# avp

The AVP toolchain: the `avp` command that gates sibling repositories
(findings, per-language gates, ratchet overrides, intent files, drift and
install planning) and the `conductor` that supervises coding-agent
sessions across local and SSH hosts.

## Layout

- `src/` — the library, verified with Verus. Every public function carries
  a contract over spec functions and views; laws that relate several
  functions are public proof functions next to them.
  - `finding`, `gate`, `newtype`, `reporter`, `repo`, `source`, `gates/` —
    findings, gate ids, validated names, report text, Rust source
    classification and the Rust gates, which work on an outline of each
    source file.
  - `ratchet`, `intent`, `dates`, `commands` — ratchet and intent files,
    their validation, and what the `avp` subcommands compute and print.
  - `install`, `drift` — install plans for the canonical files and the
    portfolio drift report.
  - `host`, `config`, `policy`, `session`, `event`, `driver`,
    `supervisor`, `claude_event`, `launch`, `conductor`, `fixture` — hosts
    and routing, the recovery policy, the session state machine and its
    supervisor, the agent's event stream, command lines for local and SSH
    launches, and the conductor's output.
- `app/` — the two programs around the library: argument parsing, files,
  processes, the async driver loop, JSON and TOML (de)serialisation, and
  the Rust parser that builds the source outlines.
- `tests/` — tests of the library through its public API.
