# unified-shell-platform

An orchestrator for portable dotfiles and agent IDE settings: it resolves
profile overlays for the current machine, merges their environment variables,
builds the settings documents for the vscode, claude_code and kiro agents, and maps
managed dotfiles into a chezmoi source tree.

- `src/` is the library, verified with Verus:
  - `resolver`: profile matching, ordering by specificity, and variable merging,
    with the laws they obey (more specific overlays win, the last assignment of a
    variable wins, no variable appears twice);
  - `render`: the settings documents (as `json::Json` values), the settings
    files' text, and the text renderings of environment pairs and tool lines;
  - `json_text`: the document's serde_json value and its pretty-printed text,
    the one place where the library calls an outside crate;
  - `cli`: the chezmoi path mapping (with the law that a mapped path stays inside
    the source tree), the default context, the plan figures and the chezmoi
    decision;
  - `model`, `state`, `integrations`, `json`: the data types.
- `app/` is the command line program: argument parsing, reading
  `config/platform.toml`, writing the generated files, TOML serialisation of
  the configuration types, and running chezmoi.
- `tests/` exercises the library on concrete inputs.
