# cc_switch_auth

The account and proxy logic of a desktop tool that signs in to GitHub
(OAuth device flow, Copilot), keeps the accounts' passwords sealed on disk, and
serves a local model proxy for the VS Code Copilot extension.

- `src/` is the library, verified with Verus:
  - `credentials.rs`: the credentials store (per provider, per user name),
    AES-256-GCM sealing under a key derived from the machine identity;
    `credential_laws.rs` proves what the store operations keep and undo.
  - `auth_browser.rs`: the sign-in window configurations, the registry of open
    windows, the auto-fill script, and the navigation watch that spots a
    finished sign-in.
  - `proxy_handlers.rs`: how a provider is offered as a VS Code model, which
    providers serve a requested model, and the routing decisions of the proxy.
  - `vscode_copilot_config.rs`: the list of providers enabled for VS Code.
  - `machine_id.rs`: the choice of the machine identity among what the
    platform gave (machine-id files, the `ioreg` output, user and host).
  - `crypto.rs`, `json.rs`, `paths.rs`, `text.rs`, `keyed.rs`: the calls into
    outside crates and std, with their contracts, and shared helpers.
- `tests/` runs the library on concrete values.
- `app/` holds what stays outside the proof: file and network I/O, the
  window toolkit, the HTTP handlers and the serde forms of the library's types.
