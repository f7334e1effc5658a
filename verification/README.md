# narya

The configuration and routing core of the Narya desktop proxy client,
verified with Verus.

## Layout

- `src/` — the verified library.
  - `model`, `diff`, `matcher`, `transformer`: the configuration model, what
    changed between two configurations, the first-match rule engine and the
    sing-box configuration plan.
  - `yaml`, `parser`: subscription bodies (Clash documents, plain or base64
    link lists).
  - `routing`, `table`, `editor`, `conditions`, `bundle`, `rulesets`,
    `integrity`: the routing table the client edits (rules ordered by
    priority, groups, rule sets ordered by id), checked imports, and the
    laws that keep its references intact.
  - `session`, `kernels`, `client`, `state`, `overview`, `framing`: the
    client's decisions around the daemon — kernel installs and switches,
    starting and stopping the proxy step by step, subscriptions, preferences,
    the log, start-up state, page summaries and frame sizes.
  - `text`: character-level helpers.
- `tests/` — tests of the library.
- `app/` — what stays outside the verified library: serialisable copies of
  the types, YAML and JSON, downloads, files, sockets and IP address text.
