# fj_ex

`fj-ex` is a helper for Forgejo: it logs in to the web UI (with a password or
a pasted browser session), keeps those logins in a credential store shared with
the `fj` CLI's data directory, creates NuGet package tokens, and works with pull
requests.

The crate is written in Verus. `src/` is the verified library:

- `target` — how `--host`, `--repo`, `--remote`, the git remotes and
  `FJ_FALLBACK_HOST` resolve to a base URL and a repository;
- `store` — the credential store as a map kept in key order, every operation
  on it, the store file's rules and the repair of an invalid store text;
- `login`, `session` — the browser `Cookie` header import, the choice of
  username, password and passcode, and the decisions of a web session;
- `auth`, `pulls` — what the `auth` and `pr` commands compute and print;
- `text`, `urls`, `clock` — text helpers, and the calls into `url`,
  `urlencoding`, `regex` and `time` with their contracts.

`app/` is the program around it: argument parsing with clap, files, stdin
and prompts, git, and HTTP with reqwest.
