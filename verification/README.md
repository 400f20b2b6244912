# devbox

A service that creates development containers ("devboxes") on Docker or Azure
Container Instances from a `devbox.json` description and devcontainer
features.

- `src/` is the verified library: how features turn into Dockerfile lines and
  container runtime options (`features`, `metadata`, `dockerfile`), which stored
  provider and builder configuration is used (`cloud`, `providers`, `api`), task
  ids and log lines (`task`, `text`), and the string order the merged options
  are kept in (`order`). Every function there carries a contract checked by
  Verus, except the seven small wrappers marked `#[verifier::external_body]`
  that call the standard library, `parse_dockerfile` and `flate2`: their
  contracts are trusted, and each one's doc comment says what it claims. The
  `lemma_*` proof functions state the library's laws.
- `app/` is the HTTP service around it: axum routes, the SQLite store, Docker,
  Azure and SSH calls, and the file reads that feed the library.
- `tests/` runs the library on concrete inputs.
