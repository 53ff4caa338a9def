# peregrine

The verified core of Peregrine, a small HTTP gateway (reverse proxy, static
files, health check, CORS, security headers, rate limiting, basic auth).

- `src/` is the library, verified with Verus: the configuration model and its
  validation (`config`), response-header computation, CORS, basic auth and
  fixed-window rate limiting (`filter`), route matching, upstream resolution
  and the per-request decisions (`proxy`), static-file path mapping
  (`handler`), content types (`util`), the command-line plan (`cli`), and
  character-level helpers (`text`). Calls into `indexmap`, `url`, `http`,
  `base64` and the clock sit behind small trusted wrappers (`header_map`,
  `net`, `clock`) whose contracts state what those crates document.
- `app/` is the program around it: command-line parsing, reading the YAML
  configuration, logging, and the Pingora service that performs the I/O the
  library decides on.
- `tests/` exercises the library on concrete values.
