# certbot_api

A service that manages Let's Encrypt certificates through certbot: DNS-01
(Cloudflare) apex + wildcard certificates, HTTP-01 (webroot) certificates,
background renewal and issuance tasks, repair of broken live directories, and
read access to certificates, challenges and certbot's log.

- `src/` is the verified library (Verus). `scripts/` holds the certbot
  operations as decisions on plain values (what to run, what a read or a
  listing means, the live-directory repair as a state machine); `app/` holds
  the task registry, create-or-find, and the replies; `text.rs` the string
  functions they are built from. The laws of the library are the `law_*`
  proof functions.
- `app/` performs the I/O (files, directories, certbot processes, the async
  task runner) and serves the HTTP and MCP front ends.
- `tests/` exercises the library on concrete values.
