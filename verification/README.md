# ssl-core

Renews Let's Encrypt certificates through DNS-01 challenges, with a
restricted signer agent that holds the DNS credentials.

- `src/` is the library, verified with Verus: the `profiles.yaml` model and
  its validation and normalization (`config`, `commands`), challenge record
  naming (`dns`, `acme`), the DNS vendors' request signing and reply handling
  (`providers`), the signer's request checks, credential sealing and session
  state (`signer`, `agent`), cron and monitor scheduling (`cron`, `monitor`),
  the certificate renewal decision (`cert`, `workflow`) and the Nginx restart
  plan (`nginx`). Calls into cryptography, encoding, X.509 and time crates go
  through small trusted wrappers (`crypto` and a few in the modules above),
  each with its contract in a doc comment.
- `app/` is the command line around it: files, the network, the ACME client,
  named pipes, processes and the clock. Its `agent` subcommand runs the
  signer agent.
- `tests/` runs the library on concrete values.
