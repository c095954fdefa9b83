# cf-zt-cleaner

Resets CloudFlare Zero Trust users to a permanent list: every user who
holds an active Access seat and whose e-mail address is not on the
permanent list (compared without regard to case) loses the seat.

Layout:

- `src/` — the library, verified with Verus:
  - `user.rs` — CloudFlare users, the unified user, case-insensitive
    matching against the permanent list;
  - `selection.rs` — which users lose their seat, and the review order
    (unknown logins first, then oldest login, then e-mail);
  - `revocation.rs` — the seat targeted for a user, tallying a batch of
    revocations, and the interactive one-by-one review as a state machine;
  - `api.rs` — requests to the CloudFlare API, judging its answers,
    rate limits, and walking the pages of the user list;
  - `config.rs` — credentials from the config file and the environment
    (the environment wins);
  - `clock.rs` — `--older-than` durations and login time stamps;
  - `cli.rs` — verbosity, confirmation, and listing lines;
  - `text.rs` — lower-casing, trimming, lexicographic order, and decimal
    numbers.
- `app/` — the command line program: argument parsing, HTTP requests with
  retries, files, environment variables, prompts and logging.
- `tests/` — tests of the library.
