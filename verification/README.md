# ghc

An interactive GitHub repository picker and cloner for the terminal.

`src/` is the library, verified with Verus:

- `text` — trimming, prefix and suffix tests, substring search, code-point
  order and decimal rendering over sequences of `char`;
- `git` — repository specs (`owner/repo` or GitHub URLs), clone URLs and what
  a `git clone` run means; `git_ops` — the plain clone's error text;
- `tui` — the repository list (archived ones hidden unless asked for, a
  stable sort by update time, name or stars, the search filter) and the
  keyboard-driven picker as a state machine;
- `screen` and `layout` — the texts and the placement of the picker's screen;
- `auth` — where the token comes from and the decisions of the OAuth device
  flow; `github` — the `/user` check and the paged, retried repository fetch;
- `cli`, `exit_codes`, `models` — the command line, exit codes and records.

`app/` is the program around it: argument parsing, files, HTTP, the terminal
and running `git`. `tests/` exercises the library on concrete values.
