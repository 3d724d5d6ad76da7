# email_cli

A command-line mail client (IMAP to read, SMTP to send) whose decisions are
verified with Verus.

- `src/` — the verified library:
  - `decimal`: decimal spelling of numbers, with its read-back law;
  - `ids`: the message numbers that SEARCH finds, put in ascending order;
  - `text`: trimming of white space, repetition, joining, UTF-8 decoding;
  - `config`: the account settings, where they are stored, the server address,
    the sender and the summary lines;
  - `mail`: the model of fetched messages and what `inbox`, `read` and
    `search` ask of the server and show of its answers;
  - `wizard`: the interactive `config` command as a state machine;
  - `outgoing`: preparing a mail (sender and recipient checked with lettre).
- `app/` — the program: arguments, the configuration file, the IMAP session,
  the SMTP relay and the terminal.
- `tests/` — tests of the library on concrete values.
