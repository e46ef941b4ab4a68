# vault_cipher

The entries of a password vault ("ciphers"): who may see and edit them, how they are searched
for, how they are shown to clients, and what changing them does to the store. The library is
written in Verus; every function of `src/` is proved against its contract.

## Layout

- `src/cipher.rs`, `src/ids.rs`, `src/dates.rs`, `src/text.rs`, `src/json.rs`: the cipher, its
  identifiers and points in time, decimal texts, and JSON values with their mathematical model.
- `src/tables.rs`, `src/joins.rs`, `src/queries.rs`, `src/finders.rs`: the rows of the store, the
  joins over them, and the searches for ciphers, collections and folders.
- `src/sync.rs`, `src/access.rs`: what is gathered for a sync, and the restrictions of a user's
  access to a cipher.
- `src/stored.rs`, `src/content.rs`, `src/details.rs`: the JSON texts that a cipher stores, how
  they are repaired, and the cipher as JSON.
- `src/validate.rs`: the checks on ciphers that a client sends.
- `src/actions.rs`, `src/runs.rs`, `src/changes.rs`: single changes to the store, operations that
  take several of them, and saving, deleting, purging, filing and marking ciphers.
- `src/laws/`: what holds of the library as a whole, as proof functions.
- `tests/`: the same on concrete values.
- `app/`: an SQLite store, JSON bodies and the asynchronous operations around the library.

## What is believed without proof

Calls into `chrono` (the clock, RFC 3339), `uuid` (random identifiers),
`serde_json` (reading JSON texts) and `char::to_lowercase`. Each stands behind a function whose
doc comment says what is claimed of it.

What other records say of a user (full access of a membership or group, the members that a
cipher concerns) and the settings of the server are handed to the library as plain values.
