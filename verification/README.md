# pipa

A data-quality and audit engine for structured data pipelines: contracts say
what a dataset must satisfy and where it goes afterwards, validators check
columns, and every action is recorded in JSON-lines audit logs that are
sealed, with their SHA-256 hashes, into an AES-256-GCM encrypted ledger.

The library in `src/` is verified with Verus:

- `cli` — the command-line grammar and what `pipa run` does with its arguments;
- `ledger`, `crypto`, `seal`, `verify` — the encrypted hash ledger, sealing
  finished logs, and checking logs against the ledger, with the laws that tie
  them together (a sealed log verifies, a changed or deleted one is reported
  as mismatched or missing, sealing twice adds nothing, ...), proved for
  ledgers whose text is valid UTF-8, as every ledger written here is;
- `engine` — contract lookup and validation outcomes, log verification
  results, system health, and where validated data goes;
- `rules`, `drivers` — reading data files into columns and applying a
  contract's column and uniqueness rules;
- `connectors`, `movement`, `paths`, `profiles` — fetch and write
  plans, file names, the Google Cloud Storage request details, profile
  environment expansion;
- `validators` — column and multi-column rules over plain column values.

`app/` is the `pipa` program around it: argument help, files, HTTP, and the
statistics rules that work on floating-point numbers.
