# amorfly_ai

The logic of Amorfly AI, a local-first Linux desktop assistant, as a Verus
library: the functions in `src/` carry contracts that Verus proves, except
the small wrappers around outside crates and std (marked
`#[verifier::external_body]`), whose contracts are believed and say only
what those crates document.

- `src/` — the verified library: subtitle files (SRT/VTT) and the dubbing
  plan, chat routing and prompts, the model router, the encrypted vault's
  sealing and opening, the job queue, the task table and batch jobs,
  workflows planned from a fixed set of steps, the working memory, language
  sessions, usage habits, document and spreadsheet handling, the retrieval
  index's chunking, model downloads' stream reading, installers' choices,
  diagnostics, and paths. Calls into outside crates (serde_json, base64,
  aes-gcm, rand, uuid, chrono) stand behind small trusted wrappers whose
  contracts say what the crates document.
- `tests/` — tests of the library on concrete values.
- `app/` — a command-line program around the library: processes, files,
  HTTP, SQLite and spreadsheet files, and what works on floating point.
  Each command takes its arguments as one JSON object and prints JSON.
