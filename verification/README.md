# hfd

A downloader of Hugging Face repositories whose planning and bookkeeping are
verified with Verus.

- `src/` is the verified library: command-line parsing, settings and how
  configuration files combine, the selection of files by glob or wildcard
  patterns, the grouping of files by folder, the ordering of files, byte-range
  plans and `Range` headers, resume and retry decisions, the bookkeeping of
  progress bars and download slots, and the lookup of a repository as a model
  or a dataset. Calls into `glob`, `regex`, `shellexpand`, `flate2` and `rand`
  stand behind small trusted wrappers whose contracts are documented where
  they are declared.
- `app/` is the program around it: HTTP requests, files on disk, terminal
  progress bars, Ctrl+C handling, the reading of `~/.hfdconfig` and
  `./.hfdconfig` (or the file given with `--config`), and the `HF_ENDPOINT`
  setting, which names a mirror to use in place of the configured server.
- `tests/` exercises the library on concrete values.
