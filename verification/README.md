# clibby

`clb` is a command-line clipboard for files, directories and text with a
persistent history. This crate holds its logic as a verified library
(`src/`) and the command-line tool around it (`app/`).

- `src/history.rs`: history entries, the data-directory layout, where an
  entry's content lies, lookup by index and by selection, entry ids.
- `src/listing.rs`: the rows that `list` prints.
- `src/paste.rs`: text-or-files decision, destinations, refusals.
- `src/platform.rs`: what is imported from the system clipboard, the UTF-16
  payloads given to it, the default-application command.
- `src/text.rs`: previews, decimal numbers, UTF-16 encoding and decoding.
- `src/pathname.rs`: `std::path` operations on UTF-8 paths.
- `src/command.rs`: command selection and the command context.
- `app/`: argument parsing (clap), the history file (serde_json), the file
  system, the Windows clipboard (windows-sys) and processes.
