# file_sync

A file synchronisation service: a server that publishes a directory, and a client that compares,
downloads and uploads files.

- `src/` is the library. It holds the rules of both sides, as state machines and functions on plain
  values, with contracts that Verus proves.
- `tests/` runs the library on concrete values.
- `app/` does the input and output around it: the network, the file system and JSON. The client's
  window needs `tauri` and is built with `--cfg window`.

Where to look in `src/`:

| Server | Client | Both |
| --- | --- | --- |
| `command`, `server`: commands | `download`, `upload`, `transfer`: transfers | `proto`: messages |
| `paths`, `access`, `ip_filter`: what is allowed | `status`: comparing files | `config`: settings |
| `listing`, `sorting`, `digest`: the listing | `monitor`, `discovery`: finding and watching the server | `table`, `text`, `times`, `encoding`: values |
| `notify`: notices of changes | `cancel`, `progress`, `history`, `dropped`, `local`: the window | |
