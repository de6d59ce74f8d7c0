# meshdrop

Verified core of a peer-to-peer LAN file sharing tool.

- `src/` — the library, verified with Verus: packet framing (`protocol`),
  transfer payloads and the chunked sender (`file_sender`), the receive side
  (`file_receiver`, `receiver`, `file_response_sender`), peer discovery
  messages (`discovery`), the table of outgoing transfers (`session`), the
  connection routes (`transport`), and the web share: link address choice,
  request parsing, routing and responses (`web_server`, `pages`). `text`
  holds the character-level helpers the contracts are stated over.
- `app/` — the desktop shell around it: Tauri commands, sockets, files,
  threads and timers.
- `tests/` — tests of the library on concrete values.
