# flick_sync

A verified library for keeping a local store of videos synced from Plex servers
and serving them to devices on the network over DLNA/UPnP.

The library is written in Verus: each function states what it does in
`requires`/`ensures` and Verus proves it. It covers the store's layout and
pruning rules, the sync list and scheduler, the saved state and its schema
migrations, transcode profiles, the web pages' data, the SSDP message codec and
announcement logic, and the UPnP/DLNA content directory with its XML documents.
Calls into outside crates (xml-rs, serde_json, url, http, mime, uuid, bytes, regex) go
through small trusted wrappers whose contracts say what those crates do.

Layout:

- `src/` the verified library, one module per concern, reached from `src/lib.rs`;
- `tests/` tests of the library on concrete values;
- `app/` the program around it: the file reads and writes of the state file, the SSDP
  sockets and the checks on the store on disk.
