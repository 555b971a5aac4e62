# diaryx_plugin_sdk

The guest-side SDK for Diaryx WASM plugins, as a library verified with Verus.

`src/` is the verified library:

- `protocol` — the manifest, events, command requests and replies, their
  constructors and builders, and their JSON forms (with the defaults and
  omissions of the wire format). Each is read from a JSON object or from
  an array in field order, and printed as JSON text with its fields in the
  order they are declared. The round-trip proofs are about the JSON
  document: what is written as a document reads back as the same value.
  That the text printed for a value parses back into that document rests
  on `serde_json` and is not proved here.
- `host/*` — for each host call, the request it is sent and what its reply
  means (storage, secrets, files, HTTP, WebSocket, WASI, namespaces, ...).
- `json`, `writer`, `encoding`, `text` — the JSON document model and the
  reading of struct fields from it, JSON text written piece by piece,
  Base64, and the text helpers (trimming, decimal reading, hexadecimal).
- `config` — workspace-scoped storage keys.
- `getrandom_shim` — the xorshift64 generator behind `getrandom`.
- `state` — the lazily initialised plugin state container.

Calls into `serde_json`, `base64` and the standard library's default hasher
stand behind trusted wrappers whose contracts name or state what they give.

`app/` is the runtime around it: the `extism` host-function declarations and
the calls themselves, the `serde` forms of the protocol types, global state,
and the `getrandom` backend.
