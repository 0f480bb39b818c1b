# bowire_plugin

Library for writing Bowire protocol plugins as sidecars that speak the
host's JSON-RPC 2.0 contract (`initialize` / `ping` / `discover` /
`invoke` / `invokeStream` / `shutdown`), with its behaviour stated in
Verus contracts and proved.

- `src/` — the verified library: the data models and their wire shapes
  (`models`, `plugin`), reading the models back from JSON (`decode`), a
  JSON document model (`json`), the JSON-RPC
  envelopes (`jsonrpc`), the method dispatcher, reply builders and stream
  framing (`dispatch`), and the stdio read-loop decisions (`stdio`): when
  to stop, which lines are dropped, how JSON that is not a request
  is answered, and that a `shutdown` ends the loop once acknowledged.
- `app/` — the async plugin trait, the stdio and HTTP/SSE runtimes, the
  error type, and the bridge between the library's JSON model and JSON
  text (serde), which keeps members in order.
- `tests/` — tests of the library.
