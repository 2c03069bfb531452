# ibkr_flex_mcp

A read-only Interactive Brokers Flex Web Service client and MCP server, with its
functional core verified in Verus.

- `src/` — the verified library.
  - `flex/xml.rs` — the trusted boundary to `quick-xml` (pull reader, attribute
    iterator, attribute normalisation).
  - `flex/rows.rs` — scanning `<Tag ...>` elements of a statement into attribute rows.
  - `flex/positions.rs`, `flex/trades.rs`, `flex/cash.rs` — the statement sections;
    trade filtering, stable date sort and `limit`.
  - `flex/parse.rs` — errors and the meaning of control responses.
  - `flex/mod.rs` — the client, and the SendRequest/GetStatement protocol as a
    state machine.
  - `flex/text.rs` — verified text helpers (search, ASCII case folding, string order).
  - `mcp.rs` — what each read-only tool answers.
- `app/` — the program: HTTP transport (`reqwest`), the fetch loop with its waits,
  serde reading of control envelopes, JSON shapes, and the `rmcp` stdio server.
- `tests/` — tests of the library.

Amounts in statement rows stay as the statement's text in the library; the
server reads them as numbers when it writes JSON.
