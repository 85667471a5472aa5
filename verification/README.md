# hbci4rust

A FinTS (HBCI-Plus / PinTAN) client library whose logic is verified with
Verus: every function under `src/` carries a `requires`/`ensures` contract
that Verus proves.

## Layout

- `src/` — the verified library.
  - `text.rs`, `strmap.rs`, `error.rs`, `tools.rs`: text helpers with their
    specifications, an ordered string map, errors and parameter lookup.
  - `protocol/`: the FinTS syntax description (read from its XML), message
    rendering and parsing of wire messages.
  - `manager/`, `passport/`, `dialog.rs`, `callback.rs`: bank data, security
    mechanisms, TAN handling, dialog steps and the PinTAN passport with its
    sealed storage.
  - `gv/`, `gv_result/`: the job registry and the job results (account
    statements in MT940/MT942, balances, standing orders, status codes).
  - `sepa.rs`, `sepa/`: SEPA versions, reading PAIN.001/PAIN.008 documents,
    writing PAIN.001.001.02/PAIN.008.001.01 documents, reading CAMT.052
    reports into statement days, amounts and totals.
  - `swift.rs`, `xml.rs`: SWIFT text blocks and the XML event stream read
    with `quick-xml`.
- `tests/` — tests of the library on concrete values.
- `app/` — what talks to the outside world: HTTP transport, the user
  callback, the clock, bundled resources and the passport file.

Calls into outside crates (`quick-xml`, `sha1`, `ripemd`, `base64`,
`argon2`, `chacha20poly1305`, `zeroize`) stand behind small trusted wrappers
whose contracts say what the crates' sources show.
