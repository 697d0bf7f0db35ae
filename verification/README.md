# license_manager

A licence shop for the Internet Computer, verified with Verus.

Licences are offered in a catalogue; a buyer's purchase is signed with
ed25519 and, once the signature checks out, a DIP721 token carrying the
licence id and its expiry date is minted for the buyer. Tokens whose licence
has expired are burned by a daily check.

Layout:

- `src/` — the verified library: the hex signature format (`hex`), the
  ed25519 checks (`ed25519`, `verify`, `hello`), principals, calendar dates,
  the DIP721 ledger (`ledger`), the licence catalogue (`licenses`), purchase
  confirmation (`purchase`) and the properties that span several operations
  (`laws`). Calls into `ed25519_dalek`, `chrono` and `candid` go through the
  trusted items of `ed25519`, `date` and `principal`.
- `app/` — the canister endpoints: they read the caller and the time, convert
  between Candid types and the library's types, and call the library.
- `tests/` — tests run against the compiled library.
