# manila

The core of a zero-knowledge envelope-budgeting ledger, written in Verus:
every function in `src/` carries a `requires` / `ensures` contract that
Verus proves.

## Layout

- `src/text.rs` – character-level helpers: trimming, ASCII case folding,
  substring search, decimal rendering and integer parsing.
- `src/import/` – statement import: amounts, CSV previews and rows, OFX
  `<STMTTRN>` blocks, and duplicate classification against what is stored.
- `src/ledger/engine.rs` – double-entry posting rules and transfers.
- `src/commands/` – the decisions behind each application command: the
  envelope budget month view, allocations, month closing, goals, reports,
  search queries, CSV export, import planning and the vault ceremony.
- `src/crypto/` – key derivation (Argon2id, HKDF-SHA256), sealing of the
  vault secret (XChaCha20-Poly1305) and the BIP-39 recovery phrase.
- `src/storage/schema.rs` – the stored record types.
- `app/` – the unverified shell: SQLite access, serde copies of the
  library's types, and the command functions that read, call the library
  and write.
- `tests/` – tests of the library on concrete values.

Calls into outside crates sit behind small trusted wrappers whose doc
comments say what their contracts claim of the outside code.
