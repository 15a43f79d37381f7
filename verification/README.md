# secure-delete

Honest secure deletion and a per-file crypto-erase vault, with the library verified by Verus.

On an SSD the bytes of a deleted file cannot be reliably overwritten, so the vault destroys the
key instead: each file is encrypted on ingest under its own data key, the data keys live in
per-file metas sealed under a master key, and shredding a file drops its entry and re-keys the
whole vault. On an HDD, overwriting and free-space cleaning still do real work, and the tool says
which is which.

## Layout

- `src/` — the verified library.
  - `vault.rs`: the vault header, sealing, `init` / `add` / `list` / `open` / `shred` / `rekey`,
    and the laws that tie them together (what `add` wrote `open` reads back; shredding keeps every
    other entry; re-keying keeps every entry). Every operation that draws random bytes (a salt,
    a key, a nonce, an id) has a `_with` counterpart that takes those bytes as arguments and whose
    contract fixes its result exactly.
  - `crypto.rs`: Argon2id, AES-256-GCM, base64, HKDF and SHA-256, each reached through a small
    trusted wrapper whose contract names what the outside crate computes.
  - `keyroot.rs`: the hardware key-root interface, the master-wrapping-key combiner, the decisions
    on what TPM helpers report (including the Linux seal as a step machine), and an in-memory
    key root that models a hardware crypto-erase.
  - `freespace.rs`, `overwrite.rs`: the free-space clean plan, guards and write sizes.
  - `detect.rs`, `status.rs`, `sanitize.rs`, `install.rs`: reading what the system tools print,
    the advice, the whole-drive sanitize commands and the quiet-mode units and messages.
  - `text.rs`: character-level string helpers with `std`'s meaning (`trim`, `lines`,
    `split_whitespace`, `parse::<u64>`).
- `tests/` — tests of the library on concrete values.
- `app/` — the command-line program: argument parsing, files, running the system tools, and the
  on-disk JSON form of the vault header.
