//! Secure Delete: honest secure deletion and a per-file crypto-erase vault.
//!
//! On an SSD the bytes of a file cannot be reliably erased, so the vault makes data unreadable by
//! destroying its key instead: every file is encrypted on ingest under its own data key, and
//! shredding drops that key and re-keys the vault.
pub mod crypto;
pub mod detect;
pub mod freespace;
pub mod install;
pub mod keyroot;
pub mod overwrite;
pub mod sanitize;
pub mod status;
pub mod text;
pub mod vault;

pub use crypto::{KEY_LEN, NONCE_LEN};
pub use vault::Vault;
