//! Best-effort overwrite-then-delete of a file (real on HDD; best-effort on SSD, labeled so).
//!
//! The guards and the write plan live here; opening, writing and unlinking the file is the
//! caller's part.
use vstd::prelude::*;

verus! {

/// Why an overwrite was refused.
#[derive(Debug, Clone, Copy, PartialEq, Eq, Structural)]
pub enum OverwriteError {
    /// The target is a symbolic link.
    Symlink,
    /// The target is not a regular file.
    NotAFile,
    /// The confirmation did not repeat the exact path.
    ConfirmationRequired,
}

impl OverwriteError {
    pub fn message(&self) -> (s: &'static str)
        ensures
            s@ == match *self {
                OverwriteError::Symlink => "target is a symlink — refusing"@,
                OverwriteError::NotAFile => "target is not a regular file — refusing"@,
                OverwriteError::ConfirmationRequired => "confirmation required: re-run with --confirm"@,
            },
    {
        match self {
            OverwriteError::Symlink => "target is a symlink — refusing",
            OverwriteError::NotAFile => "target is not a regular file — refusing",
            OverwriteError::ConfirmationRequired => "confirmation required: re-run with --confirm",
        }
    }
}

/// The guard before an overwrite: no symlinks, only regular files, and `confirm` must equal the
/// exact path the user gave.
pub fn overwrite_guard(is_symlink: bool, is_file: bool, confirm: Option<&str>, expected: &str) -> (r: Result<(), OverwriteError>)
    ensures
        is_symlink ==> r == Err::<(), OverwriteError>(OverwriteError::Symlink),
        !is_symlink && !is_file ==> r == Err::<(), OverwriteError>(OverwriteError::NotAFile),
        !is_symlink && is_file ==> match confirm {
            Some(c) => if c@ == expected@ { r is Ok } else { r == Err::<(), OverwriteError>(OverwriteError::ConfirmationRequired) },
            None => r == Err::<(), OverwriteError>(OverwriteError::ConfirmationRequired),
        },
{
    if is_symlink {
        return Err(OverwriteError::Symlink);
    }
    if !is_file {
        return Err(OverwriteError::NotAFile);
    }
    match confirm {
        Some(c) => {
            if crate::text::str_eq(c, expected) {
                Ok(())
            } else {
                Err(OverwriteError::ConfirmationRequired)
            }
        },
        None => Err(OverwriteError::ConfirmationRequired),
    }
}

/// Random bytes written per overwrite write.
pub const OVERWRITE_BLOCK: u64 = 4096;

/// The size of the next overwrite write when `remaining` bytes of the file are left: the whole
/// remainder or one block, whichever is smaller; `None` when nothing is left.
pub fn next_overwrite_chunk(remaining: u64) -> (r: Option<u64>)
    ensures
        remaining == 0 ==> r is None,
        remaining > 0 ==> (r matches Some(n) && n > 0 && n <= OVERWRITE_BLOCK && n <= remaining
            && (n == OVERWRITE_BLOCK || n == remaining)),
{
    if remaining == 0 {
        None
    } else if remaining < OVERWRITE_BLOCK {
        Some(remaining)
    } else {
        Some(OVERWRITE_BLOCK)
    }
}

} // verus!
