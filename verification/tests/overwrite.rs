use secure_delete::overwrite::{next_overwrite_chunk, overwrite_guard, OverwriteError};

#[test]
fn overwrite_needs_confirmation_and_refuses_dirs() {
    let shown = "/tmp/junk.txt";
    assert_eq!(overwrite_guard(false, true, None, shown), Err(OverwriteError::ConfirmationRequired));
    assert_eq!(overwrite_guard(false, true, Some("nope"), shown), Err(OverwriteError::ConfirmationRequired));
    assert_eq!(overwrite_guard(false, false, Some("/tmp/adir"), "/tmp/adir"), Err(OverwriteError::NotAFile));
    assert_eq!(overwrite_guard(true, true, Some(shown), shown), Err(OverwriteError::Symlink));
    assert_eq!(overwrite_guard(false, true, Some(shown), shown), Ok(()));
}

#[test]
fn overwrite_chunks_cover_the_file() {
    let mut remaining = 10_000u64;
    let mut total = 0u64;
    while let Some(n) = next_overwrite_chunk(remaining) {
        assert!(n <= 4096);
        total += n;
        remaining -= n;
    }
    assert_eq!(total, 10_000);
    assert_eq!(next_overwrite_chunk(0), None);
}
