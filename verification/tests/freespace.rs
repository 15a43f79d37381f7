use secure_delete::detect::Media;
use secure_delete::freespace::{
    clean_guard, clean_method, clean_volume, drive_letter, CleanDone, fill_clean_message, is_system_volume, is_system_volume_windows, next_chunk, plan,
    space, space_fields_windows, space_windows, ssd_clean_message, trim_free_space, trim_free_space_windows, tile, vec_random, CleanMethod,
    CleanReport, FreeSpaceError, GIB, STEP,
};

#[test]
fn plan_keeps_the_dynamic_margin() {
    // 100 GiB volume, 50 GiB free: margin is 10 GiB, budget 40 GiB.
    let (free, margin, budget) = plan(50 * GIB, 100 * GIB, None, None);
    assert_eq!(free, 50 * GIB);
    assert_eq!(margin, 10 * GIB);
    assert_eq!(budget, 40 * GIB);
    // small volume: margin floors at 1 GiB
    let (_, margin, budget) = plan(2 * GIB, 4 * GIB, None, None);
    assert_eq!(margin, GIB);
    assert_eq!(budget, GIB);
    // less free than the margin: nothing to write
    let (_, _, budget) = plan(GIB / 2, 4 * GIB, None, None);
    assert_eq!(budget, 0);
}

#[test]
fn plan_honours_requested_margin_and_cap() {
    let (_, margin, budget) = plan(50 * GIB, 100 * GIB, Some(GIB), Some(4 * 1024 * 1024));
    // a requested margin never goes below the dynamic one (10% here)
    assert_eq!(margin, 10 * GIB);
    assert_eq!(budget, 4 * 1024 * 1024);
    let (_, margin, budget) = plan(50 * GIB, 100 * GIB, Some(20 * GIB), None);
    assert_eq!(margin, 20 * GIB);
    assert_eq!(budget, 30 * GIB);
}

#[test]
fn clean_free_space_capped_writes_and_cleans_up() {
    // The fill loop never writes past its cap.
    let cap = 4 * 1024 * 1024u64;
    let (_, _, budget) = plan(50 * GIB, 100 * GIB, None, Some(cap));
    let mut written = 0u64;
    while let Some(n) = next_chunk(written, budget, STEP) {
        written += n;
    }
    assert!(written <= cap);
    assert_eq!(written, budget);
}

#[test]
fn chunks_step_then_remainder() {
    assert_eq!(next_chunk(0, 10, 4), Some(4));
    assert_eq!(next_chunk(8, 10, 4), Some(2));
    assert_eq!(next_chunk(10, 10, 4), None);
    assert_eq!(next_chunk(0, 0, 4), None);
}

#[test]
fn guards() {
    assert_eq!(clean_guard(false, false, false), Err(FreeSpaceError::NotADirectory));
    assert_eq!(clean_guard(true, true, false), Err(FreeSpaceError::SystemVolume));
    assert_eq!(clean_guard(true, true, true), Ok(()));
    assert_eq!(clean_guard(true, false, false), Ok(()));
}

#[test]
fn fill_buffer_repeats_one_block() {
    let v = vec_random(10000).unwrap();
    assert_eq!(v.len(), 10000);
    assert_eq!(v[..4096], v[4096..8192]);
    assert_eq!(v[8192..], v[..10000 - 8192]);
}

#[test]
fn df_output_parsing() {
    let out = "    Avail     1B-blocks\n 5368709120 107374182400\n";
    assert_eq!(space(out), Ok((5368709120, 107374182400)));
    assert_eq!(space("Avail Size\n"), Err(FreeSpaceError::NoSpaceInfo));
    assert_eq!(space("h\nabc 100\n"), Ok((0, 100)));
    assert_eq!(space(""), Err(FreeSpaceError::NoSpaceInfo));
}

#[test]
fn ssd_is_trimmed_not_overwritten() {
    assert_eq!(clean_method(Media::Ssd), CleanMethod::Trim);
    assert_eq!(clean_method(Media::Hdd), CleanMethod::Fill);
    assert_eq!(clean_method(Media::Unknown), CleanMethod::Fill);
}

#[test]
fn trim_reports() {
    assert_eq!(trim_free_space("  /: 1 GiB trimmed\n").unwrap(), "fstrim: /: 1 GiB trimmed");
    assert_eq!(trim_free_space(" \n"), Err(FreeSpaceError::TrimNoOutput));
    assert_eq!(
        trim_free_space_windows("C", "ok\r\n").unwrap(),
        "issued TRIM/Unmap for unused sectors on C: (Optimize-Volume -ReTrim)"
    );
    assert_eq!(trim_free_space_windows("C", ""), Err(FreeSpaceError::TrimNotConfirmed));
    assert_eq!(trim_free_space_windows("", "ok"), Err(FreeSpaceError::NoDriveLetter));
}

#[test]
fn clean_messages() {
    let r = CleanReport { written_bytes: 3 * 1024 * 1024 + 5, free_before: 0, margin: GIB };
    assert_eq!(fill_clean_message(Media::Hdd, &r), "hdd: wrote ~3 MiB of random fill then removed it (kept 1024 MiB margin).");
    assert!(ssd_clean_message("fstrim: ok").starts_with("SSD — fstrim: ok. (TRIM removes it"));
}

#[test]
fn system_volume_detection() {
    assert!(is_system_volume(Some(5), Some(5)));
    assert!(!is_system_volume(Some(5), Some(6)));
    assert!(is_system_volume(None, Some(6)));
    assert!(is_system_volume_windows(Some(r"\\?\c:\Users\x"), "C:"));
    assert!(!is_system_volume_windows(Some(r"D:\data"), "c:"));
    assert!(is_system_volume_windows(None, "C:"));
}

#[test]
fn powershell_space_parsing() {
    let out = "F=5000\r\nU=3000\r\n";
    assert_eq!(space_fields_windows(out), (5000, 3000));
    assert_eq!(space_windows(out), Ok((5000, 8000)));
    // a value that does not parse reads as zero; the last line of a kind wins
    assert_eq!(space_fields_windows("F=12\n  F= x \nU= 7 \n"), (0, 7));
    assert_eq!(space_windows("F=12\n  F= x \nU= 7 \n"), Ok((0, 7)));
    assert_eq!(space_windows("nothing here"), Err(FreeSpaceError::NoSpaceInfo));
    assert_eq!(space_windows("F=0\nU=0"), Err(FreeSpaceError::NoSpaceInfo));
}

#[test]
fn clean_volume_reports_per_method() {
    let ssd = clean_volume(Media::Ssd, Ok(CleanDone::Trimmed("fstrim: /: 2 GiB trimmed".to_string()))).unwrap();
    assert!(ssd.starts_with("SSD — fstrim: /: 2 GiB trimmed. (TRIM removes it"));
    let r = CleanReport { written_bytes: 10 << 20, free_before: 0, margin: 2 << 20 };
    assert_eq!(
        clean_volume(Media::Unknown, Ok(CleanDone::Filled(r))).unwrap(),
        "unknown: wrote ~10 MiB of random fill then removed it (kept 2 MiB margin)."
    );
    assert_eq!(clean_volume(Media::Ssd, Err(FreeSpaceError::TrimNoOutput)), Err(FreeSpaceError::TrimNoOutput));
}

#[test]
fn drive_letters_for_trim() {
    assert_eq!(drive_letter(Some(r"\\?\D:\data")), "D");
    assert_eq!(drive_letter(Some(r"E:\")), "E");
    assert_eq!(drive_letter(Some("")), "");
    assert_eq!(drive_letter(None), "");
}

#[test]
fn tile_repeats_the_block_from_its_start() {
    let block: Vec<u8> = (0..4096u32).map(|i| (i % 251) as u8).collect();
    let v = tile(&block, 5000);
    assert_eq!(v.len(), 5000);
    assert_eq!(&v[..4096], &block[..]);
    assert_eq!(v[4096], block[0]);
    assert_eq!(v[4999], block[903]);
    assert!(tile(&block, 0).is_empty());
    assert_eq!(tile(&block, 10), block[..10].to_vec());
}
