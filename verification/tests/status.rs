use secure_delete::detect::{last_field_exec, probe, probe_windows, Media, Probe};
use secure_delete::status::{
    detect_fde, detect_fde_windows, detect_trim, detect_trim_unix, drive_of, fde_from_lsblk, fde_from_manage_bde, protection_on_value,
    status, Fde,
};

fn fde(on: bool, scope: &str) -> Option<Fde> {
    Some(Fde { backend: "BitLocker".to_string(), protection_on: on, scope: scope.to_string() })
}

#[test]
fn hdd_advice_says_overwrite_works() {
    let s = status(Probe { media: Media::Hdd, filesystem: "ext4".to_string() }, None, "x".to_string());
    assert_eq!(s.advice.len(), 1);
    assert!(s.advice[0].starts_with("HDD: overwriting works here"));
    assert_eq!(s.filesystem, "ext4");
}

#[test]
fn ssd_without_encryption_points_at_fde() {
    let s = status(Probe { media: Media::Ssd, filesystem: String::new() }, None, "disabled".to_string());
    assert_eq!(s.advice.len(), 3);
    assert!(s.advice[0].contains("No full-disk encryption detected"));
    assert!(s.advice[1].contains("TRIM is disabled"));
    assert!(s.advice[2].starts_with("On SSD, `clean` issues TRIM"));
    assert!(!s.advice.iter().any(|a| a.to_lowercase().contains("unrecoverable")));
}

#[test]
fn ssd_encryption_states() {
    let on = status(Probe { media: Media::Unknown, filesystem: String::new() }, fde(true, "full"), "enabled".to_string());
    assert_eq!(on.advice.len(), 4);
    assert!(on.advice[0].contains("Full-disk encryption is ON"));
    let used = status(Probe { media: Media::Ssd, filesystem: String::new() }, fde(true, "used-space-only"), "enabled".to_string());
    assert_eq!(used.advice.len(), 2);
    assert!(used.advice[0].contains("Used-Space-Only"));
    let off = status(Probe { media: Media::Ssd, filesystem: String::new() }, fde(false, "full"), "unknown".to_string());
    assert!(off.advice[0].contains("Protection is OFF"));
}

#[test]
fn lsblk_crypt_means_luks() {
    let f = fde_from_lsblk("part\ncrypt\ndisk\n").unwrap();
    assert_eq!(f.backend, "dm-crypt/LUKS");
    assert!(f.protection_on);
    assert_eq!(f.scope, "full");
    assert!(fde_from_lsblk("part\ndisk\n").is_none());
    assert!(fde_from_lsblk("  crypt  ").is_some());
}

#[test]
fn manage_bde_parsing() {
    let out = "Volume C: []\r\n    Conversion Status:    Used Space Only Encrypted\r\n    Protection Status:    Protection On\r\n";
    let f = fde_from_manage_bde(out).unwrap();
    assert_eq!(f.backend, "BitLocker");
    assert!(f.protection_on);
    assert_eq!(f.scope, "used-space-only");
    let g = fde_from_manage_bde("    Conversion Status:    Fully Encrypted\n").unwrap();
    assert_eq!(g.scope, "full");
    assert!(!g.protection_on);
    assert!(fde_from_manage_bde("").is_none());
    assert!(fde_from_manage_bde("ERROR: access denied\n").is_none());
}

#[test]
fn fsutil_trim_state() {
    assert_eq!(detect_trim("NTFS DisableDeleteNotify = 0  (Allows TRIM)"), "enabled");
    assert_eq!(detect_trim("NTFS DisableDeleteNotify = 1"), "disabled");
    assert_eq!(detect_trim(""), "unknown");
    assert_eq!(detect_trim_unix(), "see `lsblk -D` / mount discard / fstrim");
}

#[test]
fn drive_letters() {
    assert_eq!(drive_of(Some(r"\\?\C:\Users")), "C:");
    assert_eq!(drive_of(Some(r"D:\x")), "D:");
    assert_eq!(drive_of(None), "");
}

#[test]
fn unix_probe_parsing() {
    let p = probe("ext4\n", "0\n");
    assert_eq!(p.media, Media::Ssd);
    assert_eq!(p.filesystem, "ext4");
    assert_eq!(probe("", " 1 \n").media, Media::Hdd);
    assert_eq!(probe("", "").media, Media::Unknown);
    assert_eq!(probe("", "2\n").media, Media::Unknown);
    assert_eq!(Media::Ssd.as_str(), "ssd");
}

#[test]
fn windows_probe_parsing() {
    let p = probe_windows("M=SSD\r\nF=NTFS\r\n");
    assert_eq!(p.media, Media::Ssd);
    assert_eq!(p.filesystem, "NTFS");
    assert_eq!(probe_windows("  M= hdd \n").media, Media::Hdd);
    assert_eq!(probe_windows("M=\nF=\n").media, Media::Unknown);
    assert_eq!(last_field_exec("F=a\nF=b\n", "F="), "b");
}

#[test]
fn fde_detection_needs_a_source_and_a_drive() {
    assert!(detect_fde("", "crypt\n").is_none());
    assert!(detect_fde("/dev/mapper/root\n", "crypt\npart\n").is_some());
    assert!(detect_fde("/dev/sda1\n", "part\ndisk\n").is_none());
    let bde = "    Protection Status:    Protection On\n";
    assert!(detect_fde_windows("C", bde).is_none());
    assert!(detect_fde_windows("C:", bde).unwrap().protection_on);
    assert!(detect_fde_windows("C:", "  \n").is_none());
}

#[test]
fn no_advice_ever_says_unrecoverable() {
    let fdes = [None, Some((true, "full")), Some((true, "used-space-only")), Some((false, "")), Some((true, ""))];
    for media in [Media::Hdd, Media::Ssd, Media::Unknown] {
        for f in fdes {
            for trim in ["enabled", "disabled", "unknown", "see `lsblk -D` / mount discard / fstrim"] {
                let fde = f.map(|(on, scope)| Fde { backend: "x".to_string(), protection_on: on, scope: scope.to_string() });
                let s = status(Probe { media, filesystem: String::new() }, fde, trim.to_string());
                assert!(!s.advice.is_empty());
                for a in &s.advice {
                    assert!(!a.to_lowercase().contains("unrecoverable"), "{a}");
                }
            }
        }
    }
}

#[test]
fn protection_off_reads_as_off() {
    let out = "Volume C: [OS]\r\n    Conversion Status:    Fully Encrypted\r\n    Protection Status:    Protection Off\r\n";
    let f = fde_from_manage_bde(out).unwrap();
    assert_eq!(f.backend, "BitLocker");
    assert!(!f.protection_on);
    assert_eq!(f.scope, "full");
    let w = detect_fde_windows("C:", out).unwrap();
    assert!(!w.protection_on);
    let s = status(Probe { media: Media::Ssd, filesystem: String::new() }, Some(w), "enabled".to_string());
    assert!(s.advice.iter().any(|a| a.contains("Protection is OFF")));
    assert!(fde_from_manage_bde("    Protection Status:    Protection Off (1 reboots left)\n").map(|f| !f.protection_on).unwrap());
    assert!(fde_from_manage_bde("    Protection Status:    Protection On\n").unwrap().protection_on);
}

#[test]
fn protection_value_is_read_as_a_word() {
    assert!(protection_on_value("    Protection On"));
    assert!(protection_on_value("PROTECTION ON "));
    assert!(protection_on_value("Protection On (TPM)"));
    assert!(!protection_on_value("    Protection Off"));
    assert!(!protection_on_value("Protection Off (2 reboots left)"));
    assert!(!protection_on_value("Protection Unknown"));
    assert!(!protection_on_value("Protection Onward"));
    assert!(!protection_on_value(""));
}
