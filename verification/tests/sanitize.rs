use secure_delete::sanitize::{
    advise, advise_windows, classify_interface, detect, mount_source, parent_device, parse_disk_bus, unix_commands, Interface,
};

#[test]
fn nvme_commands_use_nvme_sanitize() {
    let (cmds, _notes) = unix_commands(&Interface::Nvme, "/dev/nvme0n1");
    assert!(cmds.iter().any(|c| c.contains("nvme sanitize -a 2 /dev/nvme0n1")));
    assert!(cmds.iter().any(|c| c.contains("nvme sanitize-log")));
}

#[test]
fn ata_commands_use_hdparm_and_warn_about_frozen() {
    let (cmds, notes) = unix_commands(&Interface::Ata, "/dev/sda");
    assert!(cmds.iter().any(|c| c.contains("hdparm --user-master u --security-erase p /dev/sda")));
    assert!(notes.iter().any(|n| n.to_lowercase().contains("frozen")));
}

#[test]
fn unknown_interface_gives_no_commands_but_explains() {
    let (cmds, notes) = unix_commands(&Interface::Unknown, "/dev/foo");
    assert!(cmds.is_empty());
    assert!(notes.iter().any(|n| n.contains("NVMe or ATA")));
}

#[test]
fn nvme_commands_exact_text() {
    let (cmds, notes) = unix_commands(&Interface::Nvme, "/dev/nvme0n1");
    assert_eq!(cmds.len(), 3);
    assert_eq!(cmds[0], "sudo nvme id-ctrl /dev/nvme0n1                 # confirm Sanitize support (SANICAP)");
    assert_eq!(notes.len(), 2);
    assert_eq!(notes[0], "This wipes the ENTIRE device /dev/nvme0n1, not one file. Back up anything you need first.");
    assert!(notes[1].contains("NIST SP 800-88 Purge"));
}

#[test]
fn interface_names() {
    assert_eq!(Interface::Nvme.as_str(), "NVMe");
    assert_eq!(Interface::Ata.as_str(), "ATA/SATA");
    assert_eq!(Interface::Unknown.as_str(), "unknown");
}

#[test]
fn mount_source_trims_and_rejects_blank() {
    assert_eq!(mount_source("  /dev/sda2\n").unwrap(), "/dev/sda2");
    assert!(mount_source(" \n").is_none());
    assert!(mount_source("").is_none());
}

#[test]
fn parent_device_prefers_pkname() {
    assert_eq!(parent_device("/dev/nvme0n1p2", "nvme0n1\n"), "/dev/nvme0n1");
    assert_eq!(parent_device("/dev/sda2", "  sda  \nsdb\n"), "/dev/sda");
    assert_eq!(parent_device("/dev/mapper/root", "   \n"), "/dev/mapper/root");
    assert_eq!(parent_device("/dev/vda", ""), "/dev/vda");
}

#[test]
fn interface_classification() {
    assert_eq!(classify_interface("/dev/nvme0n1", ""), Interface::Nvme);
    assert_eq!(classify_interface("/dev/sdb", "USB\n"), Interface::Ata);
    assert_eq!(classify_interface("/dev/vda", "SATA\n"), Interface::Ata);
    assert_eq!(classify_interface("/dev/vda", "NVME"), Interface::Nvme);
    assert_eq!(classify_interface("/dev/vda", "virtio"), Interface::Unknown);
}

#[test]
fn unix_advice_adds_runs_nothing_note() {
    let a = advise("/dev/sda".to_string(), Interface::Ata);
    assert_eq!(a.device, "/dev/sda");
    assert_eq!(a.interface, Interface::Ata);
    assert_eq!(a.commands.len(), 3);
    assert_eq!(a.notes.last().unwrap(), "This command runs nothing. Review the steps and run them yourself.");
    assert_eq!(a.notes.len(), 4);
}

#[test]
fn disk_bus_parsing() {
    let (n, b) = parse_disk_bus("junk\r\n 0 | NVMe \r\n1|SATA\r\n");
    assert_eq!(n, "0");
    assert_eq!(b, "nvme");
    let (n, b) = parse_disk_bus("nothing here\n");
    assert_eq!(n, "");
    assert_eq!(b, "");
}

#[test]
fn windows_advice() {
    let a = advise_windows("C:", "0", "nvme", "Protection Status:    Protection On");
    assert_eq!(a.interface, Interface::Nvme);
    assert_eq!(a.device, "PhysicalDrive0 (NVMe, behind C:)");
    assert!(a.commands.iter().any(|c| c.contains("/dev/nvme0n1")));
    assert!(a.notes.iter().any(|n| n.contains("BitLocker-encrypted")));
    let b = advise_windows("D:", "", "usb", "");
    assert_eq!(b.interface, Interface::Unknown);
    assert_eq!(b.device, "the disk behind D:");
    assert!(b.commands.is_empty());
    assert!(!b.notes.iter().any(|n| n.contains("BitLocker")));
    let c = advise_windows("E:", "2", "sata", "Protection Off");
    assert_eq!(c.interface, Interface::Ata);
    assert!(c.commands.iter().any(|x| x.contains("/dev/sdX")));
}

#[test]
fn detect_finds_device_and_interface() {
    assert_eq!(detect("", "sda\n", "sata\n"), ("(unknown)".to_string(), Interface::Unknown));
    assert_eq!(detect("/dev/nvme0n1p2\n", "nvme0n1\n", "nvme\n"), ("/dev/nvme0n1".to_string(), Interface::Nvme));
    assert_eq!(detect("/dev/sda2\n", "sda\n", ""), ("/dev/sda".to_string(), Interface::Ata));
    assert_eq!(detect("/dev/vda1\n", "\n", "virtio\n"), ("/dev/vda1".to_string(), Interface::Unknown));
}

#[test]
fn windows_advice_notes_in_order() {
    let a = advise_windows("C:", "", "ssd", "PROTECTION ON\n");
    assert_eq!(a.notes.len(), 7);
    assert_eq!(a.notes[0], "Windows has no built-in whole-drive Sanitize command.");
    assert!(a.notes[1].starts_with("This drive is BitLocker-encrypted"));
    assert!(a.notes[2].starts_with("For a real hardware erase"));
    assert_eq!(a.notes[3], "This wipes the ENTIRE device /dev/sdX, not one file. Back up anything you need first.");
    assert!(a.notes[4].contains("NVMe or ATA"));
    assert_eq!(a.notes[6], "This command runs nothing. Review the steps and run them yourself.");
}
