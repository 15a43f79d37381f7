//! `sanitize` — how to wipe a whole drive for disposal. Nothing here runs anything: the real erase
//! is the drive's own hardware Sanitize or Secure Erase, which the user runs after reading the
//! caveats. This module works out the device's interface from what the system tools report and
//! writes the right commands and notes for it.
use crate::text::{
    cat, chars_eq_str, contains, lines, lines_of, starts_with, str_contains, string_of, strs, to_lower, trim, trim_chars, views,
};
use vstd::prelude::*;

verus! {

/// The interface a disk is attached by.
#[derive(Debug, Clone, Copy, PartialEq, Eq, Structural)]
pub enum Interface {
    Nvme,
    Ata,
    Unknown,
}

impl Interface {
    pub fn as_str(&self) -> (s: &'static str)
        ensures
            s@ == interface_name(*self),
    {
        match self {
            Interface::Nvme => "NVMe",
            Interface::Ata => "ATA/SATA",
            Interface::Unknown => "unknown",
        }
    }
}

/// The name an interface is shown by.
pub open spec fn interface_name(i: Interface) -> Seq<char> {
    match i {
        Interface::Nvme => "NVMe"@,
        Interface::Ata => "ATA/SATA"@,
        Interface::Unknown => "unknown"@,
    }
}

/// The advice for one device: the commands to run and the caveats.
pub struct Advice {
    pub device: String,
    pub interface: Interface,
    pub commands: Vec<String>,
    pub notes: Vec<String>,
}

pub open spec fn ata_frozen_note() -> Seq<char> {
    "ATA Secure Erase only runs when the drive is not \"frozen\". If `hdparm -I` says frozen, suspend and resume the machine, or hot-replug the drive, to clear it."@
}

pub open spec fn unknown_iface_note() -> Seq<char> {
    "Couldn't tell whether this is NVMe or ATA. Check `lsblk -o NAME,TRAN`, then use `nvme` for NVMe or `hdparm` for SATA."@
}

pub open spec fn purge_note() -> Seq<char> {
    "For an SSD this hardware erase is the disposal-grade wipe (NIST SP 800-88 Purge). An overwrite isn't."@
}

pub open spec fn runs_nothing_note() -> Seq<char> {
    "This command runs nothing. Review the steps and run them yourself."@
}

/// The commands for a Unix host and interface, naming device `dev`.
pub open spec fn unix_command_lines(iface: Interface, dev: Seq<char>) -> Seq<Seq<char>> {
    match iface {
        Interface::Nvme => seq![
            "sudo nvme id-ctrl "@ + dev + "                 # confirm Sanitize support (SANICAP)"@,
            "sudo nvme sanitize -a 2 "@ + dev + "           # block erase (use -a 4 for crypto erase if supported)"@,
            "sudo nvme sanitize-log "@ + dev + "            # watch it finish"@,
        ],
        Interface::Ata => seq![
            "sudo hdparm -I "@ + dev + "                    # confirm \"supported: enhanced erase\" and \"not frozen\""@,
            "sudo hdparm --user-master u --security-set-pass p "@ + dev,
            "sudo hdparm --user-master u --security-erase p "@ + dev + "   # the wipe"@,
        ],
        Interface::Unknown => Seq::empty(),
    }
}

/// A command that sets the ATA security password the erase needs.
pub open spec fn sets_ata_password(l: Seq<char>) -> bool {
    starts_with(l, "sudo hdparm --user-master u --security-set-pass "@)
}

/// A command that runs the ATA security erase.
pub open spec fn runs_ata_erase(l: Seq<char>) -> bool {
    starts_with(l, "sudo hdparm --user-master u --security-erase "@)
}

/// The ATA steps can be followed in order: they set the security password and run the erase,
/// and every command that sets the password comes before every command that erases (the drive
/// refuses an erase without a password set).
pub proof fn lemma_ata_password_before_erase(dev: Seq<char>)
    ensures
        exists|i: int| 0 <= i < unix_command_lines(Interface::Ata, dev).len()
            && sets_ata_password(#[trigger] unix_command_lines(Interface::Ata, dev)[i]),
        exists|j: int| 0 <= j < unix_command_lines(Interface::Ata, dev).len()
            && runs_ata_erase(#[trigger] unix_command_lines(Interface::Ata, dev)[j]),
        forall|i: int, j: int| 0 <= i < unix_command_lines(Interface::Ata, dev).len()
            && 0 <= j < unix_command_lines(Interface::Ata, dev).len()
            && sets_ata_password(#[trigger] unix_command_lines(Interface::Ata, dev)[i])
            && runs_ata_erase(#[trigger] unix_command_lines(Interface::Ata, dev)[j]) ==> i < j,
{
    reveal_strlit("sudo hdparm -I ");
    reveal_strlit("                    # confirm \"supported: enhanced erase\" and \"not frozen\"");
    reveal_strlit("sudo hdparm --user-master u --security-set-pass p ");
    reveal_strlit("sudo hdparm --user-master u --security-erase p ");
    reveal_strlit("   # the wipe");
    reveal_strlit("sudo hdparm --user-master u --security-set-pass ");
    reveal_strlit("sudo hdparm --user-master u --security-erase ");
    let c = unix_command_lines(Interface::Ata, dev);
    let sp = "sudo hdparm --user-master u --security-set-pass "@;
    let ep = "sudo hdparm --user-master u --security-erase "@;
    assert(c[1].subrange(0, sp.len() as int) =~= sp);
    assert(sets_ata_password(c[1]));
    assert(c[2].subrange(0, ep.len() as int) =~= ep);
    assert(runs_ata_erase(c[2]));
    assert(c[0][13] != sp[13] && c[0][13] != ep[13]);
    assert(!sets_ata_password(c[0]) && !runs_ata_erase(c[0])) by {
        if sets_ata_password(c[0]) {
            assert(c[0].subrange(0, sp.len() as int)[13] == sp[13]);
        }
        if runs_ata_erase(c[0]) {
            assert(c[0].subrange(0, ep.len() as int)[13] == ep[13]);
        }
    }
    assert(c[1][39] != ep[39] && c[2][39] != sp[39]);
    assert(!runs_ata_erase(c[1]) && !sets_ata_password(c[2])) by {
        if runs_ata_erase(c[1]) {
            assert(c[1].subrange(0, ep.len() as int)[39] == ep[39]);
        }
        if sets_ata_password(c[2]) {
            assert(c[2].subrange(0, sp.len() as int)[39] == sp[39]);
        }
    }
}

/// The notes for a Unix host and interface, naming device `dev`.
pub open spec fn unix_note_lines(iface: Interface, dev: Seq<char>) -> Seq<Seq<char>> {
    let first = seq!["This wipes the ENTIRE device "@ + dev + ", not one file. Back up anything you need first."@];
    let mid = match iface {
        Interface::Nvme => Seq::empty(),
        Interface::Ata => seq![ata_frozen_note()],
        Interface::Unknown => seq![unknown_iface_note()],
    };
    first + mid + seq![purge_note()]
}

/// `a` + `mid` + `b`.
fn cat3(a: &str, mid: &str, b: &str) -> (s: String)
    ensures
        s@ == a@ + mid@ + b@,
{
    let s = cat(a, mid);
    s.concat(b)
}

/// The exact commands for a Unix host, given the interface, and the notes that go with them.
pub fn unix_commands(iface: &Interface, dev: &str) -> (r: (Vec<String>, Vec<String>))
    ensures
        strs(r.0@) == unix_command_lines(*iface, dev@),
        strs(r.1@) == unix_note_lines(*iface, dev@),
        *iface == Interface::Ata ==> forall|i: int, j: int| 0 <= i < r.0@.len() && 0 <= j < r.0@.len()
            && sets_ata_password(#[trigger] r.0@[i]@) && runs_ata_erase(#[trigger] r.0@[j]@) ==> i < j,
        *iface == Interface::Ata ==> (exists|i: int| 0 <= i < r.0@.len() && sets_ata_password(#[trigger] r.0@[i]@))
            && (exists|j: int| 0 <= j < r.0@.len() && runs_ata_erase(#[trigger] r.0@[j]@)),
{
    let mut cmds: Vec<String> = Vec::new();
    let mut notes: Vec<String> = Vec::new();
    notes.push(cat3("This wipes the ENTIRE device ", dev, ", not one file. Back up anything you need first."));
    match iface {
        Interface::Nvme => {
            cmds.push(cat3("sudo nvme id-ctrl ", dev, "                 # confirm Sanitize support (SANICAP)"));
            cmds.push(cat3("sudo nvme sanitize -a 2 ", dev, "           # block erase (use -a 4 for crypto erase if supported)"));
            cmds.push(cat3("sudo nvme sanitize-log ", dev, "            # watch it finish"));
        },
        Interface::Ata => {
            notes.push(String::from_str("ATA Secure Erase only runs when the drive is not \"frozen\". If `hdparm -I` says frozen, suspend and resume the machine, or hot-replug the drive, to clear it."));
            cmds.push(cat3("sudo hdparm -I ", dev, "                    # confirm \"supported: enhanced erase\" and \"not frozen\""));
            cmds.push(cat("sudo hdparm --user-master u --security-set-pass p ", dev));
            cmds.push(cat3("sudo hdparm --user-master u --security-erase p ", dev, "   # the wipe"));
        },
        Interface::Unknown => {
            notes.push(String::from_str("Couldn't tell whether this is NVMe or ATA. Check `lsblk -o NAME,TRAN`, then use `nvme` for NVMe or `hdparm` for SATA."));
        },
    }
    notes.push(String::from_str("For an SSD this hardware erase is the disposal-grade wipe (NIST SP 800-88 Purge). An overwrite isn't."));
    proof {
        assert(strs(cmds@) =~= unix_command_lines(*iface, dev@));
        assert(strs(notes@) =~= unix_note_lines(*iface, dev@));
        if *iface == Interface::Ata {
            let c = unix_command_lines(Interface::Ata, dev@);
            lemma_ata_password_before_erase(dev@);
            assert forall|k: int| 0 <= k < cmds@.len() implies #[trigger] cmds@[k]@ == c[k] by {
                assert(strs(cmds@)[k] == cmds@[k]@);
            }
            let i = choose|i: int| 0 <= i < c.len() && sets_ata_password(#[trigger] c[i]);
            let j = choose|j: int| 0 <= j < c.len() && runs_ata_erase(#[trigger] c[j]);
            assert(cmds@[i]@ == c[i]);
            assert(cmds@[j]@ == c[j]);
        }
    }
    (cmds, notes)
}

/// The mount source `findmnt -no SOURCE` printed, trimmed; `None` when it printed nothing.
pub fn mount_source(findmnt_out: &str) -> (r: Option<String>)
    ensures
        match r {
            Some(s) => s@ == trim(findmnt_out@) && s@.len() > 0,
            None => trim(findmnt_out@).len() == 0,
        },
{
    let cs = crate::text::chars_of(findmnt_out);
    let t = trim_chars(cs.as_slice());
    if t.len() == 0 { None } else { Some(string_of(t.as_slice())) }
}

/// The whole-disk device: `/dev/<first line of lsblk PKNAME>` when that line is not blank,
/// otherwise the mount source itself.
pub open spec fn parent_device_spec(src: Seq<char>, pkname_out: Seq<char>) -> Seq<char> {
    let ls = lines(pkname_out);
    if ls.len() > 0 && trim(ls[0]).len() > 0 { "/dev/"@ + trim(ls[0]) } else { src }
}

pub fn parent_device(src: &str, pkname_out: &str) -> (d: String)
    ensures
        d@ == parent_device_spec(src@, pkname_out@),
{
    let ls = lines_of(pkname_out);
    proof {
        assert(views(ls@).len() == ls@.len());
    }
    if ls.len() > 0 {
        let t = trim_chars(ls[0].as_slice());
        proof {
            assert(views(ls@)[0] == ls@[0]@);
        }
        if t.len() > 0 {
            let n = string_of(t.as_slice());
            return cat("/dev/", n.as_str());
        }
    }
    String::from_str(src)
}

/// The interface a device name and its `lsblk TRAN` output point to.
pub open spec fn interface_spec(dev: Seq<char>, tran_lower: Seq<char>) -> Interface {
    if contains(dev, "nvme"@) || contains(tran_lower, "nvme"@) {
        Interface::Nvme
    } else if contains(tran_lower, "sata"@) || contains(tran_lower, "ata"@) || contains(dev, "/sd"@) {
        Interface::Ata
    } else {
        Interface::Unknown
    }
}

pub fn classify_interface(dev: &str, tran_out: &str) -> (i: Interface)
    ensures
        i == interface_spec(dev@, crate::text::unicode_lowercase(tran_out@)),
{
    let tran = to_lower(tran_out);
    if str_contains(dev, "nvme") || str_contains(tran.as_str(), "nvme") {
        Interface::Nvme
    } else if str_contains(tran.as_str(), "sata") || str_contains(tran.as_str(), "ata") || str_contains(dev, "/sd") {
        Interface::Ata
    } else {
        Interface::Unknown
    }
}

/// The device behind a mount and its interface, from what `findmnt -no SOURCE`, `lsblk -no PKNAME`
/// and `lsblk -ndo TRAN` printed: `("(unknown)", Unknown)` when the mount source is blank.
pub fn detect(findmnt_out: &str, pkname_out: &str, tran_out: &str) -> (r: (String, Interface))
    ensures
        trim(findmnt_out@).len() == 0 ==> r.0@ == "(unknown)"@ && r.1 == Interface::Unknown,
        trim(findmnt_out@).len() > 0 ==> {
            &&& r.0@ == parent_device_spec(trim(findmnt_out@), pkname_out@)
            &&& r.1 == interface_spec(r.0@, crate::text::unicode_lowercase(tran_out@))
        },
{
    match mount_source(findmnt_out) {
        None => (String::from_str("(unknown)"), Interface::Unknown),
        Some(src) => {
            let dev = parent_device(src.as_str(), pkname_out);
            let iface = classify_interface(dev.as_str(), tran_out);
            (dev, iface)
        },
    }
}

/// The advice for a Unix host: the device's commands and notes, then a reminder that nothing runs.
pub fn advise(device: String, interface: Interface) -> (a: Advice)
    ensures
        a.device@ == device@,
        a.interface == interface,
        strs(a.commands@) == unix_command_lines(interface, device@),
        strs(a.notes@) == unix_note_lines(interface, device@).push(runs_nothing_note()),
{
    let (commands, mut notes) = unix_commands(&interface, device.as_str());
    notes.push(String::from_str("This command runs nothing. Review the steps and run them yourself."));
    proof {
        assert(strs(notes@) =~= unix_note_lines(interface, device@).push(runs_nothing_note()));
    }
    Advice { device, interface, commands, notes }
}

/// `i` is the first of `ls` holding a `|`.
pub open spec fn first_bar_line(ls: Seq<Seq<char>>, i: int) -> bool {
    0 <= i < ls.len() && ls[i].contains('|') && forall|k: int| 0 <= k < i ==> !ls[k].contains('|')
}

/// `j` is the position of the first `|` of `l`.
pub open spec fn first_bar(l: Seq<char>, j: int) -> bool {
    0 <= j < l.len() && l[j] == '|' && forall|m: int| 0 <= m < j ==> l[m] != '|'
}

/// The disk number and lower-cased bus type from `Get-Disk` output: the first line holding `|`,
/// split at its first `|`, both halves trimmed; empty strings when no line holds `|`.
#[verifier::loop_isolation(false)]
pub fn parse_disk_bus(out: &str) -> (r: (String, String))
    ensures
        !(exists|i: int| first_bar_line(lines(out@), i)) ==> r.0@.len() == 0 && r.1@.len() == 0,
        (exists|i: int| first_bar_line(lines(out@), i)) ==> {
            let l = lines(out@)[choose|i: int| first_bar_line(lines(out@), i)];
            let j = choose|j: int| first_bar(l, j);
            &&& r.0@ == trim(l.subrange(0, j))
            &&& r.1@ == crate::text::unicode_lowercase(trim(l.subrange(j + 1, l.len() as int)))
        },
{
    let ls = lines_of(out);
    let mut i: usize = 0;
    while i < ls.len()
        invariant
            views(ls@) == lines(out@),
            i <= ls@.len(),
            forall|k: int| 0 <= k < i ==> !(#[trigger] lines(out@)[k]).contains('|'),
        decreases ls.len() - i,
    {
        let line = &ls[i];
        proof {
            assert(views(ls@)[i as int] == line@);
        }
        let mut j: usize = 0;
        while j < line.len()
            invariant
                j <= line@.len(),
                forall|m: int| 0 <= m < j ==> line@[m] != '|',
            decreases line.len() - j,
        {
            if line[j] == '|' {
                let mut a: Vec<char> = Vec::new();
                let mut k: usize = 0;
                while k < j
                    invariant
                        k <= j < line@.len(),
                        a@ == line@.subrange(0, k as int),
                    decreases j - k,
                {
                    a.push(line[k]);
                    k = k + 1;
                }
                let mut b: Vec<char> = Vec::new();
                let mut k2: usize = j + 1;
                while k2 < line.len()
                    invariant
                        j < line@.len(),
                        j + 1 <= k2 <= line@.len(),
                        b@ == line@.subrange(j + 1, k2 as int),
                    decreases line.len() - k2,
                {
                    b.push(line[k2]);
                    k2 = k2 + 1;
                }
                let at = trim_chars(a.as_slice());
                let bt = trim_chars(b.as_slice());
                let bs = string_of(bt.as_slice());
                proof {
                    assert(lines(out@)[i as int] == line@);
                    assert(line@[j as int] == '|');
                    assert(line@.contains('|'));
                    assert(first_bar_line(lines(out@), i as int));
                    let ci = choose|c: int| first_bar_line(lines(out@), c);
                    assert(ci == i as int);
                    assert(first_bar(line@, j as int));
                    let cj = choose|c: int| first_bar(line@, c);
                    assert(cj == j as int);
                }
                return (string_of(at.as_slice()), to_lower(bs.as_str()));
            }
            j = j + 1;
        }
        i = i + 1;
    }
    proof {
        assert forall|c: int| !first_bar_line(lines(out@), c) by {
            if 0 <= c < lines(out@).len() {
                assert(!lines(out@)[c].contains('|'));
            }
        }
    }
    (String::new(), String::new())
}

/// The interface a lower-cased `Get-Disk` bus type names.
pub open spec fn bus_interface(bus: Seq<char>) -> Interface {
    if contains(bus, "nvme"@) {
        Interface::Nvme
    } else if contains(bus, "sata"@) || contains(bus, "ata"@) {
        Interface::Ata
    } else {
        Interface::Unknown
    }
}

/// The device a Windows volume is advised for.
pub open spec fn windows_device(drive: Seq<char>, disk_no: Seq<char>, iface: Interface) -> Seq<char> {
    if disk_no.len() == 0 {
        "the disk behind "@ + drive
    } else {
        "PhysicalDrive"@ + disk_no + " ("@ + interface_name(iface) + ", behind "@ + drive + ")"@
    }
}

/// The device name the Linux commands use when run from a USB stick.
pub open spec fn placeholder(iface: Interface) -> Seq<char> {
    if iface == Interface::Nvme { "/dev/nvme0n1"@ } else { "/dev/sdX"@ }
}

pub open spec fn no_sanitize_note() -> Seq<char> {
    "Windows has no built-in whole-drive Sanitize command."@
}

pub open spec fn bitlocker_note() -> Seq<char> {
    "This drive is BitLocker-encrypted, so its contents are already ciphertext. Reformatting it and removing the key effectively wipes the whole drive in one step."@
}

pub open spec fn maker_tool_note() -> Seq<char> {
    "For a real hardware erase, use the drive maker's secure-erase tool (Samsung Magician, WD Dashboard, and so on), or boot a Linux USB and run the commands below."@
}

/// The notes on Windows: no built-in Sanitize, BitLocker if on, the maker's tool or a Linux USB,
/// then the Linux notes for the placeholder device and the reminder that nothing runs.
pub open spec fn windows_note_lines(iface: Interface, bitlocker: bool) -> Seq<Seq<char>> {
    seq![no_sanitize_note()] + (if bitlocker { seq![bitlocker_note()] } else { Seq::empty() })
        + seq![maker_tool_note()] + unix_note_lines(iface, placeholder(iface)).push(runs_nothing_note())
}

/// On Windows the notes open with the one that Windows has no built-in Sanitize, and carry the
/// BitLocker note exactly when `manage-bde` reported protection on.
pub proof fn lemma_windows_bitlocker_note(iface: Interface, bitlocker: bool)
    ensures
        windows_note_lines(iface, bitlocker)[0] == no_sanitize_note(),
        windows_note_lines(iface, bitlocker).contains(bitlocker_note()) <==> bitlocker,
{
    reveal_strlit("Windows has no built-in whole-drive Sanitize command.");
    reveal_strlit("This drive is BitLocker-encrypted, so its contents are already ciphertext. Reformatting it and removing the key effectively wipes the whole drive in one step.");
    reveal_strlit("For a real hardware erase, use the drive maker's secure-erase tool (Samsung Magician, WD Dashboard, and so on), or boot a Linux USB and run the commands below.");
    reveal_strlit("This wipes the ENTIRE device ");
    reveal_strlit("ATA Secure Erase only runs when the drive is not \"frozen\". If `hdparm -I` says frozen, suspend and resume the machine, or hot-replug the drive, to clear it.");
    reveal_strlit("Couldn't tell whether this is NVMe or ATA. Check `lsblk -o NAME,TRAN`, then use `nvme` for NVMe or `hdparm` for SATA.");
    reveal_strlit("For an SSD this hardware erase is the disposal-grade wipe (NIST SP 800-88 Purge). An overwrite isn't.");
    reveal_strlit("This command runs nothing. Review the steps and run them yourself.");
    let notes = windows_note_lines(iface, bitlocker);
    let first = "This wipes the ENTIRE device "@ + placeholder(iface) + ", not one file. Back up anything you need first."@;
    assert(first[5] == 'w');
    if bitlocker {
        assert(notes[1] == bitlocker_note());
    } else {
        assert forall|k: int| 0 <= k < notes.len() implies (#[trigger] notes[k])[5] != bitlocker_note()[5] by {
            assert(notes[k] == no_sanitize_note() || notes[k] == maker_tool_note() || notes[k] == first
                || notes[k] == ata_frozen_note() || notes[k] == unknown_iface_note() || notes[k] == purge_note()
                || notes[k] == runs_nothing_note());
        }
    }
}

/// The advice on Windows, where there is no built-in whole-drive Sanitize: the maker's tool or a
/// Linux USB running the commands below (with a placeholder device name). `disk_no` and `bus` are
/// what [`parse_disk_bus`] read; the drive is BitLocker-protected when `manage-bde -status` says
/// "protection on".
pub fn advise_windows(drive: &str, disk_no: &str, bus: &str, bde_out: &str) -> (a: Advice)
    ensures
        a.interface == bus_interface(bus@),
        a.device@ == windows_device(drive@, disk_no@, a.interface),
        strs(a.commands@) == unix_command_lines(a.interface, placeholder(a.interface)),
        strs(a.notes@) == windows_note_lines(a.interface,
            contains(crate::text::unicode_lowercase(bde_out@), "protection on"@)),
{
    let low = to_lower(bde_out);
    let bitlocker = str_contains(low.as_str(), "protection on");
    let interface = if str_contains(bus, "nvme") {
        Interface::Nvme
    } else if str_contains(bus, "sata") || str_contains(bus, "ata") {
        Interface::Ata
    } else {
        Interface::Unknown
    };
    let device = if disk_no.is_empty() {
        cat("the disk behind ", drive)
    } else {
        let s = cat("PhysicalDrive", disk_no);
        let s = s.concat(" (");
        let s = s.concat(interface.as_str());
        let s = s.concat(", behind ");
        let s = s.concat(drive);
        s.concat(")")
    };
    let mut notes: Vec<String> = Vec::new();
    notes.push(String::from_str("Windows has no built-in whole-drive Sanitize command."));
    if bitlocker {
        notes.push(String::from_str("This drive is BitLocker-encrypted, so its contents are already ciphertext. Reformatting it and removing the key effectively wipes the whole drive in one step."));
    }
    notes.push(String::from_str("For a real hardware erase, use the drive maker's secure-erase tool (Samsung Magician, WD Dashboard, and so on), or boot a Linux USB and run the commands below."));
    let ghost head = strs(notes@);
    let place = if interface == Interface::Nvme { "/dev/nvme0n1" } else { "/dev/sdX" };
    let (commands, more) = unix_commands(&interface, place);
    let mut more = more;
    more.push(String::from_str("This command runs nothing. Review the steps and run them yourself."));
    let mut k: usize = 0;
    while k < more.len()
        invariant
            k <= more@.len(),
            strs(notes@) == head + strs(more@).subrange(0, k as int),
        decreases more.len() - k,
    {
        let ghost before = notes@;
        let c = more[k].clone();
        notes.push(c);
        proof {
            assert(strs(notes@) =~= strs(before).push(more@[k as int]@));
            assert(strs(more@).subrange(0, k + 1) =~= strs(more@).subrange(0, k as int).push(more@[k as int]@));
            assert(strs(notes@) =~= head + strs(more@).subrange(0, k + 1));
        }
        k = k + 1;
    }
    proof {
        assert(strs(more@).subrange(0, more@.len() as int) =~= strs(more@));
        assert(strs(more@) =~= unix_note_lines(interface, placeholder(interface)).push(runs_nothing_note()));
        assert(strs(notes@) =~= windows_note_lines(interface, bitlocker));
    }
    Advice { device, interface, commands, notes }
}

} // verus!
