//! `status` — the honest per-volume advisor.
//!
//! It tells the truth about whether deleted data on a volume is protected: the media type, whether
//! the volume is full-disk-encrypted (the real SSD foundation), and whether TRIM is on — then it
//! advises. On an SSD overwriting is futile; encryption is what protects deleted-file residue.
use crate::detect::{Media, Probe};
use crate::text::{
    after, chars_eq_str, chars_of, contains, lines, lines_of, starts_with, str_contains, str_eq, string_of, strip_prefix_chars,
    strs, to_lower, trim, trim_chars, unicode_lowercase, views,
};
use vstd::prelude::*;

verus! {

/// Full-disk encryption found on a volume. `scope` is "full", "used-space-only", or "" if unknown.
pub struct Fde {
    pub backend: String,
    pub protection_on: bool,
    pub scope: String,
}

/// The advisor's report for a volume.
pub struct VolStatus {
    pub media: Media,
    pub filesystem: String,
    pub fde: Option<Fde>,
    pub trim: String,
    pub advice: Vec<String>,
}

pub open spec fn hdd_advice() -> Seq<char> {
    "HDD: overwriting works here — `clean` and `overwrite` reliably destroy the bytes."@
}

pub open spec fn fde_on_advice() -> Seq<Seq<char>> {
    seq![
        "✓ Full-disk encryption is ON — deleted-file residue is ciphertext at rest (protected when the device is off/locked)."@,
        "For quiet delete, keep TRIM enabled. For disposal, crypto-erase the volume key + run the drive's hardware Sanitize (NVMe/ATA)."@,
        "Note: encryption does NOT protect a running, UNLOCKED system — for a per-file guarantee use the crypto-erase vault."@,
    ]
}

pub open spec fn used_space_advice() -> Seq<char> {
    "⚠ Encryption is 'Used-Space-Only' — old free space may still be plaintext. Switch to Full encryption, or crypto-erase the whole volume for disposal."@
}

pub open spec fn protection_off_advice() -> Seq<char> {
    "⚠ Encryption is present but Protection is OFF/suspended (a plaintext clear-key may be on the volume). Resume protection."@
}

pub open spec fn no_fde_advice() -> Seq<char> {
    "⚠ No full-disk encryption detected. On an SSD, overwriting CANNOT reliably reach deleted-file residue in the flash — enabling full-disk encryption (BitLocker / LUKS / FileVault) is the only reliable way to protect it."@
}

pub open spec fn trim_disabled_advice() -> Seq<char> {
    "⚠ TRIM is disabled — deleted data lingers on the drive longer. Enable it (Windows: `fsutil behavior set DisableDeleteNotify 0`)."@
}

pub open spec fn ssd_trim_advice() -> Seq<char> {
    "On SSD, `clean` issues TRIM (removes data from the host read path) rather than a wear-inducing overwrite. TRIM is not a physically-verifiable erase — the encryption above is what makes the residue safe."@
}

/// The encryption part of the advice for flash or unknown media.
pub open spec fn fde_advice(fde: Option<(bool, Seq<char>)>) -> Seq<Seq<char>> {
    match fde {
        Some((on, scope)) => if on && scope != "used-space-only"@ {
            fde_on_advice()
        } else if on {
            seq![used_space_advice()]
        } else {
            seq![protection_off_advice()]
        },
        None => seq![no_fde_advice()],
    }
}

/// The whole advice list for a volume.
pub open spec fn advice_spec(media: Media, fde: Option<(bool, Seq<char>)>, trim_state: Seq<char>) -> Seq<Seq<char>> {
    match media {
        Media::Hdd => seq![hdd_advice()],
        _ => fde_advice(fde) + (if trim_state == "disabled"@ { seq![trim_disabled_advice()] } else { Seq::empty() })
            + seq![ssd_trim_advice()],
    }
}

/// `c` is the ASCII letter `l` (given in lower case) in either case.
pub open spec fn same_letter(c: char, l: char) -> bool {
    c == l || c as int == l as int - 32
}

/// `s` spells "unrecoverable", in any mix of ASCII case, at position `i`.
pub open spec fn says_unrecoverable_at(s: Seq<char>, i: int) -> bool {
    &&& 0 <= i
    &&& i + 13 <= s.len()
    &&& forall|k: int| 0 <= k < 13 ==> #[trigger] same_letter(s[i + k], "unrecoverable"@[k])
}

/// `s` says "unrecoverable" somewhere, in any mix of ASCII case.
pub open spec fn says_unrecoverable(s: Seq<char>) -> bool {
    exists|i: int| says_unrecoverable_at(s, i)
}

proof fn lemma_not_unrecoverable(s: Seq<char>)
    requires
        forall|i: int| 0 <= i && i + 3 <= s.len() ==> !(same_letter(s[i], 'u') && same_letter(s[i + 1], 'n') && same_letter(s[i + 2], 'r')),
    ensures
        !says_unrecoverable(s),
{
    reveal_strlit("unrecoverable");
    assert forall|i: int| !says_unrecoverable_at(s, i) by {
        if says_unrecoverable_at(s, i) {
            assert(same_letter(s[i + 0], "unrecoverable"@[0]));
            assert(same_letter(s[i + 1], "unrecoverable"@[1]));
            assert(same_letter(s[i + 2], "unrecoverable"@[2]));
        }
    }
}

/// No line of the advice ever claims data is "unrecoverable": every claim is scoped to what the
/// mechanism does on the media at hand.
pub proof fn lemma_advice_never_unrecoverable(media: Media, fde: Option<(bool, Seq<char>)>, trim_state: Seq<char>)
    ensures
        forall|k: int| 0 <= k < advice_spec(media, fde, trim_state).len() ==> !says_unrecoverable(#[trigger] advice_spec(media, fde, trim_state)[k]),
{
    reveal_strlit("HDD: overwriting works here — `clean` and `overwrite` reliably destroy the bytes.");
    reveal_strlit("✓ Full-disk encryption is ON — deleted-file residue is ciphertext at rest (protected when the device is off/locked).");
    reveal_strlit("For quiet delete, keep TRIM enabled. For disposal, crypto-erase the volume key + run the drive's hardware Sanitize (NVMe/ATA).");
    reveal_strlit("Note: encryption does NOT protect a running, UNLOCKED system — for a per-file guarantee use the crypto-erase vault.");
    reveal_strlit("⚠ Encryption is 'Used-Space-Only' — old free space may still be plaintext. Switch to Full encryption, or crypto-erase the whole volume for disposal.");
    reveal_strlit("⚠ Encryption is present but Protection is OFF/suspended (a plaintext clear-key may be on the volume). Resume protection.");
    reveal_strlit("⚠ No full-disk encryption detected. On an SSD, overwriting CANNOT reliably reach deleted-file residue in the flash — enabling full-disk encryption (BitLocker / LUKS / FileVault) is the only reliable way to protect it.");
    reveal_strlit("⚠ TRIM is disabled — deleted data lingers on the drive longer. Enable it (Windows: `fsutil behavior set DisableDeleteNotify 0`).");
    reveal_strlit("On SSD, `clean` issues TRIM (removes data from the host read path) rather than a wear-inducing overwrite. TRIM is not a physically-verifiable erase — the encryption above is what makes the residue safe.");
    lemma_not_unrecoverable(hdd_advice());
    lemma_not_unrecoverable(fde_on_advice()[0]);
    lemma_not_unrecoverable(fde_on_advice()[1]);
    lemma_not_unrecoverable(fde_on_advice()[2]);
    lemma_not_unrecoverable(used_space_advice());
    lemma_not_unrecoverable(protection_off_advice());
    lemma_not_unrecoverable(no_fde_advice());
    lemma_not_unrecoverable(trim_disabled_advice());
    lemma_not_unrecoverable(ssd_trim_advice());
}

/// On flash or unknown media the advice warns that TRIM is disabled exactly when the TRIM state
/// reads `disabled`, whatever the encryption finding; it always ends with the SSD TRIM line.
pub proof fn lemma_trim_warning_iff_disabled(media: Media, fde: Option<(bool, Seq<char>)>, trim_state: Seq<char>)
    requires
        media != Media::Hdd,
    ensures
        advice_spec(media, fde, trim_state).contains(trim_disabled_advice()) <==> trim_state == "disabled"@,
        advice_spec(media, fde, trim_state).last() == ssd_trim_advice(),
{
    reveal_strlit("✓ Full-disk encryption is ON — deleted-file residue is ciphertext at rest (protected when the device is off/locked).");
    reveal_strlit("For quiet delete, keep TRIM enabled. For disposal, crypto-erase the volume key + run the drive's hardware Sanitize (NVMe/ATA).");
    reveal_strlit("Note: encryption does NOT protect a running, UNLOCKED system — for a per-file guarantee use the crypto-erase vault.");
    reveal_strlit("⚠ Encryption is 'Used-Space-Only' — old free space may still be plaintext. Switch to Full encryption, or crypto-erase the whole volume for disposal.");
    reveal_strlit("⚠ Encryption is present but Protection is OFF/suspended (a plaintext clear-key may be on the volume). Resume protection.");
    reveal_strlit("⚠ No full-disk encryption detected. On an SSD, overwriting CANNOT reliably reach deleted-file residue in the flash — enabling full-disk encryption (BitLocker / LUKS / FileVault) is the only reliable way to protect it.");
    reveal_strlit("⚠ TRIM is disabled — deleted data lingers on the drive longer. Enable it (Windows: `fsutil behavior set DisableDeleteNotify 0`).");
    reveal_strlit("On SSD, `clean` issues TRIM (removes data from the host read path) rather than a wear-inducing overwrite. TRIM is not a physically-verifiable erase — the encryption above is what makes the residue safe.");
    let a = advice_spec(media, fde, trim_state);
    let f = fde_advice(fde);
    if trim_state == "disabled"@ {
        assert(a[f.len() as int] == trim_disabled_advice());
    } else {
        assert(a =~= f + seq![ssd_trim_advice()]);
        assert forall|k: int| 0 <= k < a.len() implies (#[trigger] a[k])[2] != trim_disabled_advice()[2] by {
            if k < f.len() {
                assert(a[k] == f[k]);
            }
        }
    }
}

/// Everything an encryption finding says: backend, protection, scope.
pub open spec fn fde_found(f: Option<Fde>) -> Option<(Seq<char>, bool, Seq<char>)> {
    match f {
        Some(x) => Some((x.backend@, x.protection_on, x.scope@)),
        None => None,
    }
}

/// The part of an encryption finding the advice depends on.
pub open spec fn fde_view(f: Option<Fde>) -> Option<(bool, Seq<char>)> {
    match f {
        Some(x) => Some((x.protection_on, x.scope@)),
        None => None,
    }
}

/// The advisor: given what detection found, the encryption finding and the TRIM state, the report
/// and its advice.
pub fn status(p: Probe, fde: Option<Fde>, trim_state: String) -> (s: VolStatus)
    ensures
        s.media == p.media,
        s.filesystem@ == p.filesystem@,
        fde_view(s.fde) == fde_view(fde),
        fde_found(s.fde) == fde_found(fde),
        s.trim@ == trim_state@,
        strs(s.advice@) == advice_spec(p.media, fde_view(fde), trim_state@),
        forall|k: int| 0 <= k < s.advice@.len() ==> !says_unrecoverable(#[trigger] s.advice@[k]@),
        p.media != Media::Hdd ==> (strs(s.advice@).contains(trim_disabled_advice()) <==> trim_state@ == "disabled"@),
{
    let mut advice: Vec<String> = Vec::new();
    match p.media {
        Media::Hdd => {
            advice.push(String::from_str("HDD: overwriting works here — `clean` and `overwrite` reliably destroy the bytes."));
        },
        _ => {
            match &fde {
                Some(f) => {
                    let used_only = str_eq(f.scope.as_str(), "used-space-only");
                    if f.protection_on && !used_only {
                        advice.push(String::from_str("✓ Full-disk encryption is ON — deleted-file residue is ciphertext at rest (protected when the device is off/locked)."));
                        advice.push(String::from_str("For quiet delete, keep TRIM enabled. For disposal, crypto-erase the volume key + run the drive's hardware Sanitize (NVMe/ATA)."));
                        advice.push(String::from_str("Note: encryption does NOT protect a running, UNLOCKED system — for a per-file guarantee use the crypto-erase vault."));
                    } else if f.protection_on {
                        advice.push(String::from_str("⚠ Encryption is 'Used-Space-Only' — old free space may still be plaintext. Switch to Full encryption, or crypto-erase the whole volume for disposal."));
                    } else {
                        advice.push(String::from_str("⚠ Encryption is present but Protection is OFF/suspended (a plaintext clear-key may be on the volume). Resume protection."));
                    }
                },
                None => {
                    advice.push(String::from_str("⚠ No full-disk encryption detected. On an SSD, overwriting CANNOT reliably reach deleted-file residue in the flash — enabling full-disk encryption (BitLocker / LUKS / FileVault) is the only reliable way to protect it."));
                },
            }
            if str_eq(trim_state.as_str(), "disabled") {
                advice.push(String::from_str("⚠ TRIM is disabled — deleted data lingers on the drive longer. Enable it (Windows: `fsutil behavior set DisableDeleteNotify 0`)."));
            }
            advice.push(String::from_str("On SSD, `clean` issues TRIM (removes data from the host read path) rather than a wear-inducing overwrite. TRIM is not a physically-verifiable erase — the encryption above is what makes the residue safe."));
        },
    }
    proof {
        assert(strs(advice@) =~= advice_spec(p.media, fde_view(fde), trim_state@));
        lemma_advice_never_unrecoverable(p.media, fde_view(fde), trim_state@);
        if p.media != Media::Hdd {
            lemma_trim_warning_iff_disabled(p.media, fde_view(fde), trim_state@);
        }
        assert forall|k: int| 0 <= k < advice@.len() implies !says_unrecoverable(#[trigger] advice@[k]@) by {
            assert(advice@[k]@ == strs(advice@)[k]);
        }
    }
    VolStatus { media: p.media, filesystem: p.filesystem, fde, trim: trim_state, advice }
}

/// On Unix: dm-crypt/LUKS when any line of `lsblk -nso TYPE` (the device and its parents) is
/// `crypt`.
pub fn fde_from_lsblk(types_out: &str) -> (r: Option<Fde>)
    ensures
        r is Some <==> exists|k: int| 0 <= k < lines(types_out@).len() && trim(#[trigger] lines(types_out@)[k]) == "crypt"@,
        r matches Some(f) ==> f.backend@ == "dm-crypt/LUKS"@ && f.protection_on && f.scope@ == "full"@,
{
    let ls = lines_of(types_out);
    let mut i: usize = 0;
    while i < ls.len()
        invariant
            views(ls@) == lines(types_out@),
            i <= ls@.len(),
            forall|k: int| 0 <= k < i ==> trim(#[trigger] lines(types_out@)[k]) != "crypt"@,
        decreases ls.len() - i,
    {
        let t = trim_chars(ls[i].as_slice());
        proof {
            assert(views(ls@)[i as int] == ls@[i as int]@);
        }
        if chars_eq_str(t.as_slice(), "crypt") {
            return Some(Fde { backend: String::from_str("dm-crypt/LUKS"), protection_on: true, scope: String::from_str("full") });
        }
        i = i + 1;
    }
    None
}

/// On Unix, the encryption finding for a mount from what `findmnt -no SOURCE` and then
/// `lsblk -nso TYPE <source>` printed: none when the source is blank.
pub fn detect_fde(findmnt_out: &str, types_out: &str) -> (r: Option<Fde>)
    ensures
        trim(findmnt_out@).len() == 0 ==> r is None,
        trim(findmnt_out@).len() > 0 ==> (r is Some <==> exists|k: int| 0 <= k < lines(types_out@).len() && trim(#[trigger] lines(types_out@)[k]) == "crypt"@),
        r matches Some(f) ==> f.backend@ == "dm-crypt/LUKS"@ && f.protection_on && f.scope@ == "full"@,
{
    let all = crate::text::chars_of(findmnt_out);
    if trim_chars(all.as_slice()).len() == 0 {
        return None;
    }
    fde_from_lsblk(types_out)
}

/// On Windows, the BitLocker finding for drive `drive` (such as `C:`) from `manage-bde -status`
/// output: none when the drive is shorter than two bytes.
pub fn detect_fde_windows(drive: &str, out: &str) -> (r: Option<Fde>)
    ensures
        drive.len() < 2 ==> r is None,
        drive.len() >= 2 && trim(out@).len() == 0 ==> r is None,
        drive.len() >= 2 && trim(out@).len() > 0 ==> match r {
            Some(f) => bde_scan(lines(out@)).0 && f.backend@ == "BitLocker"@ && f.protection_on == bde_scan(lines(out@)).1
                && f.scope@ == bde_scan(lines(out@)).2,
            None => !bde_scan(lines(out@)).0,
        },
{
    if drive.len() < 2 {
        return None;
    }
    fde_from_manage_bde(out)
}

/// An ASCII letter.
pub open spec fn is_ascii_letter(c: char) -> bool {
    (97 <= (c as int) <= 122) || (65 <= (c as int) <= 90)
}

fn is_ascii_letter_exec(c: char) -> (b: bool)
    ensures
        b == is_ascii_letter(c),
{
    let n = c as u32;
    (97 <= n && n <= 122) || (65 <= n && n <= 90)
}

/// The value of a `Protection Status:` line says that protection is on: lowercased and trimmed, it
/// is the words `protection on`, alone or followed by something other than a letter. So
/// `Protection Off` and `Protection Unknown` read as off.
pub open spec fn says_protection_on(v: Seq<char>) -> bool {
    let t = trim(unicode_lowercase(v));
    starts_with(t, "protection on"@) && {
        let r = after(t, "protection on"@);
        r.len() == 0 || !is_ascii_letter(r[0])
    }
}

/// Whether the value of a `Protection Status:` line says that protection is on.
pub fn protection_on_value(v: &str) -> (b: bool)
    ensures
        b == says_protection_on(v@),
{
    let low = to_lower(v);
    let cs = chars_of(low.as_str());
    let t = trim_chars(cs.as_slice());
    match strip_prefix_chars(t.as_slice(), "protection on") {
        Some(rest) => rest.len() == 0 || !is_ascii_letter_exec(rest[0]),
        None => false,
    }
}

/// What scanning `manage-bde -status` lines gives: (a status line was found, protection on, scope).
pub open spec fn bde_scan(ls: Seq<Seq<char>>) -> (bool, bool, Seq<char>)
    decreases ls.len(),
{
    if ls.len() == 0 {
        (false, false, Seq::empty())
    } else {
        let (found, on, scope) = bde_scan(ls.drop_last());
        let l = trim(ls.last());
        let (found1, on1) = if starts_with(l, "Protection Status:"@) {
            (true, says_protection_on(after(l, "Protection Status:"@)))
        } else {
            (found, on)
        };
        if starts_with(l, "Conversion Status:"@) {
            let v = unicode_lowercase(after(l, "Conversion Status:"@));
            let scope1 = if contains(v, "used space"@) {
                "used-space-only"@
            } else if contains(v, "fully"@) {
                "full"@
            } else {
                scope
            };
            (true, on1, scope1)
        } else {
            (found1, on1, scope)
        }
    }
}

/// On Windows: BitLocker status from `manage-bde -status <drive>` output; `None` when the tool
/// printed nothing or no status line. Protection counts as on only when the `Protection Status:`
/// value reads `Protection On` (see [`says_protection_on`]); `Protection Off` reads as off.
pub fn fde_from_manage_bde(out: &str) -> (r: Option<Fde>)
    ensures
        trim(out@).len() == 0 ==> r is None,
        trim(out@).len() > 0 ==> match r {
            Some(f) => bde_scan(lines(out@)).0 && f.backend@ == "BitLocker"@ && f.protection_on == bde_scan(lines(out@)).1
                && f.scope@ == bde_scan(lines(out@)).2,
            None => !bde_scan(lines(out@)).0,
        },
{
    let all = crate::text::chars_of(out);
    if trim_chars(all.as_slice()).len() == 0 {
        return None;
    }
    let ls = lines_of(out);
    let mut found = false;
    let mut on = false;
    let mut scope = String::new();
    let mut i: usize = 0;
    while i < ls.len()
        invariant
            views(ls@) == lines(out@),
            i <= ls@.len(),
            (found, on, scope@) == bde_scan(lines(out@).subrange(0, i as int)),
        decreases ls.len() - i,
    {
        let l = trim_chars(ls[i].as_slice());
        proof {
            assert(views(ls@)[i as int] == ls@[i as int]@);
            assert(lines(out@).subrange(0, i + 1).drop_last() =~= lines(out@).subrange(0, i as int));
            assert(lines(out@).subrange(0, i + 1).last() == ls@[i as int]@);
        }
        match strip_prefix_chars(l.as_slice(), "Protection Status:") {
            Some(v) => {
                found = true;
                let vs = string_of(v.as_slice());
                on = protection_on_value(vs.as_str());
            },
            None => {},
        }
        match strip_prefix_chars(l.as_slice(), "Conversion Status:") {
            Some(v) => {
                found = true;
                let vs = string_of(v.as_slice());
                let low = to_lower(vs.as_str());
                if str_contains(low.as_str(), "used space") {
                    scope = String::from_str("used-space-only");
                } else if str_contains(low.as_str(), "fully") {
                    scope = String::from_str("full");
                }
            },
            None => {},
        }
        i = i + 1;
    }
    proof {
        assert(lines(out@).subrange(0, ls@.len() as int) =~= lines(out@));
    }
    if !found {
        return None;
    }
    Some(Fde { backend: String::from_str("BitLocker"), protection_on: on, scope })
}

/// On Windows: TRIM state from `fsutil behavior query DisableDeleteNotify`.
pub open spec fn trim_state_spec(out_lower: Seq<char>) -> Seq<char> {
    if contains(out_lower, "= 0"@) || contains(out_lower, "disabledeletenotify = 0"@) {
        "enabled"@
    } else if contains(out_lower, "= 1"@) {
        "disabled"@
    } else {
        "unknown"@
    }
}

pub fn detect_trim(out: &str) -> (s: String)
    ensures
        s@ == trim_state_spec(unicode_lowercase(out@)),
{
    let o = to_lower(out);
    if str_contains(o.as_str(), "= 0") || str_contains(o.as_str(), "disabledeletenotify = 0") {
        String::from_str("enabled")
    } else if str_contains(o.as_str(), "= 1") {
        String::from_str("disabled")
    } else {
        String::from_str("unknown")
    }
}

/// On Unix the TRIM state is not read; the report points at the tools that show it.
pub fn detect_trim_unix() -> (s: String)
    ensures
        s@ == "see `lsblk -D` / mount discard / fstrim"@,
{
    String::from_str("see `lsblk -D` / mount discard / fstrim")
}

/// The drive (`C:`) of a canonical Windows path: the first two characters after any `\\?\` prefix.
pub open spec fn drive_spec(canonical: Seq<char>) -> Seq<char> {
    crate::text::take_chars(strip_verbatim(canonical), 2)
}

/// A Windows path without its `\\?\` verbatim prefix.
pub open spec fn strip_verbatim(p: Seq<char>) -> Seq<char> {
    if starts_with(p, "\\\\?\\"@) { after(p, "\\\\?\\"@) } else { p }
}

pub fn drive_of(canonical: Option<&str>) -> (d: String)
    ensures
        match canonical {
            Some(c) => d@ == drive_spec(c@),
            None => d@.len() == 0,
        },
{
    match canonical {
        Some(c) => {
            let cs = crate::text::chars_of(c);
            let rest = match strip_prefix_chars(cs.as_slice(), "\\\\?\\") {
                Some(r) => r,
                None => cs,
            };
            crate::text::take_chars_exec(rest.as_slice(), 2)
        },
        None => String::new(),
    }
}

} // verus!
