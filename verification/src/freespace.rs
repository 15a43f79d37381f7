//! Free-space clean — the quiet workhorse.
//!
//! It fills a volume's unallocated space with random data, then deletes the fill, completing the
//! deletion of anything already unlinked: on an HDD the freed blocks are overwritten; on an SSD,
//! deleting the fill hands the blocks back to the controller (TRIM). A safety margin of at least
//! max(1 GiB, 10% of the volume) is always kept, and the system volume is refused unless allowed.
//!
//! This module holds the decisions: the plan (free space, margin, budget), the guards, the size of
//! each write, the fill buffer, and how a clean is routed and reported. Reading disk figures and
//! writing the fill file is the caller's part.
use crate::crypto::{random_bytes, CryptoError};
use crate::detect::Media;
use crate::text::{
    after, chars_of, decimal, lines, lines_of, parse_u64, parse_u64_spec, starts_with, string_of, strip_prefix_chars,
    trim, trim_chars, u64_to_decimal, views, words, words_of,
};
use vstd::prelude::*;

verus! {

/// One gibibyte.
pub const GIB: u64 = 1073741824;
/// Bytes written per fill write: 64 MiB.
pub const STEP: u64 = 67108864;
/// Length of the random block the fill buffer repeats.
pub const BLOCK: usize = 4096;

/// What a free-space clean did.
pub struct CleanReport {
    pub written_bytes: u64,
    pub free_before: u64,
    pub margin: u64,
}

/// Why a free-space operation was refused or failed.
#[derive(Debug, Clone, Copy, PartialEq, Eq, Structural)]
pub enum FreeSpaceError {
    /// The target is not a directory.
    NotADirectory,
    /// The target is on the system/boot volume and that was not allowed.
    SystemVolume,
    /// The disk figures could not be read.
    NoSpaceInfo,
    /// `fstrim` printed nothing.
    TrimNoOutput,
    /// `Optimize-Volume` did not confirm.
    TrimNotConfirmed,
    /// No drive letter for the path.
    NoDriveLetter,
    /// The random source failed.
    Rng,
}

impl FreeSpaceError {
    pub fn message(&self) -> (s: &'static str)
        ensures
            s@ == match *self {
                FreeSpaceError::NotADirectory => "not a directory"@,
                FreeSpaceError::SystemVolume => "refusing to clean free space on the SYSTEM/boot volume — pass --allow-system-volume to proceed (a large safety margin is still kept)."@,
                FreeSpaceError::NoSpaceInfo => "could not read disk free space"@,
                FreeSpaceError::TrimNoOutput => "fstrim produced no output — needs privileges, or discard isn't supported here"@,
                FreeSpaceError::TrimNotConfirmed => "Optimize-Volume did not confirm — may need Administrator"@,
                FreeSpaceError::NoDriveLetter => "could not determine the drive letter"@,
                FreeSpaceError::Rng => "rng failure"@,
            },
    {
        match self {
            FreeSpaceError::NotADirectory => "not a directory",
            FreeSpaceError::SystemVolume => "refusing to clean free space on the SYSTEM/boot volume — pass --allow-system-volume to proceed (a large safety margin is still kept).",
            FreeSpaceError::NoSpaceInfo => "could not read disk free space",
            FreeSpaceError::TrimNoOutput => "fstrim produced no output — needs privileges, or discard isn't supported here",
            FreeSpaceError::TrimNotConfirmed => "Optimize-Volume did not confirm — may need Administrator",
            FreeSpaceError::NoDriveLetter => "could not determine the drive letter",
            FreeSpaceError::Rng => "rng failure",
        }
    }
}

/// The margin that is always kept: the larger of 10% of the volume and 1 GiB.
pub open spec fn dyn_margin(total: u64) -> int {
    if total / 10 >= GIB { (total / 10) as int } else { GIB as int }
}

/// The margin kept: the dynamic margin, raised to a requested one when that is larger. A request
/// never lowers it: the dynamic margin is always kept.
pub open spec fn margin_spec(total: u64, margin_bytes: Option<u64>) -> int {
    match margin_bytes {
        Some(m) => if dyn_margin(total) > m { dyn_margin(total) } else { m as int },
        None => dyn_margin(total),
    }
}

/// How much fill to write: the free space above the margin, capped by `max_bytes`.
pub open spec fn budget_spec(free: u64, margin: int, max_bytes: Option<u64>) -> int {
    let b = if free as int > margin { free - margin } else { 0 };
    match max_bytes {
        Some(m) => if (m as int) < b { m as int } else { b },
        None => b,
    }
}

/// The margin a plan keeps is at least a tenth of the volume and at least 1 GiB, and at least any
/// margin asked for; it is the largest of those and no more. The budget is the free space above
/// the margin (none when there is no more free space than that), cut to the cap when one is given.
pub proof fn lemma_plan_keeps_margin(free: u64, total: u64, margin_bytes: Option<u64>, max_bytes: Option<u64>)
    ensures
        margin_spec(total, margin_bytes) >= total / 10,
        margin_spec(total, margin_bytes) >= GIB,
        margin_bytes matches Some(m) ==> margin_spec(total, margin_bytes) >= m,
        margin_spec(total, margin_bytes) == total / 10 || margin_spec(total, margin_bytes) == GIB
            || margin_bytes == Some(margin_spec(total, margin_bytes) as u64),
        ({
            let m = margin_spec(total, margin_bytes);
            let above = if free > m { free - m } else { 0 };
            budget_spec(free, m, max_bytes) == match max_bytes {
                Some(c) => if c < above { c as int } else { above },
                None => above,
            }
        }),
{
}

/// The plan (free, margin, budget) for a volume with `free` of `total` bytes available.
pub fn plan(free: u64, total: u64, margin_bytes: Option<u64>, max_bytes: Option<u64>) -> (r: (u64, u64, u64))
    ensures
        r.0 == free,
        r.1 == margin_spec(total, margin_bytes),
        r.2 == budget_spec(free, r.1 as int, max_bytes),
        r.1 >= dyn_margin(total),
        r.1 >= total / 10,
        r.1 >= GIB,
        margin_bytes matches Some(m) ==> r.1 >= m,
        r.1 == total / 10 || r.1 == GIB || margin_bytes == Some(r.1),
        max_bytes is None ==> r.2 == (if free > r.1 { free - r.1 } else { 0 }),
        r.2 + r.1 <= free || r.2 == 0,
        max_bytes matches Some(m) ==> r.2 <= m,
{
    let tenth = total / 10;
    let dynm = if tenth >= GIB { tenth } else { GIB };
    let margin = match margin_bytes {
        Some(m) => if dynm > m { dynm } else { m },
        None => dynm,
    };
    let mut budget = free.saturating_sub(margin);
    match max_bytes {
        Some(m) => {
            if m < budget {
                budget = m;
            }
        },
        None => {},
    }
    proof {
        lemma_plan_keeps_margin(free, total, margin_bytes, max_bytes);
    }
    (free, margin, budget)
}

/// The guards before a clean: the target must be a directory, and the system volume needs
/// `allow_system`.
pub fn clean_guard(is_dir: bool, is_system: bool, allow_system: bool) -> (r: Result<(), FreeSpaceError>)
    ensures
        !is_dir ==> r == Err::<(), FreeSpaceError>(FreeSpaceError::NotADirectory),
        is_dir && is_system && !allow_system ==> r == Err::<(), FreeSpaceError>(FreeSpaceError::SystemVolume),
        is_dir && (!is_system || allow_system) ==> r is Ok,
{
    if !is_dir {
        return Err(FreeSpaceError::NotADirectory);
    }
    if is_system && !allow_system {
        return Err(FreeSpaceError::SystemVolume);
    }
    Ok(())
}

/// The size of the next write when `written` of `budget` bytes are done, at most `step` at a time;
/// `None` once the budget is reached.
pub open spec fn chunk_spec(written: u64, budget: u64, step: u64) -> Option<u64> {
    if written >= budget {
        None
    } else if budget - written < step {
        Some((budget - written) as u64)
    } else {
        Some(step)
    }
}

pub fn next_chunk(written: u64, budget: u64, step: u64) -> (r: Option<u64>)
    requires
        step > 0,
    ensures
        r == chunk_spec(written, budget, step),
        written >= budget ==> r is None,
        written < budget ==> (r matches Some(n) && n > 0 && n <= step && written + n <= budget
            && (n == step || written + n == budget)),
{
    if written >= budget {
        None
    } else {
        let left = budget - written;
        Some(if left < step { left } else { step })
    }
}

/// How many bytes the fill loop has written when it stops, having started at `written` and
/// written `next_chunk` bytes at a time.
pub open spec fn fill_total(written: u64, budget: u64, step: u64) -> int
    decreases budget - written,
{
    if step == 0 || written >= budget {
        written as int
    } else {
        let n = chunk_spec(written, budget, step).unwrap();
        fill_total((written + n) as u64, budget, step)
    }
}

/// The fill loop writes exactly the budget: stepping by [`next_chunk`] from any point at or below
/// the budget, it stops with the budget written and never passes it.
pub proof fn lemma_fill_reaches_budget(written: u64, budget: u64, step: u64)
    requires
        step > 0,
        written <= budget,
    ensures
        fill_total(written, budget, step) == budget,
    decreases budget - written,
{
    if written < budget {
        let n = chunk_spec(written, budget, step).unwrap();
        lemma_fill_reaches_budget((written + n) as u64, budget, step);
    }
}

/// `n` bytes repeating `block`.
pub open spec fn tiled(block: Seq<u8>, n: nat) -> Seq<u8> {
    Seq::new(n, |i: int| block[i % (block.len() as int)])
}

/// `n` bytes repeating `block` from its start.
pub fn tile(block: &[u8], n: usize) -> (v: Vec<u8>)
    requires
        block@.len() == BLOCK,
    ensures
        v@ == tiled(block@, n as nat),
{
    let mut v: Vec<u8> = Vec::new();
    let mut i: usize = 0;
    let mut j: usize = 0;
    while i < n
        invariant
            block@.len() == BLOCK,
            i <= n,
            j < BLOCK,
            j == i % BLOCK,
            v@.len() == i,
            forall|k: int| 0 <= k < i ==> v@[k] == block@[k % (BLOCK as int)],
        decreases n - i,
    {
        v.push(block[j]);
        i = i + 1;
        j = if j + 1 == BLOCK { 0 } else { j + 1 };
    }
    proof {
        assert(v@ =~= tiled(block@, n as nat));
    }
    v
}

/// A fill buffer of `n` bytes: one random 4 KiB block repeated (fresh randomness per write is not
/// needed to overwrite). The block is drawn here; [`tile`] lays it out.
pub fn vec_random(n: usize) -> (r: Result<Vec<u8>, FreeSpaceError>)
    ensures
        r matches Ok(v) ==> v@.len() == n && exists|b: Seq<u8>| b.len() == BLOCK && v@ == tiled(b, n as nat),
        r matches Err(e) ==> e == FreeSpaceError::Rng,
{
    let chunk = match random_bytes(BLOCK) {
        Ok(c) => c,
        Err(_) => return Err(FreeSpaceError::Rng),
    };
    Ok(tile(chunk.as_slice(), n))
}

/// The (available, total) bytes `df -B1 --output=avail,size` reports on its second line; fields
/// that do not parse count as zero.
pub open spec fn df_fields(out: Seq<char>) -> (u64, u64) {
    let ls = lines(out);
    let line = if ls.len() > 1 { ls[1] } else { Seq::empty() };
    let w = words(line);
    let avail = if w.len() > 0 { match parse_u64_spec(w[0]) { Some(v) => v, None => 0 } } else { 0 };
    let total = if w.len() > 1 { match parse_u64_spec(w[1]) { Some(v) => v, None => 0 } } else { 0 };
    (avail, total)
}

/// (free, total) bytes of a volume from `df` output; an error when the total reads as zero.
pub fn space(out: &str) -> (r: Result<(u64, u64), FreeSpaceError>)
    ensures
        df_fields(out@).1 == 0 ==> r == Err::<(u64, u64), FreeSpaceError>(FreeSpaceError::NoSpaceInfo),
        df_fields(out@).1 != 0 ==> r == Ok::<(u64, u64), FreeSpaceError>(df_fields(out@)),
{
    let ls = lines_of(out);
    proof {
        assert(views(ls@).len() == ls@.len());
    }
    let line: Vec<char> = if ls.len() > 1 {
        proof {
            assert(views(ls@)[1] == ls@[1]@);
        }
        ls[1].clone()
    } else {
        Vec::new()
    };
    let w = words_of(line.as_slice());
    proof {
        assert(views(w@).len() == w@.len());
        if w@.len() > 0 {
            assert(views(w@)[0] == w@[0]@);
        }
        if w@.len() > 1 {
            assert(views(w@)[1] == w@[1]@);
        }
    }
    let avail: u64 = if w.len() > 0 {
        match parse_u64(w[0].as_slice()) { Some(v) => v, None => 0 }
    } else {
        0
    };
    let total: u64 = if w.len() > 1 {
        match parse_u64(w[1].as_slice()) { Some(v) => v, None => 0 }
    } else {
        0
    };
    if total == 0 {
        return Err(FreeSpaceError::NoSpaceInfo);
    }
    Ok((avail, total))
}

/// A number as the drive query prints it, 0 when it does not parse.
pub open spec fn number_or_zero(v: Seq<char>) -> u64 {
    match parse_u64_spec(trim(v)) {
        Some(n) => n,
        None => 0,
    }
}

/// (free, used) from the lines of the PowerShell drive query: each trimmed line starting `F=`
/// (`U=`) sets free (used) to the number after it, 0 when that does not parse; the last such line
/// wins.
pub open spec fn drive_scan(ls: Seq<Seq<char>>) -> (u64, u64)
    decreases ls.len(),
{
    if ls.len() == 0 {
        (0, 0)
    } else {
        let (f, u) = drive_scan(ls.drop_last());
        let l = trim(ls.last());
        let f1 = if starts_with(l, "F="@) { number_or_zero(after(l, "F="@)) } else { f };
        let u1 = if starts_with(l, "U="@) { number_or_zero(after(l, "U="@)) } else { u };
        (f1, u1)
    }
}

fn number_or_zero_exec(v: &[char]) -> (n: u64)
    ensures
        n == number_or_zero(v@),
{
    let t = trim_chars(v);
    match parse_u64(t.as_slice()) {
        Some(n) => n,
        None => 0,
    }
}

/// The (free, used) figures of the PowerShell drive query output (see [`drive_scan`]).
pub fn space_fields_windows(out: &str) -> (r: (u64, u64))
    ensures
        r == drive_scan(lines(out@)),
{
    let ls = lines_of(out);
    let mut free: u64 = 0;
    let mut used: u64 = 0;
    let mut i: usize = 0;
    while i < ls.len()
        invariant
            views(ls@) == lines(out@),
            i <= ls@.len(),
            (free, used) == drive_scan(lines(out@).subrange(0, i as int)),
        decreases ls.len() - i,
    {
        let l = trim_chars(ls[i].as_slice());
        proof {
            assert(views(ls@)[i as int] == ls@[i as int]@);
            assert(lines(out@).subrange(0, i + 1).drop_last() =~= lines(out@).subrange(0, i as int));
            assert(lines(out@).subrange(0, i + 1).last() == ls@[i as int]@);
        }
        match strip_prefix_chars(l.as_slice(), "F=") {
            Some(v) => {
                free = number_or_zero_exec(v.as_slice());
            },
            None => {},
        }
        match strip_prefix_chars(l.as_slice(), "U=") {
            Some(v) => {
                used = number_or_zero_exec(v.as_slice());
            },
            None => {},
        }
        i = i + 1;
    }
    proof {
        assert(lines(out@).subrange(0, ls@.len() as int) =~= lines(out@));
    }
    (free, used)
}

/// (free, total) bytes of a volume from the PowerShell drive query (`F=<free>` and `U=<used>`
/// lines); an error when both read as zero. The total, free + used, must fit in 64 bits.
pub fn space_windows(out: &str) -> (r: Result<(u64, u64), FreeSpaceError>)
    requires
        drive_scan(lines(out@)).0 + drive_scan(lines(out@)).1 <= u64::MAX,
    ensures
        ({
            let (f, u) = drive_scan(lines(out@));
            &&& f == 0 && u == 0 ==> r == Err::<(u64, u64), FreeSpaceError>(FreeSpaceError::NoSpaceInfo)
            &&& !(f == 0 && u == 0) ==> r == Ok::<(u64, u64), FreeSpaceError>((f, (f + u) as u64))
        }),
{
    let (free, used) = space_fields_windows(out);
    if free == 0 && used == 0 {
        return Err(FreeSpaceError::NoSpaceInfo);
    }
    Ok((free, free + used))
}

/// How a volume is cleaned for its media: TRIM on SSD (no wear), overwrite-fill otherwise.
#[derive(Debug, Clone, Copy, PartialEq, Eq, Structural)]
pub enum CleanMethod {
    Trim,
    Fill,
}

pub fn clean_method(media: Media) -> (m: CleanMethod)
    ensures
        m == (if media == Media::Ssd { CleanMethod::Trim } else { CleanMethod::Fill }),
{
    match media {
        Media::Ssd => CleanMethod::Trim,
        _ => CleanMethod::Fill,
    }
}

/// The report line of a TRIM-based clean on `fstrim -v` output.
pub fn trim_free_space(fstrim_out: &str) -> (r: Result<String, FreeSpaceError>)
    ensures
        trim(fstrim_out@).len() == 0 ==> r == Err::<String, FreeSpaceError>(FreeSpaceError::TrimNoOutput),
        trim(fstrim_out@).len() > 0 ==> (r matches Ok(s) && s@ == "fstrim: "@ + trim(fstrim_out@)),
{
    let cs = chars_of(fstrim_out);
    let t = trim_chars(cs.as_slice());
    if t.len() == 0 {
        return Err(FreeSpaceError::TrimNoOutput);
    }
    let ts = string_of(t.as_slice());
    Ok(crate::text::cat("fstrim: ", ts.as_str()))
}

/// The drive letter of a canonical Windows path: its first character after any `\\?\` prefix;
/// empty when there is no canonical path.
pub fn drive_letter(canonical: Option<&str>) -> (d: String)
    ensures
        match canonical {
            Some(c) => d@ == crate::text::take_chars(crate::status::strip_verbatim(c@), 1),
            None => d@.len() == 0,
        },
{
    match canonical {
        Some(c) => {
            let cs = chars_of(c);
            let rest = match strip_prefix_chars(cs.as_slice(), "\\\\?\\") {
                Some(r) => r,
                None => cs,
            };
            crate::text::take_chars_exec(rest.as_slice(), 1)
        },
        None => String::new(),
    }
}

/// The report line of a TRIM-based clean on Windows, given the drive letter and the script output.
pub fn trim_free_space_windows(letter: &str, out: &str) -> (r: Result<String, FreeSpaceError>)
    ensures
        letter@.len() == 0 ==> r == Err::<String, FreeSpaceError>(FreeSpaceError::NoDriveLetter),
        letter@.len() > 0 && !crate::text::contains(crate::text::unicode_lowercase(out@), "ok"@)
            ==> r == Err::<String, FreeSpaceError>(FreeSpaceError::TrimNotConfirmed),
        letter@.len() > 0 && crate::text::contains(crate::text::unicode_lowercase(out@), "ok"@)
            ==> (r matches Ok(s) && s@ == "issued TRIM/Unmap for unused sectors on "@ + letter@ + ": (Optimize-Volume -ReTrim)"@),
{
    if letter.is_empty() {
        return Err(FreeSpaceError::NoDriveLetter);
    }
    let low = crate::text::to_lower(out);
    if crate::text::str_contains(low.as_str(), "ok") {
        let s = crate::text::cat("issued TRIM/Unmap for unused sectors on ", letter);
        Ok(s.concat(": (Optimize-Volume -ReTrim)"))
    } else {
        Err(FreeSpaceError::TrimNotConfirmed)
    }
}

/// The clean's message on SSD.
pub fn ssd_clean_message(trim_msg: &str) -> (s: String)
    ensures
        s@ == "SSD — "@ + trim_msg@ + ". (TRIM removes it from the host read path; physical erase is deferred to the controller and is not host-verifiable — full-disk encryption is what protects the residue.)"@,
{
    let s = crate::text::cat("SSD — ", trim_msg);
    s.concat(". (TRIM removes it from the host read path; physical erase is deferred to the controller and is not host-verifiable — full-disk encryption is what protects the residue.)")
}

/// The clean's message after an overwrite-fill, sizes in MiB (rounded down).
pub fn fill_clean_message(media: Media, r: &CleanReport) -> (s: String)
    ensures
        s@ == media_name(media) + ": wrote ~"@ + decimal((r.written_bytes / 1048576) as nat)
            + " MiB of random fill then removed it (kept "@ + decimal((r.margin / 1048576) as nat) + " MiB margin)."@,
{
    let s = String::from_str(media.as_str());
    let s = s.concat(": wrote ~");
    let w = u64_to_decimal(r.written_bytes / 1048576);
    let s = s.concat(w.as_str());
    let s = s.concat(" MiB of random fill then removed it (kept ");
    let m = u64_to_decimal(r.margin / 1048576);
    let s = s.concat(m.as_str());
    s.concat(" MiB margin).")
}

/// What the clean that [`clean_method`] chose did: the TRIM report line, or the fill's report.
pub enum CleanDone {
    Trimmed(String),
    Filled(CleanReport),
}

/// Clean a volume the right way for its media, given what the chosen method did: on SSD the TRIM
/// message, otherwise the fill message; a failure of the method is passed on.
pub fn clean_volume(media: Media, done: Result<CleanDone, FreeSpaceError>) -> (r: Result<String, FreeSpaceError>)
    ensures
        match done {
            Err(e) => r == Err::<String, FreeSpaceError>(e),
            Ok(CleanDone::Trimmed(m)) => r matches Ok(s) && s@ == "SSD — "@ + m@ + ". (TRIM removes it from the host read path; physical erase is deferred to the controller and is not host-verifiable — full-disk encryption is what protects the residue.)"@,
            Ok(CleanDone::Filled(rep)) => r matches Ok(s) && s@ == media_name(media) + ": wrote ~"@ + decimal((rep.written_bytes / 1048576) as nat)
                + " MiB of random fill then removed it (kept "@ + decimal((rep.margin / 1048576) as nat) + " MiB margin)."@,
        },
{
    match done {
        Err(e) => Err(e),
        Ok(CleanDone::Trimmed(m)) => Ok(ssd_clean_message(m.as_str())),
        Ok(CleanDone::Filled(rep)) => Ok(fill_clean_message(media, &rep)),
    }
}

/// The name a media kind is shown by.
pub open spec fn media_name(m: Media) -> Seq<char> {
    match m {
        Media::Hdd => "hdd"@,
        Media::Ssd => "ssd"@,
        Media::Unknown => "unknown"@,
    }
}

/// On Unix, a path is on the system volume when its device equals that of `/`; unknown counts as
/// system.
pub fn is_system_volume(path_dev: Option<u64>, root_dev: Option<u64>) -> (b: bool)
    ensures
        b == match (path_dev, root_dev) {
            (Some(a), Some(r)) => a == r,
            _ => true,
        },
{
    match (path_dev, root_dev) {
        (Some(a), Some(r)) => a == r,
        _ => true,
    }
}

/// On Windows, a path is on the system volume when its canonical form (upper-cased, without any
/// `\\?\` prefix) starts with the upper-cased system drive; unknown counts as system.
pub fn is_system_volume_windows(canonical: Option<&str>, system_drive: &str) -> (b: bool)
    ensures
        b == match canonical {
            Some(c) => crate::text::starts_with(
                crate::text::unicode_uppercase(crate::status::strip_verbatim(c@)),
                crate::text::unicode_uppercase(system_drive@)),
            None => true,
        },
{
    match canonical {
        Some(c) => {
            let cs = chars_of(c);
            let rest = match crate::text::strip_prefix_chars(cs.as_slice(), "\\\\?\\") {
                Some(r) => r,
                None => cs,
            };
            let rs = string_of(rest.as_slice());
            let up = crate::text::to_upper(rs.as_str());
            let sys = crate::text::to_upper(system_drive);
            let upc = chars_of(up.as_str());
            crate::text::strip_prefix_chars(upc.as_slice(), sys.as_str()).is_some()
        },
        None => true,
    }
}

} // verus!
