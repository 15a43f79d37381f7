//! Media (HDD vs SSD) and filesystem detection from what the system tools report, so the tool can
//! pick the right strategy. Unknown media gets the most conservative handling.
use crate::text::{
    chars_of, lines, lines_of, starts_with, after, string_of, strip_prefix_chars, to_upper, trim, trim_chars,
    unicode_uppercase, views,
};
use vstd::prelude::*;

verus! {

/// Rotational disk, flash, or unknown.
#[derive(Debug, Clone, Copy, PartialEq, Eq, Structural)]
pub enum Media {
    Hdd,
    Ssd,
    Unknown,
}

impl Media {
    pub fn as_str(&self) -> (s: &'static str)
        ensures
            s@ == match self {
                Media::Hdd => "hdd"@,
                Media::Ssd => "ssd"@,
                Media::Unknown => "unknown"@,
            },
    {
        match self {
            Media::Hdd => "hdd",
            Media::Ssd => "ssd",
            Media::Unknown => "unknown",
        }
    }
}

/// What detection found for a path.
pub struct Probe {
    pub media: Media,
    pub filesystem: String,
}

/// The media `lsblk -ndo ROTA` reports: first line `1` is a rotational disk, `0` is flash.
pub open spec fn media_from_rota(rota_out: Seq<char>) -> Media {
    let ls = lines(rota_out);
    if ls.len() > 0 && trim(ls[0]) == "1"@ {
        Media::Hdd
    } else if ls.len() > 0 && trim(ls[0]) == "0"@ {
        Media::Ssd
    } else {
        Media::Unknown
    }
}

/// Probe on Unix, from the outputs of `findmnt -no FSTYPE` and `lsblk -ndo ROTA` (the latter empty
/// when `findmnt` found no mount source).
pub fn probe(fstype_out: &str, rota_out: &str) -> (p: Probe)
    ensures
        p.media == media_from_rota(rota_out@),
        p.filesystem@ == trim(fstype_out@),
{
    let fs_chars = chars_of(fstype_out);
    let fs = string_of(trim_chars(fs_chars.as_slice()).as_slice());
    let ls = lines_of(rota_out);
    proof {
        assert(views(ls@).len() == ls@.len());
    }
    let mut media = Media::Unknown;
    if ls.len() > 0 {
        proof {
            assert(views(ls@)[0] == ls@[0]@);
        }
        let t = trim_chars(ls[0].as_slice());
        let ts = string_of(t.as_slice());
        if crate::text::str_eq(ts.as_str(), "1") {
            media = Media::Hdd;
        } else if crate::text::str_eq(ts.as_str(), "0") {
            media = Media::Ssd;
        }
    }
    Probe { media, filesystem: fs }
}

/// The trimmed value after `prefix` on the last line (trimmed) that starts with it.
pub open spec fn last_field(ls: Seq<Seq<char>>, prefix: Seq<char>) -> Option<Seq<char>>
    decreases ls.len(),
{
    if ls.len() == 0 {
        None
    } else if starts_with(trim(ls.last()), prefix) {
        Some(trim(after(trim(ls.last()), prefix)))
    } else {
        last_field(ls.drop_last(), prefix)
    }
}

/// The field value or the empty string.
pub open spec fn field_or_empty(v: Option<Seq<char>>) -> Seq<char> {
    match v {
        Some(x) => x,
        None => Seq::empty(),
    }
}

/// The trimmed value after `prefix` on the last line that starts with it, or the empty string.
pub fn last_field_exec(out: &str, prefix: &str) -> (r: String)
    ensures
        r@ == field_or_empty(last_field(lines(out@), prefix@)),
{
    let ls = lines_of(out);
    let mut value = String::new();
    let mut i: usize = 0;
    while i < ls.len()
        invariant
            views(ls@) == lines(out@),
            i <= ls@.len(),
            value@ == field_or_empty(last_field(lines(out@).subrange(0, i as int), prefix@)),
        decreases ls.len() - i,
    {
        let t = trim_chars(ls[i].as_slice());
        proof {
            assert(views(ls@)[i as int] == ls@[i as int]@);
            assert(lines(out@).subrange(0, i + 1).drop_last() =~= lines(out@).subrange(0, i as int));
            assert(lines(out@).subrange(0, i + 1).last() == ls@[i as int]@);
        }
        match strip_prefix_chars(t.as_slice(), prefix) {
            Some(rest) => {
                let v = trim_chars(rest.as_slice());
                value = string_of(v.as_slice());
            },
            None => {},
        }
        i = i + 1;
    }
    proof {
        assert(lines(out@).subrange(0, ls@.len() as int) =~= lines(out@));
    }
    value
}

/// The media the Windows `MediaType` value names.
pub open spec fn media_from_type(m: Seq<char>) -> Media {
    if unicode_uppercase(m) == "HDD"@ {
        Media::Hdd
    } else if unicode_uppercase(m) == "SSD"@ {
        Media::Ssd
    } else {
        Media::Unknown
    }
}

/// Probe on Windows, from the PowerShell script's `M=<MediaType>` and `F=<FileSystemType>` lines.
pub fn probe_windows(out: &str) -> (p: Probe)
    ensures
        p.media == media_from_type(field_or_empty(last_field(lines(out@), "M="@))),
        p.filesystem@ == field_or_empty(last_field(lines(out@), "F="@)),
{
    let m = last_field_exec(out, "M=");
    let fs = last_field_exec(out, "F=");
    let up = to_upper(m.as_str());
    let media = if crate::text::str_eq(up.as_str(), "HDD") {
        Media::Hdd
    } else if crate::text::str_eq(up.as_str(), "SSD") {
        Media::Ssd
    } else {
        Media::Unknown
    };
    Probe { media, filesystem: fs }
}

} // verus!
