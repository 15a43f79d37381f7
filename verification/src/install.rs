//! One-click quiet mode: register the background free-space clean to run on a schedule and
//! (unless opted out) run one initial deep clean. `uninstall` removes the registration.
//!
//! On Linux this is a systemd user service + timer; on Windows a per-user `Run` entry that starts a
//! generated VBScript launcher. This module writes the unit files, the launcher, the entry name and
//! every message; creating files and running `systemctl` / `reg` is the caller's part.
use crate::crypto::{sha256, sha256_digest};
use crate::keyroot::{hex, hexs};
use crate::text::{concat_all, contains, decimal, join_parts, texts, trim, u64_to_decimal, unicode_lowercase};
use crate::vault::join_spec;
use vstd::prelude::*;

verus! {

/// Why installation could not proceed.
#[derive(Debug, Clone, Copy, PartialEq, Eq, Structural)]
pub enum InstallError {
    /// Neither `XDG_CONFIG_HOME` nor `HOME` is set.
    NoConfigDir,
}

/// One step of registering quiet mode, in the order they run.
#[derive(Debug, Clone, Copy, PartialEq, Eq, Structural)]
pub enum InstallStep {
    /// Create the directory that holds the unit files (Linux) or the launcher (Windows).
    CreateDir,
    /// Write the service and timer units, or the launcher script.
    WriteFiles,
    /// Enable the timer (`systemctl --user`), or add the `Run` entry (`reg add`).
    Register,
    /// Run one deep clean of the volume now.
    InitialClean,
}

/// The steps an install runs: none on a dry run, else create, write, register, then the initial
/// clean when asked for.
pub open spec fn install_steps_spec(dry_run: bool, initial_clean: bool) -> Seq<InstallStep> {
    if dry_run {
        Seq::empty()
    } else if initial_clean {
        seq![InstallStep::CreateDir, InstallStep::WriteFiles, InstallStep::Register, InstallStep::InitialClean]
    } else {
        seq![InstallStep::CreateDir, InstallStep::WriteFiles, InstallStep::Register]
    }
}

/// The steps an install runs, in order. A dry run runs none: it only describes what would happen.
pub fn install_steps(dry_run: bool, initial_clean: bool) -> (v: Vec<InstallStep>)
    ensures
        v@ == install_steps_spec(dry_run, initial_clean),
        dry_run ==> v@.len() == 0,
{
    let mut v: Vec<InstallStep> = Vec::new();
    if !dry_run {
        v.push(InstallStep::CreateDir);
        v.push(InstallStep::WriteFiles);
        v.push(InstallStep::Register);
        if initial_clean {
            v.push(InstallStep::InitialClean);
        }
    }
    proof {
        assert(v@ =~= install_steps_spec(dry_run, initial_clean));
    }
    v
}

impl InstallError {
    pub fn message(&self) -> (s: &'static str)
        ensures
            s@ == match *self {
                InstallError::NoConfigDir => "neither XDG_CONFIG_HOME nor HOME is set"@,
            },
    {
        match self {
            InstallError::NoConfigDir => "neither XDG_CONFIG_HOME nor HOME is set",
        }
    }
}

/// The flag the scheduled clean gets when the system volume is allowed.
pub open spec fn system_flag(allow_system: bool) -> Seq<char> {
    if allow_system { " --allow-system-volume"@ } else { Seq::empty() }
}

fn system_flag_exec(allow_system: bool) -> (s: &'static str)
    ensures
        s@ == system_flag(allow_system),
{
    proof {
        reveal_strlit("");
    }
    if allow_system { " --allow-system-volume" } else { "" }
}

/// A directory path for display: the canonical path when there is one, without Windows' `\\?\`
/// verbatim prefix.
pub fn abs_display(canonical: Option<&str>, dir: &str) -> (s: String)
    ensures
        s@ == crate::status::strip_verbatim(match canonical { Some(c) => c@, None => dir@ }),
{
    let p = match canonical {
        Some(c) => c,
        None => dir,
    };
    let cs = crate::text::chars_of(p);
    match crate::text::strip_prefix_chars(cs.as_slice(), "\\\\?\\") {
        Some(rest) => crate::text::string_of(rest.as_slice()),
        None => String::from_str(p),
    }
}

// ------------------------------------------------------------------------------------------------
// Linux: systemd user units.
// ------------------------------------------------------------------------------------------------

pub open spec fn service_unit(exe: Seq<char>, dir: Seq<char>, allow_system: bool) -> Seq<char> {
    "[Unit]\nDescription=Secure Delete quiet free-space clean\n\n[Service]\nType=oneshot\nExecStart="@ + exe
        + " clean \""@ + dir + "\" --execute"@ + system_flag(allow_system) + "\n"@
}

pub open spec fn timer_unit(interval: u64) -> Seq<char> {
    "[Unit]\nDescription=Run Secure Delete quiet clean on a schedule\n\n[Timer]\nOnBootSec=5min\nOnUnitActiveSec="@
        + decimal(interval as nat) + "s\nPersistent=true\n\n[Install]\nWantedBy=timers.target\n"@
}

/// The systemd service (running the clean on `dir`) and timer (every `interval` seconds).
pub fn systemd_units(exe: &str, dir: &str, interval: u64, allow_system: bool) -> (r: (String, String))
    ensures
        r.0@ == service_unit(exe@, dir@, allow_system),
        r.1@ == timer_unit(interval),
{
    let parts = vec![
        "[Unit]\nDescription=Secure Delete quiet free-space clean\n\n[Service]\nType=oneshot\nExecStart=",
        exe,
        " clean \"",
        dir,
        "\" --execute",
        system_flag_exec(allow_system),
        "\n",
    ];
    let service = join_parts(parts.as_slice());
    let iv = u64_to_decimal(interval);
    let tparts = vec![
        "[Unit]\nDescription=Run Secure Delete quiet clean on a schedule\n\n[Timer]\nOnBootSec=5min\nOnUnitActiveSec=",
        iv.as_str(),
        "s\nPersistent=true\n\n[Install]\nWantedBy=timers.target\n",
    ];
    let timer = join_parts(tparts.as_slice());
    proof {
        reveal_with_fuel(concat_all, 8);
        assert(service@ =~= service_unit(exe@, dir@, allow_system));
        assert(timer@ =~= timer_unit(interval));
    }
    (service, timer)
}

/// The directory systemd reads user units from: `$XDG_CONFIG_HOME/systemd/user`, else
/// `$HOME/.config/systemd/user`.
pub fn user_unit_dir(xdg_config_home: Option<&str>, home: Option<&str>) -> (r: Result<String, InstallError>)
    ensures
        match (xdg_config_home, home) {
            (Some(x), _) => r matches Ok(d) && d@ == join_spec(join_spec(x@, "systemd"@), "user"@),
            (None, Some(h)) => r matches Ok(d) && d@ == join_spec(join_spec(join_spec(h@, ".config"@), "systemd"@), "user"@),
            (None, None) => r == Err::<String, InstallError>(InstallError::NoConfigDir),
        },
{
    let base = match xdg_config_home {
        Some(x) => String::from_str(x),
        None => match home {
            Some(h) => crate::vault::join_path(&String::from_str(h), ".config"),
            None => return Err(InstallError::NoConfigDir),
        },
    };
    let sd = crate::vault::join_path(&base, "systemd");
    Ok(crate::vault::join_path(&sd, "user"))
}

/// The "initial deep clean" answer in a dry run.
pub open spec fn initial_clean_word(initial_clean: bool) -> Seq<char> {
    if initial_clean { "yes"@ } else { "no (--no-initial-clean)"@ }
}

fn initial_clean_word_exec(initial_clean: bool) -> (s: &'static str)
    ensures
        s@ == initial_clean_word(initial_clean),
{
    if initial_clean { "yes" } else { "no (--no-initial-clean)" }
}

/// What a Linux dry-run install reports.
pub fn install_dry_run_message(unit_dir: &str, initial_clean: bool) -> (s: String)
    ensures
        s@ == "DRY-RUN (nothing changed):\n  would write "@ + unit_dir@
            + "/secure-delete-clean.{service,timer}\n  then: systemctl --user daemon-reload && systemctl --user enable --now secure-delete-clean.timer\n  initial deep clean: "@
            + initial_clean_word(initial_clean),
{
    let parts = vec![
        "DRY-RUN (nothing changed):\n  would write ",
        unit_dir,
        "/secure-delete-clean.{service,timer}\n  then: systemctl --user daemon-reload && systemctl --user enable --now secure-delete-clean.timer\n  initial deep clean: ",
        initial_clean_word_exec(initial_clean),
    ];
    let s = join_parts(parts.as_slice());
    proof {
        reveal_with_fuel(concat_all, 5);
        assert(texts(parts@) =~= seq![parts@[0]@, parts@[1]@, parts@[2]@, parts@[3]@]);
    }
    s
}

/// How the initial deep clean went, as the install message reports it.
pub open spec fn initial_clean_line(prefix: Seq<char>, outcome: Option<Result<Seq<char>, Seq<char>>>) -> Seq<char> {
    match outcome {
        Some(Ok(r)) => prefix + "initial deep clean: "@ + r,
        Some(Err(e)) => prefix + "initial deep clean skipped: "@ + e,
        None => Seq::empty(),
    }
}

fn initial_clean_text(prefix: &str, outcome: &Option<Result<String, String>>) -> (s: String)
    ensures
        s@ == initial_clean_line(prefix@, match outcome {
            Some(Ok(r)) => Some(Ok(r@)),
            Some(Err(e)) => Some(Err(e@)),
            None => None,
        }),
{
    match outcome {
        Some(Ok(r)) => {
            let s = crate::text::cat(prefix, "initial deep clean: ");
            s.concat(r.as_str())
        },
        Some(Err(e)) => {
            let s = crate::text::cat(prefix, "initial deep clean skipped: ");
            s.concat(e.as_str())
        },
        None => String::new(),
    }
}

/// The views of an initial-clean outcome.
pub open spec fn outcome_view(o: Option<Result<String, String>>) -> Option<Result<Seq<char>, Seq<char>>> {
    match o {
        Some(Ok(r)) => Some(Ok(r@)),
        Some(Err(e)) => Some(Err(e@)),
        None => None,
    }
}

/// What a Linux install reports after writing the units, given whether the timer could be enabled
/// and how the initial clean went (`None` when skipped).
pub fn install_message(unit_dir: &str, enabled: bool, initial: &Option<Result<String, String>>) -> (s: String)
    ensures
        s@ == "wrote the systemd user units to "@ + unit_dir@
            + (if enabled { "\nenabled secure-delete-clean.timer; it cleans on a schedule now."@ }
               else { "\ncouldn't enable it here (no systemd user session). Finish with:\n  systemctl --user daemon-reload\n  systemctl --user enable --now secure-delete-clean.timer"@ })
            + initial_clean_line("\n"@, outcome_view(*initial)),
{
    let s = crate::text::cat("wrote the systemd user units to ", unit_dir);
    let s = if enabled {
        s.concat("\nenabled secure-delete-clean.timer; it cleans on a schedule now.")
    } else {
        s.concat("\ncouldn't enable it here (no systemd user session). Finish with:\n  systemctl --user daemon-reload\n  systemctl --user enable --now secure-delete-clean.timer")
    };
    let tail = initial_clean_text("\n", initial);
    s.concat(tail.as_str())
}

/// What a Linux dry-run uninstall reports.
pub fn uninstall_dry_run_message(unit_dir: &str) -> (s: String)
    ensures
        s@ == "DRY-RUN: would disable the timer and remove "@ + unit_dir@ + "/secure-delete-clean.{service,timer}"@,
{
    let s = crate::text::cat("DRY-RUN: would disable the timer and remove ", unit_dir);
    s.concat("/secure-delete-clean.{service,timer}")
}

/// What a Linux uninstall reports, given whether any unit file was removed.
pub fn uninstall_message(removed_any: bool) -> (s: String)
    ensures
        s@ == if removed_any {
            "removed the systemd user units and disabled the timer. (Already-cleaned data can't be brought back.)"@
        } else {
            "no secure-delete units were installed (already uninstalled)."@
        },
{
    if removed_any {
        String::from_str("removed the systemd user units and disabled the timer. (Already-cleaned data can't be brought back.)")
    } else {
        String::from_str("no secure-delete units were installed (already uninstalled).")
    }
}

// ------------------------------------------------------------------------------------------------
// Windows: per-user Run entry + VBScript launcher.
// ------------------------------------------------------------------------------------------------

/// The logon-entry name for a directory: `SecureDelete-Service-` and the first four bytes of the
/// SHA-256 of its absolute path, in hex.
pub open spec fn entry_name_spec(abs_dir: Seq<char>) -> Seq<char> {
    let d = sha256(vstd::utf8::encode_utf8(abs_dir));
    "SecureDelete-Service-"@ + hex(seq![d[0], d[1], d[2], d[3]])
}

/// A stable, per-directory entry name (so `uninstall` finds exactly what `install` made).
pub fn entry_name(abs_dir: &str) -> (s: String)
    ensures
        s@ == entry_name_spec(abs_dir@),
{
    let d = sha256_digest(abs_dir.as_bytes());
    let mut four: Vec<u8> = Vec::new();
    four.push(d[0]);
    four.push(d[1]);
    four.push(d[2]);
    four.push(d[3]);
    let h = hexs(four.as_slice());
    proof {
        assert(four@ =~= seq![d@[0], d@[1], d@[2], d@[3]]);
    }
    crate::text::cat("SecureDelete-Service-", h.as_str())
}

/// The command the launcher runs, as shown to the user.
pub open spec fn human_command(exe: Seq<char>, dir: Seq<char>, interval: u64, allow_system: bool) -> Seq<char> {
    exe + " service \""@ + dir + "\" --interval "@ + decimal(interval as nat) + system_flag(allow_system)
}

/// The VBScript launcher: runs the service command hidden (window style 0, no wait). Each `"`
/// inside the VBScript string literal is doubled.
pub open spec fn launcher_script(exe: Seq<char>, dir: Seq<char>, interval: u64, allow_system: bool) -> Seq<char> {
    "' Secure Delete quiet-mode launcher — runs the background free-space clean with no visible window.\r\nCreateObject(\"WScript.Shell\").Run \"\"\""@
        + exe + "\"\" service \"\""@ + dir + "\"\" --interval "@ + decimal(interval as nat) + system_flag(allow_system)
        + "\", 0, False\r\n"@
}

/// The launcher's command as shown, and the launcher script itself.
pub fn launcher(exe: &str, dir: &str, interval: u64, allow_system: bool) -> (r: (String, String))
    ensures
        r.0@ == human_command(exe@, dir@, interval, allow_system),
        r.1@ == launcher_script(exe@, dir@, interval, allow_system),
{
    let iv = u64_to_decimal(interval);
    let sys = system_flag_exec(allow_system);
    let hp = vec![exe, " service \"", dir, "\" --interval ", iv.as_str(), sys];
    let human = join_parts(hp.as_slice());
    let vp = vec![
        "' Secure Delete quiet-mode launcher — runs the background free-space clean with no visible window.\r\nCreateObject(\"WScript.Shell\").Run \"\"\"",
        exe,
        "\"\" service \"\"",
        dir,
        "\"\" --interval ",
        iv.as_str(),
        sys,
        "\", 0, False\r\n",
    ];
    let vbs = join_parts(vp.as_slice());
    proof {
        reveal_with_fuel(concat_all, 9);
        assert(human@ =~= human_command(exe@, dir@, interval, allow_system));
        assert(vbs@ =~= launcher_script(exe@, dir@, interval, allow_system));
    }
    (human, vbs)
}

/// The `Run` value: `wscript.exe "<launcher path>"`.
pub fn run_value(vbs_path: &str) -> (s: String)
    ensures
        s@ == "wscript.exe \""@ + vbs_path@ + "\""@,
{
    let s = crate::text::cat("wscript.exe \"", vbs_path);
    s.concat("\"")
}

/// What a Windows dry-run install reports.
pub fn install_dry_run_message_windows(vbs_path: &str, name: &str, human_cmd: &str, initial_clean: bool) -> (s: String)
    ensures
        s@ == "DRY-RUN (nothing changed):\n  launcher script: "@ + vbs_path@ + "\n  logon entry: HKCU\\...\\Run['"@ + name@
            + "']\n  runs at logon (hidden): "@ + human_cmd@ + "\n  initial deep clean: "@ + initial_clean_word(initial_clean),
{
    let parts = vec![
        "DRY-RUN (nothing changed):\n  launcher script: ",
        vbs_path,
        "\n  logon entry: HKCU\\...\\Run['",
        name,
        "']\n  runs at logon (hidden): ",
        human_cmd,
        "\n  initial deep clean: ",
        initial_clean_word_exec(initial_clean),
    ];
    let s = join_parts(parts.as_slice());
    proof {
        reveal_with_fuel(concat_all, 9);
        assert(s@ =~= "DRY-RUN (nothing changed):\n  launcher script: "@ + vbs_path@ + "\n  logon entry: HKCU\\...\\Run['"@ + name@
            + "']\n  runs at logon (hidden): "@ + human_cmd@ + "\n  initial deep clean: "@ + initial_clean_word(initial_clean));
    }
    s
}

/// What a Windows install reports after registering the entry.
pub fn install_message_windows(vbs_path: &str, name: &str, dir: &str, initial: &Option<Result<String, String>>) -> (s: String)
    ensures
        s@ == "quiet mode installed — runs at your next logon, per-user, no admin, no window.\n  launcher: "@ + vbs_path@
            + "\n  logon entry: HKCU\\...\\Run['"@ + name@ + "']\n  (remove any time with `secure-delete uninstall \""@ + dir@
            + "\"`)"@ + initial_clean_line("\n  "@, outcome_view(*initial)),
{
    let parts = vec![
        "quiet mode installed — runs at your next logon, per-user, no admin, no window.\n  launcher: ",
        vbs_path,
        "\n  logon entry: HKCU\\...\\Run['",
        name,
        "']\n  (remove any time with `secure-delete uninstall \"",
        dir,
        "\"`)",
    ];
    let s = join_parts(parts.as_slice());
    proof {
        reveal_with_fuel(concat_all, 8);
        assert(s@ =~= "quiet mode installed — runs at your next logon, per-user, no admin, no window.\n  launcher: "@ + vbs_path@
            + "\n  logon entry: HKCU\\...\\Run['"@ + name@ + "']\n  (remove any time with `secure-delete uninstall \""@ + dir@
            + "\"`)"@);
    }
    let tail = initial_clean_text("\n  ", initial);
    s.concat(tail.as_str())
}

/// What a Windows dry-run uninstall reports.
pub fn uninstall_dry_run_message_windows(name: &str) -> (s: String)
    ensures
        s@ == "DRY-RUN: would remove HKCU\\...\\Run['"@ + name@ + "'] + its launcher (already-cleaned data is not restorable)."@,
{
    let s = crate::text::cat("DRY-RUN: would remove HKCU\\...\\Run['", name);
    s.concat("'] + its launcher (already-cleaned data is not restorable).")
}

/// What removing the entry with `reg delete` came to: success, an entry that was never there
/// (already uninstalled), or a failure carrying `reg`'s error text, lower-cased and trimmed.
pub fn uninstall_outcome_windows(success: bool, stderr: &str, name: &str) -> (r: Result<String, String>)
    ensures
        ({
            let err = unicode_lowercase(stderr@);
            &&& success ==> (r matches Ok(s) && s@ == "quiet mode uninstalled — logon entry '"@ + name@
                + "' + launcher removed. (Already-cleaned data is not restorable; nothing to undo.)"@)
            &&& !success && (contains(err, "unable to find"@) || contains(err, "cannot find"@))
                ==> (r matches Ok(s) && s@ == "no quiet-mode entry '"@ + name@ + "' was registered (already uninstalled)."@)
            &&& !success && !(contains(err, "unable to find"@) || contains(err, "cannot find"@))
                ==> (r matches Err(e) && e@ == "removing the logon entry failed: "@ + trim(err))
        }),
{
    if success {
        let s = crate::text::cat("quiet mode uninstalled — logon entry '", name);
        return Ok(s.concat("' + launcher removed. (Already-cleaned data is not restorable; nothing to undo.)"));
    }
    let err = crate::text::to_lower(stderr);
    if crate::text::str_contains(err.as_str(), "unable to find") || crate::text::str_contains(err.as_str(), "cannot find") {
        let s = crate::text::cat("no quiet-mode entry '", name);
        Ok(s.concat("' was registered (already uninstalled)."))
    } else {
        let cs = crate::text::chars_of(err.as_str());
        let t = crate::text::trim_chars(cs.as_slice());
        let ts = crate::text::string_of(t.as_slice());
        Err(crate::text::cat("removing the logon entry failed: ", ts.as_str()))
    }
}

} // verus!
