use secure_delete::install::{
    abs_display, entry_name, install_dry_run_message, install_dry_run_message_windows, install_message,
    install_message_windows, launcher, run_value, systemd_units, uninstall_dry_run_message,
    uninstall_dry_run_message_windows, uninstall_message, uninstall_outcome_windows, user_unit_dir, InstallError,
    install_steps, InstallStep,
};

#[test]
fn units_run_the_clean_on_a_timer() {
    let (svc, timer) = systemd_units("/usr/bin/secure-delete", "/data", 21600, false);
    assert!(svc.contains("ExecStart=/usr/bin/secure-delete clean \"/data\" --execute\n"));
    assert!(timer.contains("OnUnitActiveSec=21600s\n"));
    let (svc, _) = systemd_units("sd", "/", 60, true);
    assert!(svc.contains("--execute --allow-system-volume\n"));
}

#[test]
fn unit_dir_resolution() {
    assert_eq!(user_unit_dir(Some("/cfg"), Some("/home/u")).unwrap(), "/cfg/systemd/user");
    assert_eq!(user_unit_dir(None, Some("/home/u")).unwrap(), "/home/u/.config/systemd/user");
    assert_eq!(user_unit_dir(None, None), Err(InstallError::NoConfigDir));
}

#[test]
fn linux_messages() {
    let m = install_dry_run_message("/u", true);
    assert!(m.starts_with("DRY-RUN"));
    assert!(m.contains("systemctl"));
    assert!(m.ends_with("initial deep clean: yes"));
    assert!(install_dry_run_message("/u", false).ends_with("no (--no-initial-clean)"));
    let ok = install_message("/u", true, &Some(Ok("done".to_string())));
    assert_eq!(ok, "wrote the systemd user units to /u\nenabled secure-delete-clean.timer; it cleans on a schedule now.\ninitial deep clean: done");
    let no = install_message("/u", false, &Some(Err("boom".to_string())));
    assert!(no.contains("no systemd user session"));
    assert!(no.ends_with("\ninitial deep clean skipped: boom"));
    assert!(uninstall_dry_run_message("/u").contains("DRY-RUN"));
    assert!(uninstall_message(true).starts_with("removed"));
    assert!(uninstall_message(false).contains("already uninstalled"));
}

#[test]
fn windows_entry_and_launcher() {
    let n = entry_name(r"C:\data");
    assert!(n.starts_with("SecureDelete-Service-"));
    assert_eq!(n.len(), "SecureDelete-Service-".len() + 8);
    assert_eq!(n, entry_name(r"C:\data"));
    assert_ne!(n, entry_name(r"C:\other"));
    // SHA-256("abc") starts ba 78 16 bf
    assert_eq!(entry_name("abc"), "SecureDelete-Service-ba7816bf");
    let (human, vbs) = launcher(r"C:\sd.exe", r"C:\data", 3600, true);
    assert_eq!(human, r#"C:\sd.exe service "C:\data" --interval 3600 --allow-system-volume"#);
    assert!(vbs.contains(r#".Run """C:\sd.exe"" service ""C:\data"" --interval 3600 --allow-system-volume", 0, False"#));
    assert_eq!(run_value(r"C:\a.vbs"), r#"wscript.exe "C:\a.vbs""#);
    assert_eq!(abs_display(Some(r"\\?\C:\data"), "x"), r"C:\data");
    assert_eq!(abs_display(None, "rel"), "rel");
}

#[test]
fn windows_messages() {
    let d = install_dry_run_message_windows("v.vbs", "N", "cmd", false);
    assert!(d.contains("DRY-RUN"));
    assert!(d.to_lowercase().contains("logon"));
    let m = install_message_windows("v.vbs", "N", r"C:\d", &None);
    assert!(m.ends_with(r#"(remove any time with `secure-delete uninstall "C:\d"`)"#));
    assert!(uninstall_dry_run_message_windows("N").contains("DRY-RUN"));
    assert!(uninstall_outcome_windows(true, "", "N").unwrap().contains("uninstalled"));
    assert!(uninstall_outcome_windows(false, "error: unable to find the specified registry key", "N").unwrap().contains("already uninstalled"));
    assert_eq!(uninstall_outcome_windows(false, "Access Denied\r\n", "N").unwrap_err(), "removing the logon entry failed: access denied");
    assert!(uninstall_outcome_windows(false, "ERROR: The system was Unable To Find the key", "N").is_ok());
}

#[test]
fn dry_run_describes_the_plan_and_changes_nothing() {
    let plan = install_dry_run_message_windows(r"C:\Users\u\AppData\Local\SecureDelete\N.vbs", "N", "sd service", false);
    assert!(plan.contains("DRY-RUN"), "got: {plan}");
    assert!(plan.to_lowercase().contains("logon"), "got: {plan}");
    let plan = install_dry_run_message("/home/u/.config/systemd/user", false);
    assert!(plan.contains("systemctl"), "got: {plan}");
    let un = uninstall_dry_run_message("/home/u/.config/systemd/user");
    assert!(un.contains("DRY-RUN"), "got: {un}");
    let un = uninstall_dry_run_message_windows("N");
    assert!(un.contains("DRY-RUN"), "got: {un}");
}

#[test]
fn dry_run_runs_no_step() {
    assert!(install_steps(true, true).is_empty());
    assert!(install_steps(true, false).is_empty());
    assert_eq!(
        install_steps(false, true),
        vec![InstallStep::CreateDir, InstallStep::WriteFiles, InstallStep::Register, InstallStep::InitialClean]
    );
    assert_eq!(install_steps(false, false), vec![InstallStep::CreateDir, InstallStep::WriteFiles, InstallStep::Register]);
}
