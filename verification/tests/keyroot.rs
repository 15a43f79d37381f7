use secure_delete::keyroot::{
    default_provider, derive_wrap_key, hardware_available, hexs, provider_static, KeyRoot, KeyRootError,
    LinuxTpm2Root, MockKeyRoot, Platform, RootCtx, SealStep, UnavailableRoot, WindowsTpmRoot, RWK_LEN,
    ps_encoded, seal_result, tpm2_ok,
};

#[test]
fn combiner_is_deterministic_and_binds_info() {
    let rwk = [7u8; RWK_LEN];
    let kek = [9u8; 32];
    let salt = b"salt-salt-salt00";
    let a = derive_wrap_key(&rwk, &kek, salt, 2, "windows-pcp", "k1", "blob").unwrap();
    let b = derive_wrap_key(&rwk, &kek, salt, 2, "windows-pcp", "k1", "blob").unwrap();
    assert_eq!(a, b, "same inputs -> same key");
    let c = derive_wrap_key(&rwk, &kek, salt, 2, "windows-pcp", "k2", "blob").unwrap();
    assert_ne!(a, c, "key_id is bound");
    let d = derive_wrap_key(&rwk, &kek, salt, 3, "windows-pcp", "k1", "blob").unwrap();
    assert_ne!(a, d, "version is bound");
    let e = derive_wrap_key(&[8u8; RWK_LEN], &kek, salt, 2, "windows-pcp", "k1", "blob").unwrap();
    assert_ne!(a, e, "RWK is mandatory");
    let f = derive_wrap_key(&rwk, &[1u8; 32], salt, 2, "windows-pcp", "k1", "blob").unwrap();
    assert_ne!(a, f, "KEK is mandatory");
}

#[test]
fn combiner_binds_provider_salt_and_blob() {
    let rwk = [7u8; RWK_LEN];
    let kek = [9u8; 32];
    let a = derive_wrap_key(&rwk, &kek, b"salt-salt-salt00", 2, "windows-pcp", "k1", "blob").unwrap();
    assert_eq!(a.len(), 32);
    assert_ne!(a, derive_wrap_key(&rwk, &kek, b"salt-salt-salt00", 2, "mock", "k1", "blob").unwrap());
    assert_ne!(a, derive_wrap_key(&rwk, &kek, b"salt-salt-salt01", 2, "windows-pcp", "k1", "blob").unwrap());
    assert_ne!(a, derive_wrap_key(&rwk, &kek, b"salt-salt-salt00", 2, "windows-pcp", "k1", "blob2").unwrap());
    // the NUL separators keep the provider / key id boundary
    assert_ne!(a, derive_wrap_key(&rwk, &kek, b"salt-salt-salt00", 2, "windows-pc", "pk1", "blob").unwrap());
    assert_ne!(a.to_vec(), [rwk.to_vec(), kek.to_vec()].concat()[..32].to_vec());
}

#[test]
fn mock_seal_unseal_roundtrip_and_destroy() {
    let mut mk = MockKeyRoot::new();
    let ctx = RootCtx::new("vault-1");
    let rwk = [42u8; RWK_LEN];
    let wrapped = mk.seal_rwk(&ctx, &rwk).unwrap();
    assert!(mk.key_present(&ctx).unwrap());
    let got = mk.unseal_rwk(&ctx, &wrapped).unwrap();
    assert_eq!(got, rwk);
    assert_eq!(mk.seal_rwk(&ctx, &rwk).unwrap_err(), KeyRootError::KeyExists);
    mk.destroy(&ctx).unwrap();
    assert!(!mk.key_present(&ctx).unwrap());
    assert_eq!(mk.unseal_rwk(&ctx, &wrapped).unwrap_err(), KeyRootError::KeyNotFound);
    mk.destroy(&ctx).unwrap();
}

#[test]
fn mock_models_a_hardware_crypto_erase() {
    let mut root = MockKeyRoot::new();
    let ctx = RootCtx::new("vault-A");
    let rwk = [0x11u8; 32];
    let wrapped = root.seal_rwk(&ctx, &rwk).unwrap();
    assert_eq!(root.unseal_rwk(&ctx, &wrapped).unwrap(), rwk);
    root.destroy(&ctx).unwrap();
    assert_eq!(root.unseal_rwk(&ctx, &wrapped).unwrap_err(), KeyRootError::KeyNotFound);
}

#[test]
fn mock_keeps_ids_apart_and_rejects_bad_blobs() {
    let mut root = MockKeyRoot::new();
    let a = RootCtx::new("a");
    let b = RootCtx::new("b");
    let wa = root.seal_rwk(&a, &[1u8; 32]).unwrap();
    let wb = root.seal_rwk(&b, &[2u8; 32]).unwrap();
    assert_ne!(wa, wb);
    assert_ne!(wa, "AQEBAQEBAQEBAQEBAQEBAQEBAQEBAQEBAQEBAQEBAQE=", "the wrapped blob is not the RWK itself");
    root.destroy(&a).unwrap();
    assert_eq!(root.unseal_rwk(&b, &wb).unwrap(), vec![2u8; 32]);
    assert_eq!(root.unseal_rwk(&b, "not base64!").unwrap_err(), KeyRootError::CryptoFail);
    assert_eq!(root.unseal_rwk(&b, "AAAA").unwrap_err(), KeyRootError::CryptoFail);
    assert_eq!(root.provider_id(), "mock");
}

#[test]
fn exit_codes_map_to_errors() {
    assert_eq!(KeyRootError::from_exit(Some(10)), KeyRootError::NoUsableHw);
    assert_eq!(KeyRootError::from_exit(Some(11)), KeyRootError::KeyNotFound);
    assert_eq!(KeyRootError::from_exit(Some(12)), KeyRootError::CryptoFail);
    assert_eq!(KeyRootError::from_exit(Some(13)), KeyRootError::KeyExists);
    assert_eq!(KeyRootError::from_exit(Some(20)), KeyRootError::BadInput);
    assert_eq!(KeyRootError::from_exit(Some(7)), KeyRootError::Other(7));
    assert_eq!(KeyRootError::from_exit(None), KeyRootError::Other(-1));
    assert_eq!(KeyRootError::Other(-3).message(), "hardware helper failed (exit -3)");
    assert_eq!(KeyRootError::Other(42).message(), "hardware helper failed (exit 42)");
    assert_eq!(KeyRootError::KeyNotFound.message(), "the vault's hardware sealing key is gone");
}

#[test]
fn root_ctx_defaults_to_user_scope() {
    let c = RootCtx::new("k");
    assert_eq!(c.key_id, "k");
    assert_eq!(c.scope, "user");
}

#[test]
fn providers() {
    assert_eq!(default_provider(Platform::Windows), "windows-pcp");
    assert_eq!(default_provider(Platform::Linux), "tpm2-tools");
    assert_eq!(default_provider(Platform::MacOs), "secure-enclave");
    assert_eq!(default_provider(Platform::Other), "none");
    assert_eq!(provider_static("mock"), "mock");
    assert_eq!(provider_static("tpm2-tools"), "tpm2-tools");
    assert_eq!(provider_static("whatever"), "unknown-provider");
    assert!(hardware_available(Platform::Linux, true));
    assert!(!hardware_available(Platform::Linux, false));
    assert!(!hardware_available(Platform::MacOs, true));
}

#[test]
fn unavailable_root_refuses_everything() {
    let mut u = UnavailableRoot("secure-enclave");
    let ctx = RootCtx::new("k");
    assert_eq!(u.provider_id(), "secure-enclave");
    assert_eq!(u.seal_rwk(&ctx, &[0u8; 32]).unwrap_err(), KeyRootError::ToolUnavailable);
    assert_eq!(u.unseal_rwk(&ctx, "x").unwrap_err(), KeyRootError::ToolUnavailable);
    assert_eq!(u.destroy(&ctx).unwrap_err(), KeyRootError::ToolUnavailable);
    assert_eq!(u.key_present(&ctx).unwrap_err(), KeyRootError::ToolUnavailable);
}

#[test]
fn windows_helper_outcomes() {
    assert!(WindowsTpmRoot::probe(Ok(0)));
    assert!(!WindowsTpmRoot::probe(Ok(10)));
    assert!(!WindowsTpmRoot::probe(Err(KeyRootError::ToolUnavailable)));
    assert_eq!(WindowsTpmRoot::seal_outcome(0, "abc".to_string()).unwrap(), "abc");
    assert_eq!(WindowsTpmRoot::seal_outcome(0, String::new()).unwrap_err(), KeyRootError::Other(0));
    assert_eq!(WindowsTpmRoot::seal_outcome(13, "x".to_string()).unwrap_err(), KeyRootError::KeyExists);
    let rwk = [5u8; 32];
    let text = WindowsTpmRoot::seal_input(&rwk);
    assert_eq!(text, "BQUFBQUFBQUFBQUFBQUFBQUFBQUFBQUFBQUFBQUFBQU=");
    assert_eq!(WindowsTpmRoot::unseal_outcome(0, &text).unwrap(), rwk);
    assert_eq!(WindowsTpmRoot::unseal_outcome(0, "AAAA").unwrap_err(), KeyRootError::CryptoFail);
    assert_eq!(WindowsTpmRoot::unseal_outcome(11, &text).unwrap_err(), KeyRootError::KeyNotFound);
    assert!(WindowsTpmRoot::destroy_outcome(0).is_ok());
    assert_eq!(WindowsTpmRoot::destroy_outcome(1).unwrap_err(), KeyRootError::Other(1));
    assert_eq!(WindowsTpmRoot::present_outcome(0).unwrap(), true);
    assert_eq!(WindowsTpmRoot::present_outcome(11).unwrap(), false);
    assert_eq!(WindowsTpmRoot::present_outcome(12).unwrap_err(), KeyRootError::CryptoFail);
}

#[test]
fn linux_helper_outcomes() {
    let h = LinuxTpm2Root::handle("vault-1");
    assert!(h.starts_with("0x8101"));
    assert_eq!(h.len(), 10);
    assert_eq!(h, LinuxTpm2Root::handle("vault-1"));
    // sha256("abc") = ba7816bf...
    assert_eq!(LinuxTpm2Root::handle("abc"), "0x8101ba78");
    assert!(LinuxTpm2Root::is_persistent(0, "persistent-handle[0]: 0x81000001\n- 0x8101BA78\n", "0x8101ba78"));
    assert!(!LinuxTpm2Root::is_persistent(1, "0x8101ba78", "0x8101ba78"));
    assert!(!LinuxTpm2Root::is_persistent(0, "- 0x81000001\n", "0x8101ba78"));
    assert_eq!(LinuxTpm2Root::unseal_outcome(0, &[3u8; 32]).unwrap(), vec![3u8; 32]);
    assert_eq!(LinuxTpm2Root::unseal_outcome(0, &[3u8; 31]).unwrap_err(), KeyRootError::CryptoFail);
    assert_eq!(LinuxTpm2Root::unseal_outcome(2, &[3u8; 32]).unwrap_err(), KeyRootError::CryptoFail);
    assert!(LinuxTpm2Root::destroy_outcome(0).is_ok());
    assert_eq!(LinuxTpm2Root::destroy_outcome(5).unwrap_err(), KeyRootError::Other(5));
    assert!(LinuxTpm2Root::probe(Ok(0)));
    assert!(!LinuxTpm2Root::probe(Ok(1)));
}

#[test]
fn hex_encoding() {
    assert_eq!(hexs(&[0x00, 0x0f, 0xab, 0xff]), "000fabff");
    assert_eq!(hexs(&[]), "");
}

fn run_seal(events: &[Result<bool, KeyRootError>]) -> Vec<&'static str> {
    let mut step = SealStep::CheckHandle;
    let mut trace = Vec::new();
    for e in events {
        trace.push(match step {
            SealStep::CheckHandle => "check-handle",
            SealStep::CheckSrk => "check-srk",
            SealStep::SrkWorkDir => "srk-workdir",
            SealStep::SrkCreatePrimary => "createprimary",
            SealStep::SrkPersist => "persist-srk",
            SealStep::SrkCleanup(_) => "srk-cleanup",
            SealStep::SrkRecheck(_) => "srk-recheck",
            SealStep::WorkDir => "workdir",
            SealStep::Create => "create",
            SealStep::Load => "load",
            SealStep::Evict => "evict",
            SealStep::Cleanup(_) => "cleanup",
            SealStep::Done(_) => "done",
        });
        step = LinuxTpm2Root::seal_step(step, *e);
    }
    match step {
        SealStep::Done(Ok(())) => trace.push("sealed"),
        SealStep::Done(Err(_)) => trace.push("failed"),
        _ => trace.push("unfinished"),
    }
    trace
}

#[test]
fn linux_seal_walks_the_tpm_steps() {
    let ok = Ok(true);
    // fresh handle, SRK already there, everything succeeds
    assert_eq!(
        run_seal(&[Ok(false), ok, ok, ok, ok, ok, ok]),
        vec!["check-handle", "check-srk", "workdir", "create", "load", "evict", "cleanup", "sealed"]
    );
    // the handle is taken
    assert_eq!(run_seal(&[ok]), vec!["check-handle", "failed"]);
    // the SRK is created first; a failed load still cleans up
    assert_eq!(
        run_seal(&[Ok(false), Ok(false), ok, ok, ok, ok, Ok(false), ok, ok, Err(KeyRootError::CryptoFail), ok]),
        vec![
            "check-handle", "check-srk", "srk-workdir", "createprimary", "persist-srk", "srk-cleanup", "srk-recheck",
            "workdir", "create", "load", "cleanup", "failed"
        ]
    );
    // creating the SRK failed and nobody else made it
    assert_eq!(
        run_seal(&[Ok(false), Ok(false), ok, Err(KeyRootError::CryptoFail), ok, Ok(false)]),
        vec!["check-handle", "check-srk", "srk-workdir", "createprimary", "srk-cleanup", "srk-recheck", "failed"]
    );
    assert_eq!(seal_result(Ok(())), Ok(String::new()));
    assert_eq!(seal_result(Err(KeyRootError::KeyExists)), Err(KeyRootError::KeyExists));
}

#[test]
fn tpm2_exit_codes() {
    assert_eq!(tpm2_ok(Ok(0)), Ok(()));
    assert_eq!(tpm2_ok(Ok(3)), Err(KeyRootError::CryptoFail));
    assert_eq!(tpm2_ok(Err(KeyRootError::ToolUnavailable)), Err(KeyRootError::ToolUnavailable));
}


#[test]
fn powershell_scripts_are_utf16le_base64() {
    assert_eq!(ps_encoded("a"), "YQA=");
    assert_eq!(ps_encoded(""), "");
    // a character outside the basic plane becomes a surrogate pair
    assert_eq!(ps_encoded("é😀"), "6QA92ADe");
}


#[test]
fn mock_seal_with_hk_xors_and_refuses_a_taken_id() {
    let mut root = MockKeyRoot::new();
    let ctx = RootCtx { key_id: "k".to_string(), scope: "user".to_string() };
    let w = root.seal_with_hk(&ctx, &[1u8; RWK_LEN], vec![3u8; RWK_LEN]).unwrap();
    assert_eq!(w, "AgICAgICAgICAgICAgICAgICAgICAgICAgICAgICAgI=");
    assert_eq!(root.unseal_rwk(&ctx, &w).unwrap(), vec![1u8; RWK_LEN]);
    assert_eq!(root.seal_with_hk(&ctx, &[1u8; RWK_LEN], vec![4u8; RWK_LEN]).unwrap_err(), KeyRootError::KeyExists);
    assert_eq!(root.unseal_rwk(&ctx, &w).unwrap(), vec![1u8; RWK_LEN]);
}

#[test]
fn error_messages_are_distinct_and_show_the_exit_code() {
    let all = [
        KeyRootError::NoUsableHw,
        KeyRootError::KeyNotFound,
        KeyRootError::CryptoFail,
        KeyRootError::KeyExists,
        KeyRootError::BadInput,
        KeyRootError::ToolUnavailable,
        KeyRootError::Other(7),
        KeyRootError::Other(-7),
        KeyRootError::Other(70),
    ];
    for (i, a) in all.iter().enumerate() {
        assert!(!a.message().contains("passphrase"));
        for b in all.iter().skip(i + 1) {
            assert_ne!(a.message(), b.message());
        }
    }
    assert!(KeyRootError::Other(42).message().contains("42"));
    assert_eq!(KeyRootError::Other(-3).message(), "hardware helper failed (exit -3)");
}
