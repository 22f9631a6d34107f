use villflow::settings::{Settings, VaultMode};
use villflow::vault::{
    protect_finish, protect_plan, protect_settings_for_disk, unprotect_finish, unprotect_plan,
    vault_clear_session, vault_enable_dpapi, vault_enable_passphrase, vault_needs_unlock,
    protect_keys_for_disk, unprotect_settings_secrets, vault_session_active, vault_unlock, DiskSettings, DpapiStep,
    VaultSession,
};
use villflow::settings::VaultSealed;

#[test]
fn passphrase_round_trip() {
    let mut session = VaultSession::new();
    let mut s = Settings::default();
    s.stt.api_keys = vec!["el_key_1".into()];
    s.llm.api_key = "gsk_test".into();
    vault_enable_passphrase(&mut s, &mut session, "correct horse battery").unwrap();
    assert_eq!(s.vault.mode, VaultMode::Passphrase);

    let disk = match protect_settings_for_disk(s.clone(), &session).unwrap() {
        DiskSettings::Sealed(d) => d,
        DiskSettings::ProtectKeys(_) => panic!("expected a sealed vault"),
    };
    assert!(disk.stt.api_keys.is_empty());
    assert!(disk.llm.api_key.is_empty());
    assert!(disk.vault.sealed.is_some());

    vault_clear_session(&mut session);
    let mut locked = disk;
    let none_yet: Vec<Option<String>> = vec![None; locked.stt.api_keys.len()];
    unprotect_settings_secrets(&mut locked, none_yet, None);
    assert!(vault_needs_unlock(&locked, &session));

    vault_unlock(&mut locked, &mut session, "correct horse battery").unwrap();
    assert_eq!(locked.stt.api_keys, vec!["el_key_1".to_string()]);
    assert_eq!(locked.llm.api_key, "gsk_test");
    assert!(vault_session_active(&session));
    vault_clear_session(&mut session);
}

#[test]
fn wrong_passphrase_fails() {
    let mut session = VaultSession::new();
    let mut s = Settings::default();
    s.llm.api_key = "secret".into();
    vault_enable_passphrase(&mut s, &mut session, "good-passphrase").unwrap();
    let disk = match protect_settings_for_disk(s, &session).unwrap() {
        DiskSettings::Sealed(d) => d,
        DiskSettings::ProtectKeys(_) => panic!("expected a sealed vault"),
    };
    vault_clear_session(&mut session);
    let mut locked = disk;
    assert_eq!(
        vault_unlock(&mut locked, &mut session, "bad-passphrase").unwrap_err(),
        "Wrong passphrase or corrupted vault"
    );
    assert!(locked.llm.api_key.is_empty());
}

#[test]
fn empty_ok() {
    assert!(matches!(protect_plan(""), DpapiStep::Done(s) if s.is_empty()));
    assert!(matches!(unprotect_plan("").unwrap(), DpapiStep::Done(s) if s.is_empty()));
}

#[test]
fn vault_rules() {
    let mut session = VaultSession::new();
    let mut s = Settings::default();
    assert_eq!(
        vault_enable_passphrase(&mut s, &mut session, "short").unwrap_err(),
        "Passphrase must be at least 8 characters"
    );
    assert_eq!(vault_unlock(&mut s, &mut session, "whatever").unwrap_err(), "Vault is not in passphrase mode");
    s.vault.mode = VaultMode::Passphrase;
    assert_eq!(
        vault_unlock(&mut s, &mut session, "whatever").unwrap_err(),
        "No sealed vault — enable passphrase mode first"
    );
    assert_eq!(
        protect_settings_for_disk(s.clone(), &session).unwrap_err(),
        "Unlock the vault before saving keys"
    );
    vault_enable_dpapi(&mut s, &mut session).unwrap();
    assert_eq!(s.vault.mode, VaultMode::Dpapi);
    assert!(matches!(protect_settings_for_disk(s, &session).unwrap(), DiskSettings::ProtectKeys(d) if d.vault.sealed.is_none()));
}

#[test]
fn dpapi_framing() {
    assert!(matches!(protect_plan("  vfdpapi1:abc "), DpapiStep::Done(s) if s == "vfdpapi1:abc"));
    assert!(matches!(protect_plan(" key "), DpapiStep::Call(b) if b == b"key".to_vec()));
    assert_eq!(protect_finish(&[1, 2, 3]).unwrap(), "vfdpapi1:AQID");
    assert!(protect_finish(&[]).is_err());
    assert!(matches!(unprotect_plan("plain-key").unwrap(), DpapiStep::Done(s) if s == "plain-key"));
    assert!(matches!(unprotect_plan("vfdpapi1:AQID").unwrap(), DpapiStep::Call(b) if b == vec![1, 2, 3]));
    assert!(unprotect_plan("vfdpapi1:***").unwrap_err().starts_with("DPAPI blob base64 decode failed: "));
    assert_eq!(unprotect_finish(b"key".to_vec()).unwrap(), "key");
    assert_eq!(
        unprotect_finish(vec![0xff]).unwrap_err(),
        "DPAPI plaintext not UTF-8: invalid utf-8 sequence of 1 bytes from index 0"
    );
}

#[test]
fn unprotected_keys_are_put_in_place() {
    let mut s = Settings::default();
    s.vault.mode = VaultMode::Dpapi;
    s.vault.sealed = Some(VaultSealed { salt_b64: "a".into(), nonce_b64: "b".into(), ciphertext_b64: "c".into() });
    s.stt.api_keys = vec!["vfdpapi1:AAAA".into(), "vfdpapi1:BBBB".into()];
    s.llm.api_key = "vfdpapi1:CCCC".into();
    unprotect_settings_secrets(&mut s, vec![Some("el_one".into()), None], Some("gsk_plain".into()));
    assert_eq!(s.stt.api_keys, vec!["el_one".to_string(), "vfdpapi1:BBBB".to_string()]);
    assert_eq!(s.llm.api_key, "gsk_plain");
    assert!(s.vault.sealed.is_none());

    let mut p = Settings::default();
    p.vault.mode = VaultMode::Passphrase;
    p.stt.api_keys = vec!["left".into()];
    let before = p.clone();
    unprotect_settings_secrets(&mut p, vec![Some("ignored".into())], Some("ignored".into()));
    assert_eq!(p, before);
}

#[test]
fn dpapi_framing_round_trip_and_idempotence() {
    let blob: Vec<u8> = (0u8..=200).collect();
    let stored = protect_finish(&blob).unwrap();
    assert!(matches!(unprotect_plan(&stored).unwrap(), DpapiStep::Call(b) if b == blob));
    assert!(matches!(protect_plan(&stored), DpapiStep::Done(s) if s == stored));
}

#[test]
fn enabling_the_user_store_keeps_everything_else() {
    let mut session = VaultSession::new();
    let mut s = Settings::default();
    s.llm.api_key = "gsk".into();
    vault_enable_passphrase(&mut s, &mut session, "long enough pass").unwrap();
    let mut expected = s.clone();
    vault_enable_dpapi(&mut s, &mut session).unwrap();
    expected.vault.mode = VaultMode::Dpapi;
    expected.vault.sealed = None;
    assert_eq!(s, expected);
    assert!(!vault_session_active(&session));
}

#[test]
fn user_store_saving_frames_every_key() {
    let mut s = Settings::default();
    s.vault.mode = VaultMode::Dpapi;
    s.stt.api_keys = vec!["  ".into(), " vfdpapi1:AQID ".into(), " el_plain ".into()];
    s.llm.api_key = "gsk".into();
    let os = vec![None, None, Some(Ok(vec![9u8, 8, 7]))];
    let out = protect_keys_for_disk(s.clone(), os, Some(Ok(vec![1u8]))).unwrap();
    assert_eq!(out.stt.api_keys, vec!["".to_string(), "vfdpapi1:AQID".to_string(), "vfdpapi1:CQgH".to_string()]);
    assert_eq!(out.llm.api_key, "vfdpapi1:AQ==");
    assert!(matches!(unprotect_plan(&out.stt.api_keys[2]).unwrap(), DpapiStep::Call(b) if b == vec![9, 8, 7]));
    assert_eq!(out.general, s.general);

    let failing = vec![None, None, Some(Err("DPAPI CryptProtectData failed: denied".to_string()))];
    assert_eq!(
        protect_keys_for_disk(s.clone(), failing, None).unwrap_err(),
        "DPAPI CryptProtectData failed: denied"
    );
    let empty = vec![None, None, Some(Ok(Vec::new()))];
    assert_eq!(protect_keys_for_disk(s, empty, None).unwrap_err(), "DPAPI returned empty blob");
}
