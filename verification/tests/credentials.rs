use base64::Engine;
use cc_switch_auth::auth_commands::CredentialsState;
use cc_switch_auth::credentials::{
    CredentialEntry, CredentialsManager, CredentialsStore, ProviderCredentials,
};

/// Changes the entries of the first provider of `store`, as a store read from
/// disk may hold them.
fn edit_entries(store: CredentialsStore, f: impl FnOnce(&mut Vec<CredentialEntry>)) -> CredentialsStore {
    let (version, mut providers) = store.into_parts();
    f(&mut providers[0].1.entries);
    CredentialsStore::from_providers(version, providers).unwrap()
}

fn manager(machine_id: &str) -> CredentialsManager {
    CredentialsManager::new("/tmp/cc-switch-data".to_string(), Ok(machine_id.to_string())).unwrap()
}

#[test]
fn test_save_and_get_credential() {
    let manager = manager("test-machine");
    let mut store = CredentialsStore::default();

    manager
        .save_credential(&mut store, "github", "testuser", "testpassword", Some("Test User".to_string()))
        .unwrap();

    let creds = manager.get_credentials(&store, "github");
    assert_eq!(creds.len(), 1);
    assert_eq!(creds[0].username, "testuser");

    let decrypted = manager.get_credential(&store, "github", "testuser").unwrap().unwrap();
    assert_eq!(decrypted.password, "testpassword");
}

#[test]
fn test_delete_credential() {
    let manager = manager("test-machine");
    let mut store = CredentialsStore::default();

    manager.save_credential(&mut store, "github", "user1", "pass1", None).unwrap();
    manager.save_credential(&mut store, "github", "user2", "pass2", None).unwrap();

    manager.delete_credential(&mut store, "github", "user1");

    let creds = manager.get_credentials(&store, "github");
    assert_eq!(creds.len(), 1);
    assert_eq!(creds[0].username, "user2");
}

#[test]
fn new_store_is_empty_with_version_one() {
    let store = CredentialsStore::default();
    assert_eq!(store.version(), 1);
    assert!(store.providers().is_empty());
}

#[test]
fn manager_store_path_is_in_data_dir() {
    let m = manager("id");
    assert_eq!(m.store_path(), "/tmp/cc-switch-data/credentials.json");
}

#[test]
fn manager_without_machine_id_fails() {
    let r = CredentialsManager::new("/tmp/x".to_string(), Err("no id".to_string()));
    assert_eq!(r.err(), Some("no id".to_string()));
}

#[test]
fn saving_again_updates_instead_of_adding() {
    let m = manager("machine");
    let mut store = CredentialsStore::default();
    m.save_credential(&mut store, "github", "alice", "first", Some("A".to_string())).unwrap();
    let created = store.providers()[0].1.entries[0].created_at.clone();
    m.save_credential(&mut store, "github", "alice", "second", Some("Alice".to_string())).unwrap();
    let infos = m.get_credentials(&store, "github");
    assert_eq!(infos.len(), 1);
    assert_eq!(infos[0].display_name.as_deref(), Some("Alice"));
    assert_eq!(infos[0].created_at, created);
    let c = m.get_credential(&store, "github", "alice").unwrap().unwrap();
    assert_eq!(c.password, "second");
    assert_eq!(c.username, "alice");
    assert_eq!(c.display_name.as_deref(), Some("Alice"));
}

#[test]
fn stored_password_is_sealed_not_plain() {
    let m = manager("machine");
    let mut store = CredentialsStore::default();
    m.save_credential(&mut store, "github", "bob", "hunter2", None).unwrap();
    let e = &store.providers()[0].1.entries[0];
    assert_ne!(e.encrypted_password, "hunter2");
    assert!(!e.encrypted_password.contains("hunter2"));
    // 12-byte nonce in padded base64 is 16 characters.
    assert_eq!(e.nonce.len(), 16);
    // 7 bytes of password plus a 16-byte tag make 23 bytes: 32 base64 characters.
    assert_eq!(e.encrypted_password.len(), 32);
    assert!(!e.created_at.is_empty());
    assert!(e.last_used_at.is_none());
}

#[test]
fn two_saves_use_different_nonces() {
    let m = manager("machine");
    let mut store = CredentialsStore::default();
    m.save_credential(&mut store, "p", "u1", "same", None).unwrap();
    m.save_credential(&mut store, "p", "u2", "same", None).unwrap();
    let es = &store.providers()[0].1.entries;
    assert_ne!(es[0].nonce, es[1].nonce);
    assert_ne!(es[0].encrypted_password, es[1].encrypted_password);
}

#[test]
fn other_machine_cannot_unseal() {
    let m1 = manager("machine-one");
    let m2 = manager("machine-two");
    let mut store = CredentialsStore::default();
    m1.save_credential(&mut store, "github", "carol", "secret", None).unwrap();
    let err = m2.get_credential(&store, "github", "carol").unwrap_err();
    assert!(err.starts_with("Decryption error: "), "{err}");
    let ok = m1.get_credential(&store, "github", "carol").unwrap().unwrap();
    assert_eq!(ok.password, "secret");
}

#[test]
fn unicode_password_round_trips() {
    let m = manager("machine");
    let mut store = CredentialsStore::default();
    m.save_credential(&mut store, "gh", "dave", "pässwörd 密码", None).unwrap();
    let c = m.get_credential(&store, "gh", "dave").unwrap().unwrap();
    assert_eq!(c.password, "pässwörd 密码");
}

#[test]
fn missing_entries_give_none_and_empty_lists() {
    let m = manager("machine");
    let mut store = CredentialsStore::default();
    assert!(m.get_credential(&store, "github", "nobody").unwrap().is_none());
    assert!(m.get_credentials(&store, "github").is_empty());
    m.save_credential(&mut store, "github", "erin", "pw", None).unwrap();
    assert!(m.get_credential(&store, "github", "nobody").unwrap().is_none());
    assert!(m.get_credential(&store, "gitlab", "erin").unwrap().is_none());
}

#[test]
fn providers_are_kept_apart() {
    let m = manager("machine");
    let mut store = CredentialsStore::default();
    m.save_credential(&mut store, "github", "same", "one", None).unwrap();
    m.save_credential(&mut store, "github_copilot", "same", "two", None).unwrap();
    assert_eq!(store.providers().len(), 2);
    assert_eq!(m.get_credential(&store, "github", "same").unwrap().unwrap().password, "one");
    assert_eq!(m.get_credential(&store, "github_copilot", "same").unwrap().unwrap().password, "two");
    m.delete_all_credentials(&mut store, "github");
    assert!(m.get_credentials(&store, "github").is_empty());
    assert_eq!(m.get_credentials(&store, "github_copilot").len(), 1);
    assert_eq!(store.providers().len(), 1);
}

#[test]
fn delete_removes_every_entry_of_the_user() {
    let m = manager("machine");
    let mut store = CredentialsStore::default();
    m.save_credential(&mut store, "gh", "keep", "k", None).unwrap();
    // A store read from disk may hold the same user twice.
    let dup = CredentialEntry {
        username: "gone".to_string(),
        encrypted_password: String::new(),
        nonce: String::new(),
        display_name: None,
        created_at: "t".to_string(),
        last_used_at: None,
    };
    let dup2 = CredentialEntry { created_at: "t2".to_string(), ..dup_clone(&dup) };
    let mut store = edit_entries(store, |es| {
        es.push(dup);
        es.push(dup2);
    });
    m.delete_credential(&mut store, "gh", "gone");
    let infos = m.get_credentials(&store, "gh");
    assert_eq!(infos.len(), 1);
    assert_eq!(infos[0].username, "keep");
    // Deleting in an unknown provider changes nothing.
    m.delete_credential(&mut store, "unknown", "keep");
    assert_eq!(m.get_credentials(&store, "gh").len(), 1);
}

fn dup_clone(e: &CredentialEntry) -> CredentialEntry {
    CredentialEntry {
        username: e.username.clone(),
        encrypted_password: e.encrypted_password.clone(),
        nonce: e.nonce.clone(),
        display_name: e.display_name.clone(),
        created_at: e.created_at.clone(),
        last_used_at: e.last_used_at.clone(),
    }
}

#[test]
fn update_last_used_stamps_only_existing_entries() {
    let m = manager("machine");
    let mut store = CredentialsStore::default();
    m.save_credential(&mut store, "gh", "frank", "pw", None).unwrap();
    assert!(!m.update_last_used(&mut store, "gh", "nobody"));
    assert!(!m.update_last_used(&mut store, "other", "frank"));
    assert!(m.get_credentials(&store, "gh")[0].last_used_at.is_none());
    assert!(m.update_last_used(&mut store, "gh", "frank"));
    let info = &m.get_credentials(&store, "gh")[0];
    assert!(info.last_used_at.is_some());
    assert_eq!(m.get_credential(&store, "gh", "frank").unwrap().unwrap().password, "pw");
}

#[test]
fn corrupt_texts_give_step_errors() {
    let m = manager("machine");
    let mut store = CredentialsStore::default();
    m.save_credential(&mut store, "gh", "gina", "pw", None).unwrap();
    let good_nonce = store.providers()[0].1.entries[0].nonce.clone();

    let store = edit_entries(store, |es| es[0].encrypted_password = "!!not base64!!".to_string());
    let e = m.get_credential(&store, "gh", "gina").unwrap_err();
    assert!(e.starts_with("Base64 decode error: "), "{e}");

    let store = edit_entries(store, |es| {
        es[0].encrypted_password = "AAAA".to_string();
        es[0].nonce = "***".to_string();
    });
    let e = m.get_credential(&store, "gh", "gina").unwrap_err();
    assert!(e.starts_with("Nonce decode error: "), "{e}");

    let store = edit_entries(store, |es| es[0].nonce = good_nonce);
    let e = m.get_credential(&store, "gh", "gina").unwrap_err();
    assert!(e.starts_with("Decryption error: "), "{e}");
}

#[test]
fn nonce_of_wrong_length_is_refused_by_try_get() {
    let m = manager("machine");
    let mut store = CredentialsStore::default();
    m.save_credential(&mut store, "gh", "hank", "pw", None).unwrap();
    assert!(matches!(m.try_get_credential(&store, "gh", "hank"), Some(Ok(Some(_)))));
    // "AAAA" decodes to three bytes, not twelve.
    let store = edit_entries(store, |es| es[0].nonce = "AAAA".to_string());
    assert!(m.try_get_credential(&store, "gh", "hank").is_none());
    assert!(matches!(m.try_get_credential(&store, "gh", "nobody"), Some(Ok(None))));
}

#[test]
fn credentials_state_reports_missing_manager() {
    let state = CredentialsState::new("/tmp/d".to_string(), Err("boom".to_string()));
    assert!(state.manager.is_none());
    assert_eq!(state.get_manager().err(), Some("Credentials manager not initialized".to_string()));
    let ok = CredentialsState::new("/tmp/d".to_string(), Ok("id".to_string()));
    assert!(ok.get_manager().is_ok());
}

#[test]
fn provider_credentials_default_is_empty() {
    let p = ProviderCredentials::default();
    assert!(p.entries.is_empty());
}

#[test]
fn store_refuses_a_provider_twice() {
    let pc = || ProviderCredentials { entries: Vec::new() };
    assert!(CredentialsStore::from_providers(1, vec![("a".to_string(), pc()), ("a".to_string(), pc())]).is_none());
    let st = CredentialsStore::from_providers(1, vec![("a".to_string(), pc()), ("b".to_string(), pc())]).unwrap();
    assert_eq!(st.version(), 1);
    assert_eq!(st.providers().len(), 2);
}

#[test]
fn sealed_texts_hold_a_twelve_byte_nonce_and_a_tagged_ciphertext() {
    let engine = base64::engine::general_purpose::STANDARD;
    let m = manager("machine");
    for (user, pw) in [("empty", ""), ("ascii", "hunter2"), ("wide", "пароль🔑")] {
        let mut store = CredentialsStore::default();
        m.save_credential(&mut store, "gh", user, pw, None).unwrap();
        let e = &store.providers()[0].1.entries[0];
        assert_eq!(engine.decode(&e.nonce).unwrap().len(), 12);
        assert_eq!(engine.decode(&e.encrypted_password).unwrap().len(), pw.len() + 16);
        assert_eq!(m.get_credential(&store, "gh", user).unwrap().unwrap().password, pw);
    }
}

#[test]
fn save_with_given_nonce_and_time_is_exact() {
    let engine = base64::engine::general_purpose::STANDARD;
    let m = manager("machine");
    let nonce = [7u8; 12];
    let mut a = CredentialsStore::default();
    let mut b = CredentialsStore::default();
    m.save_credential_with(&mut a, "gh", "ivy", "pw", Some("Ivy".to_string()), &nonce, "t0".to_string()).unwrap();
    m.save_credential_with(&mut b, "gh", "ivy", "pw", None, &nonce, "t1".to_string()).unwrap();
    let ea = &a.providers()[0].1.entries[0];
    let eb = &b.providers()[0].1.entries[0];
    assert_eq!(ea.nonce, engine.encode(nonce));
    assert_eq!(ea.encrypted_password, eb.encrypted_password);
    assert_eq!(ea.created_at, "t0");
    assert_eq!(eb.created_at, "t1");
    assert_eq!(ea.display_name.as_deref(), Some("Ivy"));
    assert!(ea.last_used_at.is_none());
    assert_eq!(m.get_credential(&a, "gh", "ivy").unwrap().unwrap().password, "pw");
}

#[test]
fn stamping_with_a_given_time_sets_exactly_that_time() {
    let m = manager("machine");
    let mut store = CredentialsStore::default();
    m.save_credential(&mut store, "gh", "jo", "pw", None).unwrap();
    assert!(!m.update_last_used_at(&mut store, "gh", "nobody", "t".to_string()));
    assert!(m.update_last_used_at(&mut store, "gh", "jo", "2030-01-01T00:00:00+00:00".to_string()));
    assert_eq!(
        m.get_credentials(&store, "gh")[0].last_used_at.as_deref(),
        Some("2030-01-01T00:00:00+00:00")
    );
}

#[test]
fn save_stamps_creation_time_in_rfc3339() {
    let m = manager("machine");
    let mut store = CredentialsStore::default();
    m.save_credential(&mut store, "gh", "kim", "pw", None).unwrap();
    let created = &store.providers()[0].1.entries[0].created_at;
    assert!(chrono::DateTime::parse_from_rfc3339(created).is_ok(), "{created}");
    assert!(created.ends_with("+00:00"));
}
