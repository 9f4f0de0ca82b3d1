use agentos_core::identity::{
    AgentOsId, CredentialError, CredentialId, DeviceId, EncryptedFileCredentialStore,
    FakeCryptoProvider, LocalMasterKeyRef, SecretValue,
};

#[test]
fn fake_sign_produces_expected_signature() {
    let crypto = FakeCryptoProvider;
    let key = LocalMasterKeyRef::from("master-key-1");
    let sig = crypto.sign("challenge-1", &key);
    assert_eq!(sig, "signed:challenge-1");
}

#[test]
fn fake_verify_accepts_valid_signature() {
    let crypto = FakeCryptoProvider;
    assert!(crypto.verify("challenge-1", "signed:challenge-1"));
}

#[test]
fn fake_verify_rejects_invalid_signature() {
    let crypto = FakeCryptoProvider;
    assert!(!crypto.verify("challenge-1", "wrong-signature"));
    assert!(!crypto.verify("challenge-1", "signed:challenge-2"));
}

#[test]
fn fake_create_proof_and_verify() {
    let crypto = FakeCryptoProvider;
    let key = LocalMasterKeyRef::from("master-key-1");
    let proof = crypto.create_proof(
        &AgentOsId::from("agent-1"),
        &DeviceId::from("device-1"),
        "challenge-abc",
        &key,
    );
    assert_eq!(proof.agentos_id, AgentOsId::from("agent-1"));
    assert_eq!(proof.device_id, DeviceId::from("device-1"));
    assert_eq!(proof.signature, "signed:challenge-abc");
    assert!(crypto.verify_proof(&proof));
}

#[test]
fn fake_proof_with_tampered_challenge_fails() {
    let crypto = FakeCryptoProvider;
    let key = LocalMasterKeyRef::from("master-key-1");
    let mut proof = crypto.create_proof(
        &AgentOsId::from("agent-1"),
        &DeviceId::from("device-1"),
        "challenge-abc",
        &key,
    );
    proof.challenge = "tampered".to_string();
    assert!(!crypto.verify_proof(&proof));
}

#[test]
fn secret_value_exposes_its_secret() {
    let secret = SecretValue::new("super-secret-token");
    assert_eq!(secret.expose_secret(), "super-secret-token");
}

#[test]
fn encrypted_file_credential_store_skeleton_returns_typed_error() {
    let store = EncryptedFileCredentialStore::new("/tmp/agentos-credentials.enc");
    assert_eq!(store.path(), "/tmp/agentos-credentials.enc");
    assert!(matches!(
        store.skeleton_error(),
        CredentialError::EncryptionUnavailable(reason) if reason.contains("skeleton")
            && reason.ends_with("/tmp/agentos-credentials.enc")
    ));
}

#[test]
fn identity_ids_display() {
    assert_eq!(AgentOsId::from("agent-1").to_string(), "agent-1");
    assert_eq!(DeviceId::from("device-1").as_str(), "device-1");
    assert_eq!(CredentialId::from("cred-1").to_string(), "cred-1");
}

use agentos_core::identity::{
    CredentialRecord, CredentialScope, MemoryCredentialStore, MemoryIdentityStore, PublicIdentity,
};

fn sample_credential(id: &str, secret: &str) -> CredentialRecord {
    CredentialRecord::new(
        CredentialId::from(id),
        CredentialScope::Connector { connector_id: "github".to_string() },
        format!("Credential {id}"),
        SecretValue::new(secret),
        1779710400,
    )
}

fn identity(id: &str, name: &str) -> PublicIdentity {
    PublicIdentity {
        agentos_id: AgentOsId::from(id),
        device_id: DeviceId::from("device-1"),
        display_name: name.to_string(),
        created_at: 1779710400,
    }
}

#[test]
fn memory_credential_store_write_and_read_secret() {
    let mut store = MemoryCredentialStore::new();
    let record = sample_credential("cred-1", "secret-value");
    store.write(record.clone()).unwrap();
    let fetched = store.read(&CredentialId::from("cred-1")).unwrap();
    assert_eq!(fetched.metadata, record.metadata);
    assert_eq!(fetched.secret.expose_secret(), "secret-value");
}

#[test]
fn memory_credential_store_overwrites_same_id() {
    let mut store = MemoryCredentialStore::new();
    store.write(sample_credential("cred-1", "old")).unwrap();
    store.write(sample_credential("cred-1", "new")).unwrap();
    assert_eq!(store.list_metadata().unwrap().len(), 1);
    assert_eq!(store.read(&CredentialId::from("cred-1")).unwrap().secret.expose_secret(), "new");
}

#[test]
fn memory_credential_store_delete_secret() {
    let mut store = MemoryCredentialStore::new();
    store.write(sample_credential("cred-1", "secret-value")).unwrap();
    store.delete(&CredentialId::from("cred-1")).unwrap();
    let result = store.read(&CredentialId::from("cred-1"));
    assert!(matches!(result, Err(CredentialError::NotFound(id)) if id == "cred-1"));
    assert!(store.delete(&CredentialId::from("never-there")).is_ok());
}

#[test]
fn memory_credential_store_list_metadata_does_not_include_secret() {
    let mut store = MemoryCredentialStore::new();
    store.write(sample_credential("cred-1", "secret-value")).unwrap();
    let metadata = store.list_metadata().unwrap();
    let debug = format!("{metadata:?}");
    assert_eq!(metadata.len(), 1);
    assert_eq!(metadata[0].id, CredentialId::from("cred-1"));
    assert!(!debug.contains("secret-value"));
}

#[test]
fn memory_credential_store_list_metadata_is_deterministic() {
    let mut store = MemoryCredentialStore::new();
    store.write(sample_credential("cred-b", "b")).unwrap();
    store.write(sample_credential("cred-a", "a")).unwrap();
    store.write(sample_credential("cred-c", "c")).unwrap();
    store.write(sample_credential("cred-ab", "ab")).unwrap();
    let ids: Vec<_> = store.list_metadata().unwrap().into_iter().map(|m| m.id.0).collect();
    assert_eq!(ids, vec!["cred-a", "cred-ab", "cred-b", "cred-c"]);
}

#[test]
fn store_save_and_get_identity() {
    let mut store = MemoryIdentityStore::new();
    store.save_identity(&identity("agent-1", "Test User")).unwrap();
    let fetched = store.get_identity(&AgentOsId::from("agent-1")).unwrap();
    assert_eq!(fetched.display_name, "Test User");
    store.save_identity(&identity("agent-1", "Renamed")).unwrap();
    assert_eq!(store.get_identity(&AgentOsId::from("agent-1")).unwrap().display_name, "Renamed");
}

#[test]
fn store_list_identities() {
    let mut store = MemoryIdentityStore::new();
    store.save_identity(&identity("agent-1", "A")).unwrap();
    store.save_identity(&identity("agent-2", "B")).unwrap();
    assert_eq!(store.list_identities().unwrap().len(), 2);
}

#[test]
fn identity_store_get_not_found() {
    let store = MemoryIdentityStore::new();
    assert!(matches!(
        store.get_identity(&AgentOsId::from("missing")),
        Err(agentos_core::identity::IdentityError::NotFound(id)) if id == "missing"
    ));
}
