//! Identity domain: locally generated identities and device ids, signed
//! challenges, credentials with redacted secrets, and a fake crypto
//! provider for tests. Times are Unix seconds.
use crate::text::{
    chars_of, lemma_text_lt_irreflexive, lemma_text_lt_total, lemma_text_lt_transitive, owned, push_str,
    str_eq, text_less, text_lt, IntoText,
};
use crate::clock::now_unix_seconds;
use vstd::prelude::*;

verus! {

/// Global unique identity id, generated locally and not bound to any server.
#[derive(Debug, Clone, PartialEq, Eq, Hash)]
pub struct AgentOsId(pub String);

impl View for AgentOsId {
    type V = Seq<char>;

    open spec fn view(&self) -> Seq<char> {
        self.0@
    }
}

impl IntoText for AgentOsId {
    open spec fn text(&self) -> Seq<char> {
        self@
    }

    fn into_text(self) -> (r: String) {
        self.0
    }
}

impl AgentOsId {
    /// Builds the id from text.
    pub fn from<T: IntoText>(s: T) -> (r: AgentOsId)
        ensures
            r@ == s.text(),
    {
        AgentOsId(s.into_text())
    }

    /// The id as it is displayed: its text.
    pub fn to_string(&self) -> (r: String)
        ensures
            r@ == self@,
    {
        self.0.clone()
    }

    /// The id as text.
    pub fn as_str(&self) -> (r: &str)
        ensures
            r@ == self@,
    {
        self.0.as_str()
    }

    /// Whether two ids hold the same text.
    pub fn same(&self, other: &AgentOsId) -> (r: bool)
        ensures
            r == (self@ == other@),
    {
        self.0 == other.0
    }

    /// An equal copy of the id.
    pub fn duplicate(&self) -> (r: AgentOsId)
        ensures
            r == *self,
    {
        AgentOsId(self.0.clone())
    }
}

/// Device identifier.
#[derive(Debug, Clone, PartialEq, Eq, Hash)]
pub struct DeviceId(pub String);

impl View for DeviceId {
    type V = Seq<char>;

    open spec fn view(&self) -> Seq<char> {
        self.0@
    }
}

impl IntoText for DeviceId {
    open spec fn text(&self) -> Seq<char> {
        self@
    }

    fn into_text(self) -> (r: String) {
        self.0
    }
}

impl DeviceId {
    /// Builds the id from text.
    pub fn from<T: IntoText>(s: T) -> (r: DeviceId)
        ensures
            r@ == s.text(),
    {
        DeviceId(s.into_text())
    }

    /// The id as it is displayed: its text.
    pub fn to_string(&self) -> (r: String)
        ensures
            r@ == self@,
    {
        self.0.clone()
    }

    /// The id as text.
    pub fn as_str(&self) -> (r: &str)
        ensures
            r@ == self@,
    {
        self.0.as_str()
    }

    /// Whether two ids hold the same text.
    pub fn same(&self, other: &DeviceId) -> (r: bool)
        ensures
            r == (self@ == other@),
    {
        self.0 == other.0
    }

    /// An equal copy of the id.
    pub fn duplicate(&self) -> (r: DeviceId)
        ensures
            r == *self,
    {
        DeviceId(self.0.clone())
    }
}

/// Reference to a local master key (opaque, stored in a keychain or secure enclave).
#[derive(Debug, Clone, PartialEq, Eq, Hash)]
pub struct LocalMasterKeyRef(pub String);

impl View for LocalMasterKeyRef {
    type V = Seq<char>;

    open spec fn view(&self) -> Seq<char> {
        self.0@
    }
}

impl IntoText for LocalMasterKeyRef {
    open spec fn text(&self) -> Seq<char> {
        self@
    }

    fn into_text(self) -> (r: String) {
        self.0
    }
}

impl LocalMasterKeyRef {
    /// Builds the id from text.
    pub fn from<T: IntoText>(s: T) -> (r: LocalMasterKeyRef)
        ensures
            r@ == s.text(),
    {
        LocalMasterKeyRef(s.into_text())
    }

    /// The id as it is displayed: its text.
    pub fn to_string(&self) -> (r: String)
        ensures
            r@ == self@,
    {
        self.0.clone()
    }

    /// The id as text.
    pub fn as_str(&self) -> (r: &str)
        ensures
            r@ == self@,
    {
        self.0.as_str()
    }

    /// Whether two ids hold the same text.
    pub fn same(&self, other: &LocalMasterKeyRef) -> (r: bool)
        ensures
            r == (self@ == other@),
    {
        self.0 == other.0
    }

    /// An equal copy of the id.
    pub fn duplicate(&self) -> (r: LocalMasterKeyRef)
        ensures
            r == *self,
    {
        LocalMasterKeyRef(self.0.clone())
    }
}

/// Unique identifier for a stored credential.
#[derive(Debug, Clone, PartialEq, Eq, PartialOrd, Ord, Hash)]
pub struct CredentialId(pub String);

impl View for CredentialId {
    type V = Seq<char>;

    open spec fn view(&self) -> Seq<char> {
        self.0@
    }
}

impl IntoText for CredentialId {
    open spec fn text(&self) -> Seq<char> {
        self@
    }

    fn into_text(self) -> (r: String) {
        self.0
    }
}

impl CredentialId {
    /// Builds the id from text.
    pub fn from<T: IntoText>(s: T) -> (r: CredentialId)
        ensures
            r@ == s.text(),
    {
        CredentialId(s.into_text())
    }

    /// The id as it is displayed: its text.
    pub fn to_string(&self) -> (r: String)
        ensures
            r@ == self@,
    {
        self.0.clone()
    }

    /// The id as text.
    pub fn as_str(&self) -> (r: &str)
        ensures
            r@ == self@,
    {
        self.0.as_str()
    }

    /// Whether two ids hold the same text.
    pub fn same(&self, other: &CredentialId) -> (r: bool)
        ensures
            r == (self@ == other@),
    {
        self.0 == other.0
    }

    /// An equal copy of the id.
    pub fn duplicate(&self) -> (r: CredentialId)
        ensures
            r == *self,
    {
        CredentialId(self.0.clone())
    }
}

/// Public identity: the shareable part of an identity.
#[derive(Debug, Clone, PartialEq, Eq)]
pub struct PublicIdentity {
    pub agentos_id: AgentOsId,
    pub device_id: DeviceId,
    pub display_name: String,
    pub created_at: i64,
}

/// Proof of identity ownership: a signature over a challenge.
#[derive(Debug, Clone, PartialEq, Eq)]
pub struct IdentityProof {
    pub agentos_id: AgentOsId,
    pub device_id: DeviceId,
    pub challenge: String,
    pub signature: String,
    pub created_at: i64,
}

/// Signed challenge, used for server verification.
#[derive(Debug, Clone, PartialEq, Eq)]
pub struct SignedChallenge {
    pub challenge: String,
    pub signature: String,
    pub public_key: String,
}

/// Identity errors.
#[derive(Debug, Clone, PartialEq, Eq)]
pub enum IdentityError {
    NotFound(String),
    InvalidSignature,
    Internal(String),
}

/// Scope describing where a credential is valid.
#[derive(Debug, Clone, PartialEq, Eq, Hash)]
pub enum CredentialScope {
    Global,
    Agent { agentos_id: AgentOsId },
    Device { device_id: DeviceId },
    Server { server_id: String },
    Connector { connector_id: String },
    Custom { namespace: String, id: String },
}

/// Non-secret metadata for a credential.
#[derive(Debug, Clone, PartialEq, Eq)]
pub struct CredentialMetadata {
    pub id: CredentialId,
    pub scope: CredentialScope,
    pub label: String,
    pub created_at: i64,
    pub updated_at: i64,
}

/// A secret that is only shown when asked for explicitly.
#[derive(Clone, PartialEq, Eq)]
pub struct SecretValue(String);

impl View for SecretValue {
    type V = Seq<char>;

    closed spec fn view(&self) -> Seq<char> {
        self.0@
    }
}

impl SecretValue {
    /// Wraps a secret.
    pub fn new<T: IntoText>(value: T) -> (r: Self)
        ensures
            r@ == value.text(),
    {
        SecretValue(value.into_text())
    }

    /// The secret itself.
    pub fn expose_secret(&self) -> (r: &str)
        ensures
            r@ == self@,
    {
        self.0.as_str()
    }
}

/// Full credential record: metadata and secret.
#[derive(Clone, PartialEq, Eq)]
pub struct CredentialRecord {
    pub metadata: CredentialMetadata,
    pub secret: SecretValue,
}

impl CredentialRecord {
    /// A record created and last updated at `now`.
    pub fn new<L: IntoText>(
        id: CredentialId,
        scope: CredentialScope,
        label: L,
        secret: SecretValue,
        now: i64,
    ) -> (r: Self)
        ensures
            r.metadata.id == id,
            r.metadata.scope == scope,
            r.metadata.label@ == label.text(),
            r.metadata.created_at == now,
            r.metadata.updated_at == now,
            r.secret == secret,
    {
        CredentialRecord {
            metadata: CredentialMetadata {
                id,
                scope,
                label: label.into_text(),
                created_at: now,
                updated_at: now,
            },
            secret,
        }
    }
}

/// Credential errors.
#[derive(Debug, Clone, PartialEq, Eq)]
pub enum CredentialError {
    NotFound(String),
    AlreadyExists(String),
    BackendUnavailable(String),
    EncryptionUnavailable(String),
    Internal(String),
}

/// Encryption boundary for encrypted credential file storage.
pub trait CredentialCipher {
    fn encrypt(&self, plaintext: &[u8]) -> Result<Vec<u8>, CredentialError>;

    fn decrypt(&self, ciphertext: &[u8]) -> Result<Vec<u8>, CredentialError>;
}

/// Skeleton for encrypted file credential storage: every operation reports
/// that encryption is not available yet.
#[derive(Debug)]
pub struct EncryptedFileCredentialStore {
    path: String,
}

/// The error every operation of the skeleton store returns.
pub open spec fn skeleton_message(path: Seq<char>) -> Seq<char> {
    "encrypted file credential store skeleton is not yet implemented for "@ + path
}

impl EncryptedFileCredentialStore {
    pub fn new<P: IntoText>(path: P) -> (r: Self)
        ensures
            r.path_spec() == path.text(),
    {
        EncryptedFileCredentialStore { path: path.into_text() }
    }

    /// The path of the store's file.
    pub closed spec fn path_spec(&self) -> Seq<char> {
        self.path@
    }

    pub fn path(&self) -> (r: &str)
        ensures
            r@ == self.path_spec(),
    {
        self.path.as_str()
    }

    /// The error each operation returns.
    pub fn skeleton_error(&self) -> (r: CredentialError)
        ensures
            r matches CredentialError::EncryptionUnavailable(m) && m@ == skeleton_message(
                self.path_spec(),
            ),
    {
        let mut m = owned("encrypted file credential store skeleton is not yet implemented for ");
        push_str(&mut m, self.path.as_str());
        CredentialError::EncryptionUnavailable(m)
    }
}

/// The signature the fake provider gives a challenge.
pub open spec fn fake_signature(challenge: Seq<char>) -> Seq<char> {
    "signed:"@ + challenge
}

/// Fake crypto provider for tests: the signature of a challenge is
/// `signed:` followed by the challenge.
#[derive(Debug, Clone, Copy)]
pub struct FakeCryptoProvider;

impl FakeCryptoProvider {
    /// Signs a challenge; the key is not used.
    pub fn sign(&self, challenge: &str, key: &LocalMasterKeyRef) -> (r: String)
        ensures
            r@ == fake_signature(challenge@),
    {
        let mut s = owned("signed:");
        push_str(&mut s, challenge);
        s
    }

    /// Whether `signature` is the signature of `challenge`.
    pub fn verify(&self, challenge: &str, signature: &str) -> (r: bool)
        ensures
            r == (signature@ == fake_signature(challenge@)),
    {
        let mut expected = owned("signed:");
        push_str(&mut expected, challenge);
        str_eq(signature, expected.as_str())
    }

    /// A proof over `challenge` for the identity and device, signed with
    /// `key` and stamped with the current time.
    pub fn create_proof(
        &self,
        agentos_id: &AgentOsId,
        device_id: &DeviceId,
        challenge: &str,
        key: &LocalMasterKeyRef,
    ) -> (r: IdentityProof)
        ensures
            r.agentos_id == *agentos_id,
            r.device_id == *device_id,
            r.challenge@ == challenge@,
            r.signature@ == fake_signature(challenge@),
    {
        IdentityProof {
            agentos_id: agentos_id.duplicate(),
            device_id: device_id.duplicate(),
            challenge: owned(challenge),
            signature: self.sign(challenge, key),
            created_at: now_unix_seconds(),
        }
    }

    /// Whether the proof's signature is that of its challenge.
    pub fn verify_proof(&self, proof: &IdentityProof) -> (r: bool)
        ensures
            r == (proof.signature@ == fake_signature(proof.challenge@)),
    {
        self.verify(proof.challenge.as_str(), proof.signature.as_str())
    }
}

/// A fake signature verifies only the challenge it was made for.
pub proof fn law_fake_signature_binds_challenge(c1: Seq<char>, c2: Seq<char>)
    ensures
        fake_signature(c1) == fake_signature(c2) ==> c1 == c2,
{
    if fake_signature(c1) == fake_signature(c2) {
        let p = "signed:"@;
        assert(c1 == fake_signature(c1).skip(p.len() as int));
        assert(c2 == fake_signature(c2).skip(p.len() as int));
    }
}


impl PublicIdentity {
    /// An equal copy of the identity.
    pub fn duplicate(&self) -> (r: PublicIdentity)
        ensures
            r == *self,
    {
        PublicIdentity {
            agentos_id: self.agentos_id.duplicate(),
            device_id: self.device_id.duplicate(),
            display_name: self.display_name.clone(),
            created_at: self.created_at,
        }
    }
}

impl CredentialScope {
    /// An equal copy of the scope.
    pub fn duplicate(&self) -> (r: CredentialScope)
        ensures
            r == *self,
    {
        match self {
            CredentialScope::Global => CredentialScope::Global,
            CredentialScope::Agent { agentos_id } => CredentialScope::Agent { agentos_id: agentos_id.duplicate() },
            CredentialScope::Device { device_id } => CredentialScope::Device { device_id: device_id.duplicate() },
            CredentialScope::Server { server_id } => CredentialScope::Server { server_id: server_id.clone() },
            CredentialScope::Connector { connector_id } => CredentialScope::Connector {
                connector_id: connector_id.clone(),
            },
            CredentialScope::Custom { namespace, id } => CredentialScope::Custom {
                namespace: namespace.clone(),
                id: id.clone(),
            },
        }
    }
}

impl CredentialMetadata {
    /// An equal copy of the metadata.
    pub fn duplicate(&self) -> (r: CredentialMetadata)
        ensures
            r == *self,
    {
        CredentialMetadata {
            id: self.id.duplicate(),
            scope: self.scope.duplicate(),
            label: self.label.clone(),
            created_at: self.created_at,
            updated_at: self.updated_at,
        }
    }
}

impl CredentialRecord {
    /// An equal copy of the record.
    pub fn duplicate(&self) -> (r: CredentialRecord)
        ensures
            r == *self,
    {
        CredentialRecord { metadata: self.metadata.duplicate(), secret: SecretValue(self.secret.0.clone()) }
    }
}

/// Whether the records of `s` are ordered by strictly increasing id.
pub open spec fn ids_increasing(s: Seq<CredentialRecord>) -> bool {
    forall|i: int, j: int|
        0 <= i < j < s.len() ==> text_lt(
            (#[trigger] s[i]).metadata.id@,
            (#[trigger] s[j]).metadata.id@,
        )
}

/// Whether some record of `s` has id `id`.
pub open spec fn has_credential(s: Seq<CredentialRecord>, id: Seq<char>) -> bool {
    exists|i: int| 0 <= i < s.len() && (#[trigger] s[i]).metadata.id@ == id
}

/// A position of `s` holding a record with id `id`, when there is one.
pub open spec fn credential_index(s: Seq<CredentialRecord>, id: Seq<char>) -> int {
    choose|i: int| 0 <= i < s.len() && (#[trigger] s[i]).metadata.id@ == id
}

/// The record of `s` with id `id`, if any.
pub open spec fn credential_of(s: Seq<CredentialRecord>, id: Seq<char>) -> Option<CredentialRecord> {
    if has_credential(s, id) {
        Some(s[credential_index(s, id)])
    } else {
        None
    }
}

proof fn lemma_credential_at(s: Seq<CredentialRecord>, i: int)
    requires
        ids_increasing(s),
        0 <= i < s.len(),
    ensures
        credential_of(s, s[i].metadata.id@) == Some(s[i]),
{
    let id = s[i].metadata.id@;
    assert(has_credential(s, id));
    let k = credential_index(s, id);
    if k < i {
        assert(text_lt(s[k].metadata.id@, s[i].metadata.id@));
        lemma_text_lt_irreflexive(id);
    } else if k > i {
        assert(text_lt(s[i].metadata.id@, s[k].metadata.id@));
        lemma_text_lt_irreflexive(id);
    }
}

/// In-memory credential store, listing credentials in id order.
#[derive(Clone)]
pub struct MemoryCredentialStore {
    records: Vec<CredentialRecord>,
}

impl View for MemoryCredentialStore {
    type V = Seq<CredentialRecord>;

    closed spec fn view(&self) -> Seq<CredentialRecord> {
        self.records@
    }
}

impl Default for MemoryCredentialStore {
    fn default() -> (r: Self)
        ensures
            r@.len() == 0,
            r.wf(),
    {
        Self::new()
    }
}

impl MemoryCredentialStore {
    /// The store's invariant: records are ordered by strictly increasing id.
    pub open spec fn wf(&self) -> bool {
        ids_increasing(self@)
    }

    /// An empty store.
    pub fn new() -> (r: Self)
        ensures
            r@.len() == 0,
            r.wf(),
    {
        MemoryCredentialStore { records: Vec::new() }
    }

    /// The first position whose id does not come before `id`.
    fn position(&self, id: &[char]) -> (r: usize)
        requires
            self.wf(),
        ensures
            r <= self@.len(),
            forall|k: int| 0 <= k < r ==> text_lt((#[trigger] self@[k]).metadata.id@, id@),
            r < self@.len() ==> !text_lt(self@[r as int].metadata.id@, id@),
    {
        let mut i: usize = 0;
        while i < self.records.len()
            invariant
                i <= self.records@.len(),
                forall|k: int| 0 <= k < i ==> text_lt((#[trigger] self.records@[k]).metadata.id@, id@),
            decreases self.records@.len() - i,
        {
            let cs = chars_of(self.records[i].metadata.id.as_str());
            if !text_less(cs.as_slice(), id) {
                return i;
            }
            i = i + 1;
        }
        i
    }

    /// Stores a record, replacing the one with the same id.
    pub fn write(&mut self, record: CredentialRecord) -> (r: Result<(), CredentialError>)
        requires
            old(self).wf(),
        ensures
            r is Ok,
            final(self).wf(),
            forall|id: Seq<char>|
                #[trigger] credential_of(final(self)@, id) == if id == record.metadata.id@ {
                    Some(record)
                } else {
                    credential_of(old(self)@, id)
                },
    {
        let ghost before = self.records@;
        let ghost rid = record.metadata.id@;
        let id = chars_of(record.metadata.id.as_str());
        let p = self.position(id.as_slice());
        let replace = p < self.records.len() && str_eq(self.records[p].metadata.id.as_str(), record.metadata.id.as_str());
        if replace {
            self.records.set(p, record);
        } else {
            self.records.insert(p, record);
        }
        proof {
            let after = self.records@;
            if !replace && p < before.len() {
                lemma_text_lt_total(before[p as int].metadata.id@, rid);
            }
            assert forall|i: int, j: int| 0 <= i < j < after.len() implies text_lt(
                (#[trigger] after[i]).metadata.id@,
                (#[trigger] after[j]).metadata.id@,
            ) by {
                if replace {
                    if j == p {
                        assert(text_lt(before[i].metadata.id@, rid));
                    } else if i == p {
                        assert(text_lt(before[p as int].metadata.id@, before[j].metadata.id@));
                    }
                } else {
                    if j < p {
                        assert(after[i] == before[i] && after[j] == before[j]);
                    } else if j == p {
                        assert(after[i] == before[i]);
                    } else if i == p {
                        assert(after[j] == before[j - 1]);
                        if j - 1 > p {
                            lemma_text_lt_transitive(rid, before[p as int].metadata.id@, before[j - 1].metadata.id@);
                        }
                    } else if i < p {
                        assert(after[i] == before[i] && after[j] == before[j - 1]);
                    } else {
                        assert(after[i] == before[i - 1] && after[j] == before[j - 1]);
                    }
                }
            }
            assert forall|id: Seq<char>|
                #[trigger] credential_of(after, id) == if id == rid {
                    Some(record)
                } else {
                    credential_of(before, id)
                } by {
                if id == rid {
                    lemma_credential_at(after, p as int);
                } else if has_credential(before, id) {
                    let k = choose|k: int| 0 <= k < before.len() && (#[trigger] before[k]).metadata.id@ == id;
                    lemma_credential_at(before, k);
                    if replace || k < p {
                        assert(after[k] == before[k]);
                        lemma_credential_at(after, k);
                    } else {
                        assert(after[k + 1] == before[k]);
                        lemma_credential_at(after, k + 1);
                    }
                } else {
                    assert forall|k: int| 0 <= k < after.len() implies (#[trigger] after[k]).metadata.id@ != id by {
                        if k != p {
                            if replace || k < p {
                                assert(after[k] == before[k]);
                            } else {
                                assert(after[k] == before[k - 1]);
                            }
                        }
                    }
                }
            }
        }
        Ok(())
    }

    /// The record with the id; a missing id is an error.
    pub fn read(&self, id: &CredentialId) -> (r: Result<CredentialRecord, CredentialError>)
        requires
            self.wf(),
        ensures
            match credential_of(self@, id@) {
                Some(c) => r == Ok::<CredentialRecord, CredentialError>(c),
                None => r matches Err(CredentialError::NotFound(m)) && m@ == id@,
            },
    {
        let cs = chars_of(id.as_str());
        let p = self.position(cs.as_slice());
        if p < self.records.len() && str_eq(self.records[p].metadata.id.as_str(), id.as_str()) {
            proof {
                lemma_credential_at(self@, p as int);
            }
            Ok(self.records[p].duplicate())
        } else {
            proof {
                assert forall|k: int| 0 <= k < self@.len() implies (#[trigger] self@[k]).metadata.id@ != id@ by {
                    if k < p {
                        lemma_text_lt_irreflexive(id@);
                    } else if k > p {
                        if self@[k].metadata.id@ == id@ {
                            assert(text_lt(self@[p as int].metadata.id@, self@[k].metadata.id@));
                            lemma_text_lt_total(self@[p as int].metadata.id@, id@);
                        }
                    }
                }
            }
            Err(CredentialError::NotFound(id.to_string()))
        }
    }

    /// Removes the record with the id, if any.
    pub fn delete(&mut self, id: &CredentialId) -> (r: Result<(), CredentialError>)
        requires
            old(self).wf(),
        ensures
            r is Ok,
            final(self).wf(),
            forall|other: Seq<char>|
                #[trigger] credential_of(final(self)@, other) == if other == id@ {
                    None
                } else {
                    credential_of(old(self)@, other)
                },
    {
        let ghost before = self.records@;
        let cs = chars_of(id.as_str());
        let p = self.position(cs.as_slice());
        let found = p < self.records.len() && str_eq(self.records[p].metadata.id.as_str(), id.as_str());
        if found {
            self.records.remove(p);
        }
        proof {
            let after = self.records@;
            assert forall|i: int, j: int| 0 <= i < j < after.len() implies text_lt(
                (#[trigger] after[i]).metadata.id@,
                (#[trigger] after[j]).metadata.id@,
            ) by {
                if found {
                    if j < p {
                        assert(after[i] == before[i] && after[j] == before[j]);
                    } else if i < p {
                        assert(after[i] == before[i] && after[j] == before[j + 1]);
                    } else {
                        assert(after[i] == before[i + 1] && after[j] == before[j + 1]);
                    }
                }
            }
            assert forall|k: int| 0 <= k < before.len() && k != p implies (#[trigger] before[k]).metadata.id@ != id@ by {
                if k < p {
                    lemma_text_lt_irreflexive(id@);
                } else if before[k].metadata.id@ == id@ && p < before.len() {
                    assert(text_lt(before[p as int].metadata.id@, before[k].metadata.id@));
                    lemma_text_lt_total(before[p as int].metadata.id@, id@);
                }
            }
            assert forall|other: Seq<char>|
                #[trigger] credential_of(after, other) == if other == id@ {
                    None
                } else {
                    credential_of(before, other)
                } by {
                if has_credential(after, other) {
                    let k = choose|k: int| 0 <= k < after.len() && (#[trigger] after[k]).metadata.id@ == other;
                    lemma_credential_at(after, k);
                    let kb = if found && k >= p { k + 1 } else { k };
                    assert(after[k] == before[kb]);
                    lemma_credential_at(before, kb);
                } else if other != id@ && has_credential(before, other) {
                    let k = choose|k: int| 0 <= k < before.len() && (#[trigger] before[k]).metadata.id@ == other;
                    if found && k > p {
                        assert(after[k - 1] == before[k]);
                    } else if !(found && k == p) {
                        assert(after[k] == before[k]);
                    }
                }
            }
        }
        Ok(())
    }

    /// The metadata of all records, in id order; secrets are not included.
    pub fn list_metadata(&self) -> (r: Result<Vec<CredentialMetadata>, CredentialError>)
        ensures
            r matches Ok(v) && v@ == self@.map_values(|c: CredentialRecord| c.metadata),
    {
        let mut out: Vec<CredentialMetadata> = Vec::new();
        let mut i: usize = 0;
        while i < self.records.len()
            invariant
                i <= self.records@.len(),
                out@ == self.records@.take(i as int).map_values(|c: CredentialRecord| c.metadata),
            decreases self.records@.len() - i,
        {
            out.push(self.records[i].metadata.duplicate());
            proof {
                assert(self.records@.take(i + 1) == self.records@.take(i as int).push(self.records@[i as int]));
            }
            i = i + 1;
        }
        assert(self.records@.take(self.records@.len() as int) == self.records@);
        Ok(out)
    }
}

/// Whether some identity in `s` has id `id`.
pub open spec fn has_identity(s: Seq<PublicIdentity>, id: Seq<char>) -> bool {
    exists|i: int| 0 <= i < s.len() && (#[trigger] s[i]).agentos_id@ == id
}

/// No two identities in `s` share an id.
pub open spec fn unique_identity_ids(s: Seq<PublicIdentity>) -> bool {
    forall|i: int, j: int|
        0 <= i < s.len() && 0 <= j < s.len() && i != j ==> (#[trigger] s[i]).agentos_id@
            != (#[trigger] s[j]).agentos_id@
}

/// `s` after saving `n`: it replaces the identity with the same id, or is
/// added last.
pub open spec fn identity_saved(s: Seq<PublicIdentity>, n: PublicIdentity) -> Seq<PublicIdentity> {
    if has_identity(s, n.agentos_id@) {
        s.map_values(|m: PublicIdentity| if m.agentos_id@ == n.agentos_id@ { n } else { m })
    } else {
        s.push(n)
    }
}

/// In-memory identity store keyed by AgentOS id.
#[derive(Debug, Clone)]
pub struct MemoryIdentityStore {
    identities: Vec<PublicIdentity>,
}

impl View for MemoryIdentityStore {
    type V = Seq<PublicIdentity>;

    closed spec fn view(&self) -> Seq<PublicIdentity> {
        self.identities@
    }
}

impl Default for MemoryIdentityStore {
    fn default() -> (r: Self)
        ensures
            r@.len() == 0,
            r.wf(),
    {
        Self::new()
    }
}

impl MemoryIdentityStore {
    /// The store's invariant: ids are unique.
    pub open spec fn wf(&self) -> bool {
        unique_identity_ids(self@)
    }

    /// An empty store.
    pub fn new() -> (r: Self)
        ensures
            r@.len() == 0,
            r.wf(),
    {
        MemoryIdentityStore { identities: Vec::new() }
    }

    fn position(&self, id: &AgentOsId) -> (r: Option<usize>)
        ensures
            match r {
                Some(i) => i < self@.len() && self@[i as int].agentos_id@ == id@,
                None => !has_identity(self@, id@),
            },
    {
        let mut i: usize = 0;
        while i < self.identities.len()
            invariant
                i <= self.identities@.len(),
                forall|k: int| 0 <= k < i ==> (#[trigger] self.identities@[k]).agentos_id@ != id@,
            decreases self.identities@.len() - i,
        {
            if self.identities[i].agentos_id.same(id) {
                return Some(i);
            }
            i = i + 1;
        }
        None
    }

    /// Saves an identity, replacing the one with the same id.
    pub fn save_identity(&mut self, identity: &PublicIdentity) -> (r: Result<(), IdentityError>)
        requires
            old(self).wf(),
        ensures
            r is Ok,
            final(self).wf(),
            final(self)@ == identity_saved(old(self)@, *identity),
    {
        let ghost before = self.identities@;
        match self.position(&identity.agentos_id) {
            Some(i) => {
                self.identities.set(i, identity.duplicate());
                proof {
                    assert forall|k: int| 0 <= k < before.len() && k != i implies before[k].agentos_id@
                        != identity.agentos_id@ by {
                        assert(before[k].agentos_id@ != before[i as int].agentos_id@);
                    }
                    assert(self.identities@ =~= before.map_values(
                        |m: PublicIdentity| if m.agentos_id@ == identity.agentos_id@ { *identity } else { m },
                    ));
                }
            },
            None => {
                self.identities.push(identity.duplicate());
            },
        }
        Ok(())
    }

    /// The identity with the id; a missing id is an error.
    pub fn get_identity(&self, id: &AgentOsId) -> (r: Result<PublicIdentity, IdentityError>)
        requires
            self.wf(),
        ensures
            has_identity(self@, id@) ==> (r matches Ok(n) && self@.contains(n) && n.agentos_id@ == id@),
            !has_identity(self@, id@) ==> (r matches Err(IdentityError::NotFound(m)) && m@ == id@),
    {
        match self.position(id) {
            Some(i) => Ok(self.identities[i].duplicate()),
            None => Err(IdentityError::NotFound(id.to_string())),
        }
    }

    /// All identities.
    pub fn list_identities(&self) -> (r: Result<Vec<PublicIdentity>, IdentityError>)
        ensures
            r matches Ok(v) && v@ == self@,
    {
        let mut out: Vec<PublicIdentity> = Vec::new();
        let mut i: usize = 0;
        while i < self.identities.len()
            invariant
                i <= self.identities@.len(),
                out@ == self.identities@.take(i as int),
            decreases self.identities@.len() - i,
        {
            out.push(self.identities[i].duplicate());
            proof {
                assert(self.identities@.take(i + 1) == self.identities@.take(i as int).push(self.identities@[i as int]));
            }
            i = i + 1;
        }
        assert(self.identities@.take(self.identities@.len() as int) == self.identities@);
        Ok(out)
    }
}

/// Saving an identity and then reading its id gives it back; every other
/// id is found exactly when it was found before.
pub proof fn law_identity_save_then_get(s: Seq<PublicIdentity>, n: PublicIdentity, other: Seq<char>)
    requires
        unique_identity_ids(s),
    ensures
        unique_identity_ids(identity_saved(s, n)),
        has_identity(identity_saved(s, n), n.agentos_id@),
        forall|i: int|
            0 <= i < identity_saved(s, n).len() && (#[trigger] identity_saved(s, n)[i]).agentos_id@
                == n.agentos_id@ ==> identity_saved(s, n)[i] == n,
        other != n.agentos_id@ ==> (has_identity(identity_saved(s, n), other) == has_identity(s, other)),
{
    let t = identity_saved(s, n);
    if has_identity(s, n.agentos_id@) {
        let w = choose|w: int| 0 <= w < s.len() && (#[trigger] s[w]).agentos_id@ == n.agentos_id@;
        assert(t[w] == n);
        assert forall|i: int, j: int|
            0 <= i < t.len() && 0 <= j < t.len() && i != j implies (#[trigger] t[i]).agentos_id@
                != (#[trigger] t[j]).agentos_id@ by {
            if t[i].agentos_id@ == t[j].agentos_id@ {
                if s[i].agentos_id@ == n.agentos_id@ {
                    assert(s[j].agentos_id@ != s[i].agentos_id@);
                } else if s[j].agentos_id@ == n.agentos_id@ {
                    assert(s[i].agentos_id@ != s[j].agentos_id@);
                }
            }
        }
        if other != n.agentos_id@ {
            if has_identity(s, other) {
                let k = choose|k: int| 0 <= k < s.len() && (#[trigger] s[k]).agentos_id@ == other;
                assert(t[k] == s[k]);
            }
            if has_identity(t, other) {
                let k = choose|k: int| 0 <= k < t.len() && (#[trigger] t[k]).agentos_id@ == other;
                assert(s[k].agentos_id@ == other);
            }
        }
    } else {
        assert(t[s.len() as int] == n);
        if other != n.agentos_id@ && has_identity(t, other) {
            let k = choose|k: int| 0 <= k < t.len() && (#[trigger] t[k]).agentos_id@ == other;
            assert(s[k].agentos_id@ == other);
        }
        if has_identity(s, other) {
            let k = choose|k: int| 0 <= k < s.len() && (#[trigger] s[k]).agentos_id@ == other;
            assert(t[k] == s[k]);
        }
    }
}

} // verus!
