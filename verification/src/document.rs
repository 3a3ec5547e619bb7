//! Document vault: document metadata, per-beneficiary encrypted key
//! material, and monotonic access grants.
//!
//! A document is immutable except for its vault link, which is set once
//! via linking.  Key entries are keyed by (document, beneficiary) with
//! latest-write-wins; a vault's document index is append-only and not
//! deduplicated.

use vstd::prelude::*;

use crate::vault::Address;

verus! {

/// Monotonically increasing document identifier.
pub type DocId = u64;

/// Errors surfaced by the document vault.
#[derive(Clone, Copy, PartialEq, Eq, Structural, Debug)]
pub enum DocumentError {
    NotAuthorized,
    DocumentNotFound,
    AlreadyLinked,
    AccessDenied,
    AlreadyInitialized,
    NotInitialized,
    KeyNotFound,
}

/// Category of a registered document.
#[derive(Clone, Copy, PartialEq, Eq, Structural, Debug)]
pub enum DocumentType {
    PublicManifest,
    Deed,
    Will,
    Certificate,
    LegalDocument,
    PersonalLetter,
    Other,
}

/// Append-only event records emitted by mutating operations.
#[derive(Clone, Copy, PartialEq, Eq, Structural, Debug)]
pub enum DocEvent {
    Registered { doc_id: DocId },
}

/// Metadata of a registered document.  `vault_id` and `linked` start
/// unset and are written once by vault linking.
#[derive(Clone, Debug)]
pub struct DocumentInfo {
    pub id: DocId,
    pub owner: Address,
    pub ipfs_cid: String,
    pub doc_hash: [u8; 32],
    pub doc_type: DocumentType,
    pub is_encrypted: bool,
    pub registered_at: u64,
    pub vault_id: u64,
    pub linked: bool,
}

/// Mathematical model of a document's metadata.
#[verifier::ext_equal]
pub struct DocumentInfoView {
    pub id: DocId,
    pub owner: Address,
    pub ipfs_cid: Seq<char>,
    pub doc_hash: Seq<u8>,
    pub doc_type: DocumentType,
    pub is_encrypted: bool,
    pub registered_at: u64,
    pub vault_id: u64,
    pub linked: bool,
}

impl View for DocumentInfo {
    type V = DocumentInfoView;

    open spec fn view(&self) -> DocumentInfoView {
        DocumentInfoView {
            id: self.id,
            owner: self.owner,
            ipfs_cid: self.ipfs_cid@,
            doc_hash: self.doc_hash@,
            doc_type: self.doc_type,
            is_encrypted: self.is_encrypted,
            registered_at: self.registered_at,
            vault_id: self.vault_id,
            linked: self.linked,
        }
    }
}

/// Existence and integrity data returned by document verification.
#[derive(Clone, Debug)]
pub struct DocumentProof {
    pub exists: bool,
    pub doc_hash: [u8; 32],
    pub registered_at: u64,
    pub ipfs_cid: String,
}

/// What an access grant hands to a beneficiary: the content reference,
/// the stored ciphertext (empty if none), and the encryption flag.
#[derive(Clone, Debug)]
pub struct DocumentAccess {
    pub ipfs_cid: String,
    pub encrypted_key: Vec<u8>,
    pub doc_type: DocumentType,
    pub is_encrypted: bool,
}

/// Ciphertext stored for one beneficiary of one document.
pub struct KeyEntry {
    pub beneficiary: Address,
    pub ciphertext: Vec<u8>,
}

/// Mathematical model of one key entry.
#[verifier::ext_equal]
pub struct KeyEntryView {
    pub beneficiary: Address,
    pub ciphertext: Seq<u8>,
}

impl View for KeyEntry {
    type V = KeyEntryView;

    open spec fn view(&self) -> KeyEntryView {
        KeyEntryView { beneficiary: self.beneficiary, ciphertext: self.ciphertext@ }
    }
}

/// Per-document state: metadata, key material, and grants.
pub struct DocRecord {
    pub info: DocumentInfo,
    pub keys: Vec<KeyEntry>,
    pub grants: Vec<Address>,
}

/// Mathematical model of one document's state.
#[verifier::ext_equal]
pub struct DocRecordView {
    pub info: DocumentInfoView,
    pub keys: Seq<KeyEntryView>,
    pub grants: Seq<Address>,
}

impl View for DocRecord {
    type V = DocRecordView;

    open spec fn view(&self) -> DocRecordView {
        DocRecordView { info: self.info@, keys: self.keys@.map_values(|k: KeyEntry| k@), grants: self.grants@ }
    }
}

/// The append-only document index of one vault id.
pub struct VaultDocsEntry {
    pub vault_id: u64,
    pub doc_ids: Vec<DocId>,
}

/// Mathematical model of one vault's document index.
#[verifier::ext_equal]
pub struct VaultDocsEntryView {
    pub vault_id: u64,
    pub doc_ids: Seq<DocId>,
}

impl View for VaultDocsEntry {
    type V = VaultDocsEntryView;

    open spec fn view(&self) -> VaultDocsEntryView {
        VaultDocsEntryView { vault_id: self.vault_id, doc_ids: self.doc_ids@ }
    }
}

/// Mathematical model of the document vault.
#[verifier::ext_equal]
pub struct DocumentVaultView {
    pub admin: Option<Address>,
    pub initialized: bool,
    pub docs: Seq<DocRecordView>,
    pub vault_docs: Seq<VaultDocsEntryView>,
    pub events: Seq<DocEvent>,
}

/// The document vault: one durable store owning document metadata, key
/// material, and grants.
pub struct DocumentRegistryContract {
    pub admin: Option<Address>,
    pub initialized: bool,
    pub docs: Vec<DocRecord>,
    pub vault_docs: Vec<VaultDocsEntry>,
    pub events: Vec<DocEvent>,
}

impl View for DocumentRegistryContract {
    type V = DocumentVaultView;

    open spec fn view(&self) -> DocumentVaultView {
        DocumentVaultView {
            admin: self.admin,
            initialized: self.initialized,
            docs: Seq::new(self.docs@.len(), |i: int| self.docs@[i]@),
            vault_docs: Seq::new(self.vault_docs@.len(), |i: int| self.vault_docs@[i]@),
            events: self.events@,
        }
    }
}

impl DocRecordView {
    pub open spec fn has_key(self, beneficiary: Address) -> bool {
        exists|i: int|
            0 <= i < self.keys.len() && (#[trigger] self.keys[i]).beneficiary == beneficiary
    }

    pub open spec fn key_index(self, beneficiary: Address) -> int {
        choose|i: int|
            0 <= i < self.keys.len() && (#[trigger] self.keys[i]).beneficiary == beneficiary
    }

    /// The ciphertext stored for `beneficiary`, empty if none.
    pub open spec fn key_of(self, beneficiary: Address) -> Seq<u8> {
        if self.has_key(beneficiary) {
            self.keys[self.key_index(beneficiary)].ciphertext
        } else {
            Seq::empty()
        }
    }

    /// Whether access has been granted to `beneficiary` (monotonic).
    pub open spec fn granted(self, beneficiary: Address) -> bool {
        exists|i: int| 0 <= i < self.grants.len() && self.grants[i] == beneficiary
    }

    pub open spec fn keys_unique(self) -> bool {
        forall|i: int, j: int|
            0 <= i < j < self.keys.len() ==> (#[trigger] self.keys[i]).beneficiary != (
            #[trigger] self.keys[j]).beneficiary
    }

    /// Under unique keys, a slot holding `beneficiary` is the unique key
    /// entry for it.
    pub proof fn lemma_key_index_is(self, beneficiary: Address, j: int)
        requires
            self.keys_unique(),
            0 <= j < self.keys.len(),
            self.keys[j].beneficiary == beneficiary,
        ensures
            self.has_key(beneficiary),
            self.key_index(beneficiary) == j,
            self.key_of(beneficiary) == self.keys[j].ciphertext,
    {
        assert(self.has_key(beneficiary));
        let c = self.key_index(beneficiary);
        assert(self.keys[c].beneficiary == beneficiary);
        if c < j {
            assert(self.keys[c].beneficiary != self.keys[j].beneficiary);
        } else if j < c {
            assert(self.keys[j].beneficiary != self.keys[c].beneficiary);
        }
    }
}

impl DocumentVaultView {
    pub open spec fn has_doc(self, doc_id: DocId) -> bool {
        doc_id < self.docs.len()
    }

    pub open spec fn doc(self, doc_id: DocId) -> DocRecordView {
        self.docs[doc_id as int]
    }

    pub open spec fn has_index(self, vault_id: u64) -> bool {
        exists|i: int|
            0 <= i < self.vault_docs.len() && (#[trigger] self.vault_docs[i]).vault_id == vault_id
    }

    pub open spec fn index_slot(self, vault_id: u64) -> int {
        choose|i: int|
            0 <= i < self.vault_docs.len() && (#[trigger] self.vault_docs[i]).vault_id == vault_id
    }

    /// The document ids linked to `vault_id`, in linking order, empty if
    /// none.
    pub open spec fn documents_of(self, vault_id: u64) -> Seq<DocId> {
        if self.has_index(vault_id) {
            self.vault_docs[self.index_slot(vault_id)].doc_ids
        } else {
            Seq::empty()
        }
    }

    /// Well-formedness: slot `i` holds the document with id `i`, each
    /// document's key entries are unique per beneficiary, at most one
    /// index entry per vault id, and an admin is recorded exactly when
    /// the store is initialized.
    pub open spec fn wf(self) -> bool {
        &&& forall|i: int| 0 <= i < self.docs.len() ==> (#[trigger] self.docs[i]).info.id == i
        &&& forall|i: int| 0 <= i < self.docs.len() ==> (#[trigger] self.docs[i]).keys_unique()
        &&& forall|i: int, j: int|
            0 <= i < j < self.vault_docs.len() ==> (#[trigger] self.vault_docs[i]).vault_id != (
            #[trigger] self.vault_docs[j]).vault_id
        &&& self.initialized <==> self.admin is Some
    }

    /// Under `wf`, a slot holding `vault_id` is its unique index entry.
    pub proof fn lemma_index_slot_is(self, vault_id: u64, j: int)
        requires
            self.wf(),
            0 <= j < self.vault_docs.len(),
            self.vault_docs[j].vault_id == vault_id,
        ensures
            self.has_index(vault_id),
            self.index_slot(vault_id) == j,
            self.documents_of(vault_id) == self.vault_docs[j].doc_ids,
    {
        assert(self.has_index(vault_id));
        let c = self.index_slot(vault_id);
        assert(self.vault_docs[c].vault_id == vault_id);
        if c < j {
            assert(self.vault_docs[c].vault_id != self.vault_docs[j].vault_id);
        } else if j < c {
            assert(self.vault_docs[j].vault_id != self.vault_docs[c].vault_id);
        }
    }
}

/// One-time setup recording the administrator identity.
pub open spec fn spec_initialize(pre: DocumentVaultView, admin: Address) -> (
    DocumentVaultView,
    Result<(), DocumentError>,
) {
    if pre.initialized {
        (pre, Err(DocumentError::AlreadyInitialized))
    } else {
        (
            DocumentVaultView { admin: Some(admin), initialized: true, ..pre },
            Ok(()),
        )
    }
}

/// Registration of a new document with the next sequential id, unlinked.
pub open spec fn spec_register_document(
    pre: DocumentVaultView,
    owner: Address,
    ipfs_cid: Seq<char>,
    doc_hash: Seq<u8>,
    doc_type: DocumentType,
    is_encrypted: bool,
    now: u64,
) -> (DocumentVaultView, Result<DocId, DocumentError>) {
    let id = pre.docs.len() as DocId;
    let rec = DocRecordView {
        info: DocumentInfoView {
            id,
            owner,
            ipfs_cid,
            doc_hash,
            doc_type,
            is_encrypted,
            registered_at: now,
            vault_id: 0,
            linked: false,
        },
        keys: Seq::empty(),
        grants: Seq::empty(),
    };
    (
        DocumentVaultView {
            docs: pre.docs.push(rec),
            events: pre.events.push(DocEvent::Registered { doc_id: id }),
            ..pre
        },
        Ok(id),
    )
}

/// Linking a document to a vault: sets the link once and appends the
/// document id to the vault's index (not deduplicated).
pub open spec fn spec_link_to_vault(
    pre: DocumentVaultView,
    caller: Address,
    doc_id: DocId,
    vault_id: u64,
) -> (DocumentVaultView, Result<(), DocumentError>) {
    if !pre.has_doc(doc_id) {
        (pre, Err(DocumentError::DocumentNotFound))
    } else if caller != pre.doc(doc_id).info.owner {
        (pre, Err(DocumentError::NotAuthorized))
    } else {
        let rec = pre.docs[doc_id as int];
        let updated = DocRecordView {
            info: DocumentInfoView { vault_id, linked: true, ..rec.info },
            ..rec
        };
        let vault_docs = if pre.has_index(vault_id) {
            let s = pre.index_slot(vault_id);
            pre.vault_docs.update(
                s,
                VaultDocsEntryView {
                    doc_ids: pre.vault_docs[s].doc_ids.push(doc_id),
                    ..pre.vault_docs[s]
                },
            )
        } else {
            pre.vault_docs.push(VaultDocsEntryView { vault_id, doc_ids: seq![doc_id] })
        };
        (
            DocumentVaultView { docs: pre.docs.update(doc_id as int, updated), vault_docs, ..pre },
            Ok(()),
        )
    }
}

/// Storing an encrypted key for a beneficiary: owner as caller, latest
/// write wins for the (document, beneficiary) pair.
pub open spec fn spec_store_encrypted_key(
    pre: DocumentVaultView,
    caller: Address,
    doc_id: DocId,
    beneficiary: Address,
    encrypted_key: Seq<u8>,
) -> (DocumentVaultView, Result<(), DocumentError>) {
    if !pre.has_doc(doc_id) {
        (pre, Err(DocumentError::DocumentNotFound))
    } else if caller != pre.doc(doc_id).info.owner {
        (pre, Err(DocumentError::NotAuthorized))
    } else {
        let rec = pre.docs[doc_id as int];
        let entry = KeyEntryView { beneficiary, ciphertext: encrypted_key };
        let keys = if rec.has_key(beneficiary) {
            rec.keys.update(rec.key_index(beneficiary), entry)
        } else {
            rec.keys.push(entry)
        };
        (
            DocumentVaultView {
                docs: pre.docs.update(doc_id as int, DocRecordView { keys, ..rec }),
                ..pre
            },
            Ok(()),
        )
    }
}

/// What an access grant returns: the stored ciphertext, or empty when
/// none exists (not an error, including for non-encrypted documents).
pub open spec fn spec_access_of(rec: DocRecordView, beneficiary: Address) -> DocumentAccessView {
    DocumentAccessView {
        ipfs_cid: rec.info.ipfs_cid,
        encrypted_key: rec.key_of(beneficiary),
        doc_type: rec.info.doc_type,
        is_encrypted: rec.info.is_encrypted,
    }
}

/// Mathematical model of a returned `DocumentAccess`.
#[verifier::ext_equal]
pub struct DocumentAccessView {
    pub ipfs_cid: Seq<char>,
    pub encrypted_key: Seq<u8>,
    pub doc_type: DocumentType,
    pub is_encrypted: bool,
}

impl View for DocumentAccess {
    type V = DocumentAccessView;

    open spec fn view(&self) -> DocumentAccessView {
        DocumentAccessView {
            ipfs_cid: self.ipfs_cid@,
            encrypted_key: self.encrypted_key@,
            doc_type: self.doc_type,
            is_encrypted: self.is_encrypted,
        }
    }
}

/// Idempotent access grant by the administrator: marks the grant and
/// returns the document's access data.
pub open spec fn spec_grant_access(
    pre: DocumentVaultView,
    caller: Address,
    doc_id: DocId,
    beneficiary: Address,
) -> (DocumentVaultView, Result<DocumentAccessView, DocumentError>) {
    if pre.admin is None {
        (pre, Err(DocumentError::NotInitialized))
    } else if Some(caller) != pre.admin {
        (pre, Err(DocumentError::NotAuthorized))
    } else if !pre.has_doc(doc_id) {
        (pre, Err(DocumentError::DocumentNotFound))
    } else {
        let rec = pre.docs[doc_id as int];
        let grants = if rec.granted(beneficiary) {
            rec.grants
        } else {
            rec.grants.push(beneficiary)
        };
        (
            DocumentVaultView {
                docs: pre.docs.update(doc_id as int, DocRecordView { grants, ..rec }),
                ..pre
            },
            Ok(spec_access_of(rec, beneficiary)),
        )
    }
}

impl DocumentRegistryContract {
    /// A freshly deployed, uninitialized document vault.
    pub fn new() -> (c: DocumentRegistryContract)
        ensures
            c@.wf(),
            !c@.initialized,
            c@.admin is None,
            c@.docs =~= Seq::<DocRecordView>::empty(),
            c@.vault_docs =~= Seq::<VaultDocsEntryView>::empty(),
            c@.events =~= Seq::<DocEvent>::empty(),
    {
        DocumentRegistryContract {
            admin: None,
            initialized: false,
            docs: Vec::new(),
            vault_docs: Vec::new(),
            events: Vec::new(),
        }
    }

    /// Initialize the store with an admin address.
    pub fn initialize(&mut self, admin: Address) -> (r: Result<(), DocumentError>)
        ensures
            (final(self)@, r) == spec_initialize(old(self)@, admin),
            old(self)@.wf() ==> final(self)@.wf(),
    {
        if self.initialized {
            return Err(DocumentError::AlreadyInitialized);
        }
        self.admin = Some(admin);
        self.initialized = true;
        proof {
            assert(self@ =~= spec_initialize(old(self)@, admin).0);
        }
        Ok(())
    }

    /// Register a new document owned by `owner` (the attested caller).
    /// Returns the document id.
    pub fn register_document(
        &mut self,
        owner: Address,
        ipfs_cid: String,
        doc_hash: [u8; 32],
        doc_type: DocumentType,
        is_encrypted: bool,
        now: u64,
    ) -> (r: Result<DocId, DocumentError>)
        requires
            old(self)@.wf(),
        ensures
            (final(self)@, r) == spec_register_document(
                old(self)@,
                owner,
                ipfs_cid@,
                doc_hash@,
                doc_type,
                is_encrypted,
                now,
            ),
            final(self)@.wf(),
    {
        let doc_id = self.docs.len() as u64;
        let info = DocumentInfo {
            id: doc_id,
            owner,
            ipfs_cid,
            doc_hash,
            doc_type,
            is_encrypted,
            registered_at: now,
            vault_id: 0,
            linked: false,
        };
        self.docs.push(DocRecord { info, keys: Vec::new(), grants: Vec::new() });
        self.events.push(DocEvent::Registered { doc_id });
        proof {
            let target = spec_register_document(
                old(self)@,
                owner,
                ipfs_cid@,
                doc_hash@,
                doc_type,
                is_encrypted,
                now,
            ).0;
            assert(self@.docs =~~= target.docs);
            assert(self@ =~~= target);
        }
        Ok(doc_id)
    }

    /// Find the index entry of `vault_id`, if any.
    fn find_index_slot(&self, vault_id: u64) -> (r: Option<usize>)
        requires
            self@.wf(),
        ensures
            match r {
                Some(j) => {
                    &&& j < self.vault_docs@.len()
                    &&& self@.has_index(vault_id)
                    &&& self@.index_slot(vault_id) == j
                },
                None => !self@.has_index(vault_id),
            },
    {
        let m = self.vault_docs.len();
        let mut j: usize = 0;
        while j < m
            invariant
                j <= m,
                m == self.vault_docs@.len(),
                self@.wf(),
                forall|t: int| 0 <= t < j ==> (#[trigger] self.vault_docs@[t])@.vault_id != vault_id,
            decreases m - j,
        {
            if self.vault_docs[j].vault_id == vault_id {
                proof {
                    assert(self@.vault_docs[j as int] == self.vault_docs@[j as int]@);
                    self@.lemma_index_slot_is(vault_id, j as int);
                }
                return Some(j);
            }
            j = j + 1;
        }
        proof {
            assert forall|i: int|
                0 <= i < self@.vault_docs.len() implies (
            #[trigger] self@.vault_docs[i]).vault_id != vault_id by {
                assert(self.vault_docs@[i]@.vault_id != vault_id);
            }
        }
        None
    }

    /// Link a document to a vault: the owner (attested caller) sets the
    /// link, and the document id is appended to the vault's index.
    pub fn link_to_vault(&mut self, caller: Address, doc_id: DocId, vault_id: u64) -> (r: Result<
        (),
        DocumentError,
    >)
        requires
            old(self)@.wf(),
        ensures
            (final(self)@, r) == spec_link_to_vault(old(self)@, caller, doc_id, vault_id),
            final(self)@.wf(),
    {
        if doc_id >= self.docs.len() as u64 {
            return Err(DocumentError::DocumentNotFound);
        }
        let i = doc_id as usize;
        if self.docs[i].info.owner != caller {
            return Err(DocumentError::NotAuthorized);
        }
        let slot_opt = self.find_index_slot(vault_id);
        let rec = &mut self.docs[i];
        rec.info.vault_id = vault_id;
        rec.info.linked = true;
        match slot_opt {
            Some(s) => {
                let entry = &mut self.vault_docs[s];
                entry.doc_ids.push(doc_id);
            },
            None => {
                let mut ids: Vec<DocId> = Vec::new();
                ids.push(doc_id);
                self.vault_docs.push(VaultDocsEntry { vault_id, doc_ids: ids });
            },
        }
        proof {
            let target = spec_link_to_vault(old(self)@, caller, doc_id, vault_id).0;
            assert(self@.docs =~~= target.docs);
            assert(self@.vault_docs =~~= target.vault_docs);
            assert(self@ =~~= target);
            let post = self@;
            let pre = old(self)@;
            assert forall|a: int, b: int|
                0 <= a < b < post.vault_docs.len() implies (
            #[trigger] post.vault_docs[a]).vault_id != (#[trigger] post.vault_docs[b]).vault_id by {
                if b < pre.vault_docs.len() {
                    assert(post.vault_docs[a].vault_id == pre.vault_docs[a].vault_id);
                    assert(post.vault_docs[b].vault_id == pre.vault_docs[b].vault_id);
                } else {
                    assert(post.vault_docs[a].vault_id == pre.vault_docs[a].vault_id);
                    if pre.vault_docs[a].vault_id == vault_id {
                        assert(pre.has_index(vault_id));
                    }
                }
            }
        }
        Ok(())
    }

    /// Store (or overwrite) the encrypted key handed to `beneficiary` for
    /// a document; only the document's owner (attested caller) may.
    pub fn store_encrypted_key(
        &mut self,
        caller: Address,
        doc_id: DocId,
        beneficiary: Address,
        encrypted_key: Vec<u8>,
    ) -> (r: Result<(), DocumentError>)
        requires
            old(self)@.wf(),
        ensures
            (final(self)@, r) == spec_store_encrypted_key(
                old(self)@,
                caller,
                doc_id,
                beneficiary,
                encrypted_key@,
            ),
            final(self)@.wf(),
    {
        if doc_id >= self.docs.len() as u64 {
            return Err(DocumentError::DocumentNotFound);
        }
        let i = doc_id as usize;
        if self.docs[i].info.owner != caller {
            return Err(DocumentError::NotAuthorized);
        }
        let m = self.docs[i].keys.len();
        let mut j: usize = 0;
        let mut found: bool = false;
        let mut idx: usize = 0;
        while j < m
            invariant
                j <= m,
                i < self.docs@.len(),
                m == self.docs@[i as int].keys@.len(),
                *self == *old(self),
                !found ==> forall|t: int|
                    0 <= t < j ==> (#[trigger] self.docs@[i as int].keys@[t])@.beneficiary
                        != beneficiary,
                found ==> idx < j && self.docs@[i as int].keys@[idx as int]@.beneficiary
                    == beneficiary,
            decreases m - j,
        {
            if !found && self.docs[i].keys[j].beneficiary == beneficiary {
                found = true;
                idx = j;
            }
            j = j + 1;
        }
        let entry = KeyEntry { beneficiary, ciphertext: encrypted_key };
        let ghost rec_pre = self@.docs[doc_id as int];
        if found {
            proof {
                assert(rec_pre.keys[idx as int] == self.docs@[i as int].keys@[idx as int]@);
                rec_pre.lemma_key_index_is(beneficiary, idx as int);
            }
            let rec = &mut self.docs[i];
            let key_slot = &mut rec.keys[idx];
            *key_slot = entry;
        } else {
            proof {
                assert forall|t: int|
                    0 <= t < rec_pre.keys.len() implies (#[trigger] rec_pre.keys[t]).beneficiary
                    != beneficiary by {
                    assert(self.docs@[i as int].keys@[t]@.beneficiary != beneficiary);
                }
            }
            let rec = &mut self.docs[i];
            rec.keys.push(entry);
        }
        proof {
            let pre = old(self)@;
            let target = spec_store_encrypted_key(pre, caller, doc_id, beneficiary, encrypted_key@)
                .0;
            assert(self@.docs[doc_id as int].keys =~~= target.docs[doc_id as int].keys);
            assert(self@.docs =~~= target.docs);
            assert(self@ =~~= target);
            let post_rec = self@.docs[doc_id as int];
            assert forall|a: int, b: int|
                0 <= a < b < post_rec.keys.len() implies (
            #[trigger] post_rec.keys[a]).beneficiary != (#[trigger] post_rec.keys[b]).beneficiary
                by {
                if found {
                    assert(post_rec.keys[a].beneficiary == rec_pre.keys[a].beneficiary);
                    assert(post_rec.keys[b].beneficiary == rec_pre.keys[b].beneficiary);
                } else {
                    assert(post_rec.keys[a].beneficiary == rec_pre.keys[a].beneficiary);
                    if b == post_rec.keys.len() - 1 {
                        assert(rec_pre.keys[a].beneficiary != beneficiary);
                    } else {
                        assert(post_rec.keys[b].beneficiary == rec_pre.keys[b].beneficiary);
                    }
                }
            }
        }
        Ok(())
    }

    /// Grant `beneficiary` access to a document (administrator as
    /// caller): marks the grant idempotently and returns the content
    /// reference, type, encryption flag, and stored ciphertext (empty if
    /// none was stored).
    pub fn grant_access(&mut self, caller: Address, doc_id: DocId, beneficiary: Address) -> (r:
        Result<DocumentAccess, DocumentError>)
        requires
            old(self)@.wf(),
        ensures
            r matches Ok(a) ==> (spec_grant_access(old(self)@, caller, doc_id, beneficiary).1
                matches Ok(v) && a@ == v),
            r matches Err(e) ==> (spec_grant_access(old(self)@, caller, doc_id, beneficiary).1
                matches Err(se) && e == se),
            final(self)@ == spec_grant_access(old(self)@, caller, doc_id, beneficiary).0,
            final(self)@.wf(),
    {
        let admin = match self.admin {
            Some(a) => a,
            None => { return Err(DocumentError::NotInitialized); },
        };
        if caller != admin {
            return Err(DocumentError::NotAuthorized);
        }
        if doc_id >= self.docs.len() as u64 {
            return Err(DocumentError::DocumentNotFound);
        }
        let i = doc_id as usize;
        let ghost rec_pre = self@.docs[doc_id as int];

        let m = self.docs[i].grants.len();
        let mut j: usize = 0;
        let mut already: bool = false;
        while j < m
            invariant
                j <= m,
                i < self.docs@.len(),
                m == self.docs@[i as int].grants@.len(),
                *self == *old(self),
                !already ==> forall|t: int|
                    0 <= t < j ==> (#[trigger] self.docs@[i as int].grants@[t]) != beneficiary,
                already ==> self@.docs[i as int].granted(beneficiary),
            decreases m - j,
        {
            if !already && self.docs[i].grants[j] == beneficiary {
                proof {
                    assert(self@.docs[i as int].grants[j as int] == beneficiary);
                }
                already = true;
            }
            j = j + 1;
        }
        if !already {
            proof {
                assert forall|t: int|
                    0 <= t < rec_pre.grants.len() implies (#[trigger] rec_pre.grants[t])
                    != beneficiary by {
                    assert(self.docs@[i as int].grants@[t] != beneficiary);
                }
                assert(!rec_pre.granted(beneficiary));
            }
            let rec = &mut self.docs[i];
            rec.grants.push(beneficiary);
        }

        let mk = self.docs[i].keys.len();
        let mut k: usize = 0;
        let mut key_found: Option<usize> = None;
        while k < mk
            invariant
                k <= mk,
                i < self.docs@.len(),
                mk == self.docs@[i as int].keys@.len(),
                rec_pre.keys.len() == mk,
                forall|t: int|
                    0 <= t < mk ==> (#[trigger] self.docs@[i as int].keys@[t])@ == rec_pre.keys[t],
                rec_pre.keys_unique(),
                match key_found {
                    Some(f) => f < mk && rec_pre.keys[f as int].beneficiary == beneficiary
                        && rec_pre.key_index(beneficiary) == f && rec_pre.has_key(beneficiary),
                    None => forall|t: int|
                        0 <= t < k ==> (#[trigger] rec_pre.keys[t]).beneficiary != beneficiary,
                },
            decreases mk - k,
        {
            if key_found.is_none() && self.docs[i].keys[k].beneficiary == beneficiary {
                proof {
                    assert(rec_pre.keys[k as int] == self.docs@[i as int].keys@[k as int]@);
                    rec_pre.lemma_key_index_is(beneficiary, k as int);
                }
                key_found = Some(k);
            }
            k = k + 1;
        }
        let encrypted_key: Vec<u8> = match key_found {
            Some(f) => vstd::slice::slice_to_vec(self.docs[i].keys[f].ciphertext.as_slice()),
            None => {
                proof {
                    assert forall|t: int|
                        0 <= t < rec_pre.keys.len() implies (#[trigger] rec_pre.keys[t]).beneficiary
                        != beneficiary by {}
                    assert(!rec_pre.has_key(beneficiary));
                }
                Vec::new()
            },
        };
        let access = DocumentAccess {
            ipfs_cid: self.docs[i].info.ipfs_cid.clone(),
            encrypted_key,
            doc_type: self.docs[i].info.doc_type,
            is_encrypted: self.docs[i].info.is_encrypted,
        };
        proof {
            let target = spec_grant_access(old(self)@, caller, doc_id, beneficiary).0;
            assert(self@.docs[doc_id as int].grants =~= target.docs[doc_id as int].grants);
            assert(self@.docs =~~= target.docs);
            assert(self@ =~~= target);
            assert(access@ =~= spec_access_of(rec_pre, beneficiary));
        }
        Ok(access)
    }

    /// Existence and integrity proof for a document.
    pub fn verify_document(&self, doc_id: DocId) -> (r: Result<DocumentProof, DocumentError>)
        ensures
            self@.has_doc(doc_id) ==> (r matches Ok(p) && {
                &&& p.exists
                &&& p.doc_hash@ == self@.doc(doc_id).info.doc_hash
                &&& p.registered_at == self@.doc(doc_id).info.registered_at
                &&& p.ipfs_cid@ == self@.doc(doc_id).info.ipfs_cid
            }),
            !self@.has_doc(doc_id) ==> (r matches Err(e) && e == DocumentError::DocumentNotFound),
    {
        if doc_id >= self.docs.len() as u64 {
            return Err(DocumentError::DocumentNotFound);
        }
        let i = doc_id as usize;
        Ok(
            DocumentProof {
                exists: true,
                doc_hash: self.docs[i].info.doc_hash,
                registered_at: self.docs[i].info.registered_at,
                ipfs_cid: self.docs[i].info.ipfs_cid.clone(),
            },
        )
    }

    /// Read a copy of the document ids linked to `vault_id`, in linking
    /// order (duplicates possible), empty if none.
    pub fn get_vault_documents(&self, vault_id: u64) -> (r: Vec<DocId>)
        requires
            self@.wf(),
        ensures
            r@ == self@.documents_of(vault_id),
    {
        match self.find_index_slot(vault_id) {
            Some(j) => vstd::slice::slice_to_vec(self.vault_docs[j].doc_ids.as_slice()),
            None => Vec::new(),
        }
    }

    /// Read a document's metadata.
    pub fn get_document(&self, doc_id: DocId) -> (r: Result<&DocumentInfo, DocumentError>)
        ensures
            self@.has_doc(doc_id) ==> (r matches Ok(d) && d@ == self@.doc(doc_id).info),
            !self@.has_doc(doc_id) ==> (r matches Err(e) && e == DocumentError::DocumentNotFound),
    {
        if doc_id >= self.docs.len() as u64 {
            return Err(DocumentError::DocumentNotFound);
        }
        Ok(&self.docs[doc_id as usize].info)
    }
}

} // verus!
