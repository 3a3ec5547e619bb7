use pulse_core::document::DocumentRegistryContract;
use pulse_core::document::DocumentType;

fn setup() -> (DocumentRegistryContract, u64, u64) {
    let mut client = DocumentRegistryContract::new();
    let admin: u64 = 900;
    let owner: u64 = 1;
    client.initialize(admin).unwrap();
    (client, admin, owner)
}

#[test]
fn test_doc_initialize() {
    let mut client = DocumentRegistryContract::new();
    let admin: u64 = 900;
    client.initialize(admin).unwrap();
}

#[test]
fn test_doc_initialize_twice_fails() {
    let mut client = DocumentRegistryContract::new();
    let admin: u64 = 900;

    client.initialize(admin).unwrap();

    let result = client.initialize(admin);
    assert!(result.is_err());
}

#[test]
fn test_register_document() {
    let (mut client, _admin, owner) = setup();

    let cid = String::from("QmTest123");
    let hash = [1u8; 32];

    let doc_id = client
        .register_document(owner, cid, hash, DocumentType::PublicManifest, false, 0)
        .unwrap();

    assert_eq!(doc_id, 0);

    let doc = client.get_document(doc_id).unwrap();
    assert_eq!(doc.owner, owner);
    assert_eq!(doc.is_encrypted, false);
}

#[test]
fn test_register_multiple_documents() {
    let (mut client, _admin, owner) = setup();

    let cid1 = String::from("QmFirst");
    let hash1 = [1u8; 32];
    let id1 = client
        .register_document(owner, cid1, hash1, DocumentType::Will, false, 0)
        .unwrap();
    assert_eq!(id1, 0);

    let cid2 = String::from("QmSecond");
    let hash2 = [2u8; 32];
    let id2 = client
        .register_document(owner, cid2, hash2, DocumentType::Deed, true, 0)
        .unwrap();
    assert_eq!(id2, 1);

    let cid3 = String::from("QmThird");
    let hash3 = [3u8; 32];
    let id3 = client
        .register_document(owner, cid3, hash3, DocumentType::Certificate, false, 0)
        .unwrap();
    assert_eq!(id3, 2);
}

#[test]
fn test_verify_document() {
    let (mut client, _admin, owner) = setup();

    let cid = String::from("QmTest456");
    let hash = [2u8; 32];

    let doc_id = client
        .register_document(owner, cid, hash, DocumentType::Deed, false, 0)
        .unwrap();

    let proof = client.verify_document(doc_id).unwrap();
    assert_eq!(proof.exists, true);
    assert_eq!(proof.doc_hash, hash);
}

#[test]
fn test_verify_nonexistent() {
    let (client, _admin, _owner) = setup();

    let result = client.verify_document(999u64);
    assert!(result.is_err());
}

#[test]
fn test_link_to_vault() {
    let (mut client, _admin, owner) = setup();

    let cid = String::from("QmLinkMe");
    let hash = [5u8; 32];

    let doc_id = client
        .register_document(owner, cid, hash, DocumentType::LegalDocument, true, 0)
        .unwrap();

    let vault_id: u64 = 42;
    client.link_to_vault(owner, doc_id, vault_id).unwrap();

    // Verify the document is now linked
    let doc = client.get_document(doc_id).unwrap();
    assert_eq!(doc.linked, true);
    assert_eq!(doc.vault_id, vault_id);

    // Verify vault documents list contains the doc
    let vault_docs = client.get_vault_documents(vault_id);
    assert_eq!(vault_docs.len(), 1);
    assert_eq!(vault_docs[0], doc_id);
}

#[test]
fn test_store_and_get_encrypted_key() {
    let (mut client, admin, owner) = setup();

    let beneficiary: u64 = 21;

    let cid = String::from("QmEncrypted");
    let hash = [6u8; 32];

    let doc_id = client
        .register_document(owner, cid, hash, DocumentType::PersonalLetter, true, 0)
        .unwrap();

    let encrypted_key = vec![10u8, 20u8, 30u8, 40u8, 50u8];
    client
        .store_encrypted_key(owner, doc_id, beneficiary, encrypted_key.clone())
        .unwrap();

    // Grant access to verify the encrypted key is returned correctly
    let access = client.grant_access(admin, doc_id, beneficiary).unwrap();
    assert_eq!(access.encrypted_key, encrypted_key);
    assert_eq!(access.is_encrypted, true);
}

#[test]
fn test_grant_access() {
    let (mut client, admin, owner) = setup();

    let beneficiary: u64 = 21;

    let cid = String::from("QmAccess");
    let hash = [7u8; 32];

    let doc_id = client
        .register_document(owner, cid, hash, DocumentType::Will, false, 0)
        .unwrap();

    let access = client.grant_access(admin, doc_id, beneficiary).unwrap();

    // Verify DocumentAccess fields
    assert_eq!(access.ipfs_cid, String::from("QmAccess"));
    assert_eq!(access.doc_type, DocumentType::Will);
    assert_eq!(access.is_encrypted, false);
    // No key stored, so encrypted_key should be empty
    assert_eq!(access.encrypted_key, Vec::<u8>::new());
}

#[test]
fn test_get_vault_documents() {
    let (mut client, _admin, owner) = setup();

    let vault_id: u64 = 100;

    // Register and link three documents to the same vault
    let cid1 = String::from("QmVault1");
    let hash1 = [11u8; 32];
    let id1 = client
        .register_document(owner, cid1, hash1, DocumentType::Will, false, 0)
        .unwrap();
    client.link_to_vault(owner, id1, vault_id).unwrap();

    let cid2 = String::from("QmVault2");
    let hash2 = [12u8; 32];
    let id2 = client
        .register_document(owner, cid2, hash2, DocumentType::Deed, true, 0)
        .unwrap();
    client.link_to_vault(owner, id2, vault_id).unwrap();

    let cid3 = String::from("QmVault3");
    let hash3 = [13u8; 32];
    let id3 = client
        .register_document(owner, cid3, hash3, DocumentType::Certificate, false, 0)
        .unwrap();
    client.link_to_vault(owner, id3, vault_id).unwrap();

    let vault_docs = client.get_vault_documents(vault_id);
    assert_eq!(vault_docs.len(), 3);
    assert_eq!(vault_docs[0], id1);
    assert_eq!(vault_docs[1], id2);
    assert_eq!(vault_docs[2], id3);
}
