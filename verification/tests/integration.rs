use pulse_core::beneficiary::BeneficiaryContract;
use pulse_core::document::DocumentRegistryContract;
use pulse_core::document::DocumentType;
use pulse_core::liveness::ProofOfLifeContract;
use pulse_core::liveness::VerificationSource;
use pulse_core::vault::Beneficiary as VaultBeneficiary;
use pulse_core::vault::VaultContract;
use pulse_core::vault::VaultId;
use pulse_core::vault::VaultStatus;

/// Convenience struct that bundles the full test environment.
struct TestEnv {
    admin: u64,
    oracle: u64,

    vault_client: VaultContract,
    vault_addr: u64,

    pol_client: ProofOfLifeContract,
    pol_addr: u64,

    benef_client: BeneficiaryContract,

    doc_client: DocumentRegistryContract,
}

/// Build a Vec<i128> of 10 weights for the PoL perceptron model.
fn create_weights() -> Vec<i128> {
    let mut weights = Vec::new();
    for _ in 0..10 {
        weights.push(500_000i128); // 0.5 fixed-point
    }
    weights
}

/// Set up and initialise all four stores with a shared admin.
fn setup_full_env() -> TestEnv {
    let admin: u64 = 900;
    let oracle: u64 = 901;
    let vault_addr: u64 = 800;
    let pol_addr: u64 = 801;

    // -- Vault --
    let mut vault_client = VaultContract::new();
    vault_client.initialize(admin).unwrap();

    // -- ProofOfLife --
    let mut pol_client = ProofOfLifeContract::new();
    pol_client.initialize(admin, oracle).unwrap();

    // -- Beneficiary --
    let mut benef_client = BeneficiaryContract::new();
    benef_client.initialize(admin).unwrap();
    benef_client.set_vault_contract(admin, vault_addr).unwrap();

    // -- DocumentRegistry --
    let mut doc_client = DocumentRegistryContract::new();
    doc_client.initialize(admin).unwrap();

    TestEnv {
        admin,
        oracle,
        vault_client,
        vault_addr,
        pol_client,
        pol_addr,
        benef_client,
        doc_client,
    }
}

#[test]
fn test_full_inheritance_lifecycle() {
    let mut t = setup_full_env();

    // Actors
    let owner: u64 = 1;
    let beneficiary1: u64 = 21;
    let beneficiary2: u64 = 22;

    // 1. Create token and mint to owner (host-side ledger, tracked by hand)
    let token_addr: u64 = 50;
    let mint_amount: i128 = 1_000_000;
    let mut owner_tokens: i128 = mint_amount;
    assert_eq!(owner_tokens, mint_amount);

    // 2. Create vault, deposit tokens
    let vault_id: VaultId = t.vault_client.create_vault(owner, token_addr, 0).unwrap();
    assert_eq!(vault_id, 0);

    let deposit_amount: i128 = 500_000;
    let transfer = t.vault_client.deposit(vault_id, owner, deposit_amount, 0).unwrap();
    owner_tokens -= transfer.amount;
    assert_eq!(t.vault_client.get_balance(vault_id).unwrap(), deposit_amount);

    // 3. Register PoL model for owner
    let weights = create_weights();
    t.pol_client.register_model(owner, weights, 100_000i128, 0).unwrap();
    let model = t.pol_client.get_model(owner).unwrap();
    assert_eq!(model.version, 1);
    assert_eq!(model.weights.len(), 10);

    // 4. Link vault to PoL (both directions)
    t.vault_client.link_proof_of_life(owner, vault_id, t.pol_addr).unwrap();
    t.pol_client.link_vault(owner, t.vault_addr, vault_id).unwrap();

    // 5. Set beneficiaries on vault contract (60 / 40)
    let vb1 = VaultBeneficiary {
        address: beneficiary1,
        percentage: 6_000,
        claimed: false,
    };
    let vb2 = VaultBeneficiary {
        address: beneficiary2,
        percentage: 4_000,
        claimed: false,
    };
    t.vault_client
        .set_beneficiaries(owner, vault_id, vec![vb1, vb2])
        .unwrap();

    let stored_vb = t.vault_client.get_beneficiaries(vault_id).unwrap();
    assert_eq!(stored_vb.len(), 2);
    assert_eq!(stored_vb[0].percentage, 6_000);
    assert_eq!(stored_vb[1].percentage, 4_000);

    // 6. Set beneficiaries on beneficiary contract
    let bb1 = VaultBeneficiary {
        address: beneficiary1,
        percentage: 6_000,
        claimed: false,
    };
    let bb2 = VaultBeneficiary {
        address: beneficiary2,
        percentage: 4_000,
        claimed: false,
    };
    t.benef_client
        .set_beneficiaries(t.admin, vault_id, vec![bb1, bb2])
        .unwrap();

    assert!(t.benef_client.can_claim(vault_id, beneficiary1));
    assert!(t.benef_client.can_claim(vault_id, beneficiary2));

    // 7. Register a document and link to vault
    let ipfs_cid = String::from("QmTestDocumentCIDForInheritanceLifecycle");
    let doc_hash = [1u8; 32];
    let doc_id = t
        .doc_client
        .register_document(owner, ipfs_cid, doc_hash, DocumentType::Will, false, 0)
        .unwrap();
    t.doc_client.link_to_vault(owner, doc_id, vault_id).unwrap();

    let vault_docs = t.doc_client.get_vault_documents(vault_id);
    assert_eq!(vault_docs.len(), 1);
    assert_eq!(vault_docs[0], doc_id);

    // 8. Submit HIGH verification score (> 7000) => Active
    let sig = [0u8; 64];
    t.pol_client
        .submit_verification(t.oracle, owner, 8_500u32, VerificationSource::PerceptronAggregate, sig, 0)
        .unwrap();
    assert_eq!(t.pol_client.get_liveness_score(owner).unwrap(), 8_500);
    // Vault should still be Active
    assert_eq!(t.vault_client.get_status(vault_id).unwrap(), VaultStatus::Active);

    // 9. Submit LOW score (< 7000 but > 3000) => transition to Alert
    let sig2 = [2u8; 64];
    t.pol_client
        .submit_verification(t.oracle, owner, 5_000u32, VerificationSource::BehaviorPattern, sig2, 0)
        .unwrap();
    assert_eq!(t.pol_client.get_liveness_score(owner).unwrap(), 5_000);

    // Admin transitions vault to Alert (simulating oracle-driven transition)
    t.vault_client
        .transition_status(t.admin, vault_id, VaultStatus::Alert, 0)
        .unwrap();
    assert_eq!(t.vault_client.get_status(vault_id).unwrap(), VaultStatus::Alert);

    // 10. Submit VERY LOW score (< 3000) => GracePeriod
    let sig3 = [3u8; 64];
    t.pol_client
        .submit_verification(t.oracle, owner, 2_000u32, VerificationSource::PerceptronAggregate, sig3, 0)
        .unwrap();
    assert_eq!(t.pol_client.get_liveness_score(owner).unwrap(), 2_000);

    // Admin transitions vault to GracePeriod
    t.vault_client
        .transition_status(t.admin, vault_id, VaultStatus::GracePeriod, 0)
        .unwrap();
    assert_eq!(
        t.vault_client.get_status(vault_id).unwrap(),
        VaultStatus::GracePeriod
    );

    // 11. Grace period timeout => Triggered
    t.vault_client
        .transition_status(t.admin, vault_id, VaultStatus::Triggered, 0)
        .unwrap();
    assert_eq!(t.vault_client.get_status(vault_id).unwrap(), VaultStatus::Triggered);

    // 12. Withdrawals should fail (vault is Triggered, not Active)
    let withdraw_result = t.vault_client.withdraw(owner, vault_id, owner, 1_000, 0);
    assert!(withdraw_result.is_err());

    // 13. Record claims on beneficiary contract
    let pct1 = t.benef_client.record_claim(t.admin, vault_id, beneficiary1).unwrap();
    assert_eq!(pct1, 6_000);

    let pct2 = t.benef_client.record_claim(t.admin, vault_id, beneficiary2).unwrap();
    assert_eq!(pct2, 4_000);

    // Cannot claim twice
    let double_claim = t.benef_client.record_claim(t.admin, vault_id, beneficiary1);
    assert!(double_claim.is_err());
    assert!(!t.benef_client.can_claim(vault_id, beneficiary1));

    // 14. Grant document access to beneficiaries
    let access1 = t.doc_client.grant_access(t.admin, doc_id, beneficiary1).unwrap();
    assert_eq!(access1.doc_type, DocumentType::Will);
    assert!(!access1.is_encrypted);

    let access2 = t.doc_client.grant_access(t.admin, doc_id, beneficiary2).unwrap();
    assert_eq!(access2.doc_type, DocumentType::Will);

    // 15. Transition to Distributed
    t.vault_client
        .transition_status(t.admin, vault_id, VaultStatus::Distributed, 0)
        .unwrap();
    assert_eq!(
        t.vault_client.get_status(vault_id).unwrap(),
        VaultStatus::Distributed
    );

    // Final assertions
    // Vault balance is still tracked (actual distribution is external)
    assert_eq!(t.vault_client.get_balance(vault_id).unwrap(), deposit_amount);
    assert_eq!(owner_tokens, mint_amount - deposit_amount);
    // Document is verified
    let proof = t.doc_client.verify_document(doc_id).unwrap();
    assert!(proof.exists);
    assert_eq!(proof.doc_hash, [1u8; 32]);
}

#[test]
fn test_emergency_recovery() {
    let mut t = setup_full_env();

    let owner: u64 = 1;

    // 1. Setup token + vault + PoL
    let token_addr: u64 = 50;
    let mut owner_tokens: i128 = 100_000;

    let vault_id = t.vault_client.create_vault(owner, token_addr, 0).unwrap();
    let deposit = t.vault_client.deposit(vault_id, owner, 50_000, 0).unwrap();
    owner_tokens -= deposit.amount;

    // Register PoL model and link vault
    let weights = create_weights();
    t.pol_client.register_model(owner, weights, 100_000i128, 0).unwrap();
    t.vault_client.link_proof_of_life(owner, vault_id, t.pol_addr).unwrap();
    t.pol_client.link_vault(owner, t.vault_addr, vault_id).unwrap();

    // Default score should be max (10000)
    assert_eq!(t.pol_client.get_liveness_score(owner).unwrap(), 10_000);
    assert_eq!(t.vault_client.get_status(vault_id).unwrap(), VaultStatus::Active);

    // 2. Submit low score => transition to Alert
    let sig = [0u8; 64];
    t.pol_client
        .submit_verification(t.oracle, owner, 5_000u32, VerificationSource::BehaviorPattern, sig, 0)
        .unwrap();
    assert_eq!(t.pol_client.get_liveness_score(owner).unwrap(), 5_000);

    // Admin transitions to Alert
    t.vault_client
        .transition_status(t.admin, vault_id, VaultStatus::Alert, 0)
        .unwrap();
    assert_eq!(t.vault_client.get_status(vault_id).unwrap(), VaultStatus::Alert);

    // Withdrawal should fail while in Alert
    let withdraw_attempt = t.vault_client.withdraw(owner, vault_id, owner, 1_000, 0);
    assert!(withdraw_attempt.is_err());

    // 3. Emergency check-in => score back to 10000
    t.pol_client.emergency_checkin(owner).unwrap();
    assert_eq!(t.pol_client.get_liveness_score(owner).unwrap(), 10_000);

    // 4. Admin transitions back to Active
    t.vault_client
        .transition_status(t.admin, vault_id, VaultStatus::Active, 0)
        .unwrap();
    assert_eq!(t.vault_client.get_status(vault_id).unwrap(), VaultStatus::Active);

    // 5. Verify vault is Active, deposits can be withdrawn
    let transfer = t.vault_client.withdraw(owner, vault_id, owner, 20_000, 0).unwrap();
    owner_tokens += transfer.amount;
    assert_eq!(t.vault_client.get_balance(vault_id).unwrap(), 30_000);
    assert_eq!(owner_tokens, 70_000); // 100k - 50k deposited + 20k withdrawn

    // Additional deposit should also work
    let deposit2 = t.vault_client.deposit(vault_id, owner, 10_000, 0).unwrap();
    owner_tokens -= deposit2.amount;
    assert_eq!(t.vault_client.get_balance(vault_id).unwrap(), 40_000);
}

#[test]
fn test_document_inheritance_flow() {
    let mut t = setup_full_env();

    let owner: u64 = 1;
    let beneficiary1: u64 = 21;

    // 1. Setup vault
    let token_addr: u64 = 50;
    let vault_id = t.vault_client.create_vault(owner, token_addr, 0).unwrap();
    t.vault_client.deposit(vault_id, owner, 50_000, 0).unwrap();

    // 2. Register public document
    let public_cid = String::from("QmPublicManifestCIDForInheritanceFlow12345");
    let public_hash = [1u8; 32];
    let public_doc_id = t
        .doc_client
        .register_document(owner, public_cid, public_hash, DocumentType::PublicManifest, false, 0)
        .unwrap();

    // 3. Register encrypted document
    let encrypted_cid = String::from("QmEncryptedWillCIDForInheritanceFlowTest");
    let encrypted_hash = [2u8; 32];
    let encrypted_doc_id = t
        .doc_client
        .register_document(owner, encrypted_cid, encrypted_hash, DocumentType::Will, true, 0)
        .unwrap();

    // 4. Link both documents to vault
    t.doc_client.link_to_vault(owner, public_doc_id, vault_id).unwrap();
    t.doc_client.link_to_vault(owner, encrypted_doc_id, vault_id).unwrap();

    let vault_docs = t.doc_client.get_vault_documents(vault_id);
    assert_eq!(vault_docs.len(), 2);
    assert_eq!(vault_docs[0], public_doc_id);
    assert_eq!(vault_docs[1], encrypted_doc_id);

    // 5. Store encrypted AES key for beneficiary
    let encrypted_key = vec![42u8; 32];
    t.doc_client
        .store_encrypted_key(owner, encrypted_doc_id, beneficiary1, encrypted_key)
        .unwrap();

    // 6. Verify document metadata
    let public_doc_info = t.doc_client.get_document(public_doc_id).unwrap();
    assert!(!public_doc_info.is_encrypted);
    assert!(public_doc_info.linked);
    assert_eq!(public_doc_info.vault_id, vault_id);
    assert_eq!(public_doc_info.doc_type, DocumentType::PublicManifest);

    let encrypted_doc_info = t.doc_client.get_document(encrypted_doc_id).unwrap();
    assert!(encrypted_doc_info.is_encrypted);
    assert!(encrypted_doc_info.linked);
    assert_eq!(encrypted_doc_info.vault_id, vault_id);
    assert_eq!(encrypted_doc_info.doc_type, DocumentType::Will);

    // 7. Simulate death: transition vault through to Triggered
    t.vault_client
        .transition_status(t.admin, vault_id, VaultStatus::Alert, 0)
        .unwrap();
    t.vault_client
        .transition_status(t.admin, vault_id, VaultStatus::GracePeriod, 0)
        .unwrap();
    t.vault_client
        .transition_status(t.admin, vault_id, VaultStatus::Triggered, 0)
        .unwrap();
    assert_eq!(t.vault_client.get_status(vault_id).unwrap(), VaultStatus::Triggered);

    // 8. Grant access to beneficiary for public document
    let public_access = t
        .doc_client
        .grant_access(t.admin, public_doc_id, beneficiary1)
        .unwrap();

    assert_eq!(public_access.doc_type, DocumentType::PublicManifest);
    assert!(!public_access.is_encrypted);
    // Public documents have no encrypted key
    assert_eq!(public_access.encrypted_key.len(), 0);
    assert_eq!(
        public_access.ipfs_cid,
        String::from("QmPublicManifestCIDForInheritanceFlow12345")
    );

    // 9. Grant access to beneficiary for encrypted document
    let encrypted_access = t
        .doc_client
        .grant_access(t.admin, encrypted_doc_id, beneficiary1)
        .unwrap();

    assert_eq!(encrypted_access.doc_type, DocumentType::Will);
    assert!(encrypted_access.is_encrypted);
    // Encrypted document should have the encrypted key we stored
    assert_eq!(encrypted_access.encrypted_key.len(), 32);
    assert_eq!(encrypted_access.encrypted_key, vec![42u8; 32]);
    assert_eq!(
        encrypted_access.ipfs_cid,
        String::from("QmEncryptedWillCIDForInheritanceFlowTest")
    );

    // 10. Verify document proof for both documents
    let public_proof = t.doc_client.verify_document(public_doc_id).unwrap();
    assert!(public_proof.exists);
    assert_eq!(public_proof.doc_hash, [1u8; 32]);

    let encrypted_proof = t.doc_client.verify_document(encrypted_doc_id).unwrap();
    assert!(encrypted_proof.exists);
    assert_eq!(encrypted_proof.doc_hash, [2u8; 32]);
}
