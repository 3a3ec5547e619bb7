use pulse_core::liveness::ProofOfLifeContract;
use pulse_core::liveness::ProofOfLifeError;
use pulse_core::liveness::VerificationSource;

fn create_weights() -> Vec<i128> {
    let mut weights = Vec::new();
    for _ in 0..10 {
        weights.push(500_000i128); // 0.5 in fixed-point
    }
    weights
}

fn setup_initialized() -> (ProofOfLifeContract, u64, u64) {
    let mut client = ProofOfLifeContract::new();
    let admin: u64 = 900;
    let oracle: u64 = 901;
    client.initialize(admin, oracle).unwrap();
    (client, admin, oracle)
}

fn setup_with_user() -> (ProofOfLifeContract, u64, u64, u64) {
    let (mut client, admin, oracle) = setup_initialized();
    let user: u64 = 1;
    let weights = create_weights();
    client.register_model(user, weights, 100_000i128, 0).unwrap();
    (client, admin, oracle, user)
}

#[test]
fn test_pol_initialize() {
    let mut client = ProofOfLifeContract::new();
    let admin: u64 = 900;
    let oracle: u64 = 901;
    client.initialize(admin, oracle).unwrap();
}

#[test]
fn test_pol_initialize_twice_fails() {
    let (mut client, admin, oracle) = setup_initialized();

    let result = client.initialize(admin, oracle);
    assert_eq!(result, Err(ProofOfLifeError::AlreadyInitialized));
}

#[test]
fn test_register_model() {
    let mut client = ProofOfLifeContract::new();
    let admin: u64 = 900;
    let oracle: u64 = 901;
    let user: u64 = 1;

    client.initialize(admin, oracle).unwrap();

    let weights = create_weights();
    client.register_model(user, weights, 100_000i128, 0).unwrap();

    let model = client.get_model(user).unwrap();
    assert_eq!(model.version, 1);
    assert_eq!(model.weights.len(), 10);
}

#[test]
fn test_register_model_invalid_weights() {
    let (mut client, _admin, _oracle) = setup_initialized();
    let user: u64 = 1;

    // Only 5 weights instead of 10
    let mut bad_weights = Vec::new();
    for _ in 0..5 {
        bad_weights.push(500_000i128);
    }

    let result = client.register_model(user, bad_weights, 100_000i128, 0);
    assert_eq!(result, Err(ProofOfLifeError::InvalidWeights));
}

#[test]
fn test_submit_verification() {
    let mut client = ProofOfLifeContract::new();
    let admin: u64 = 900;
    let oracle: u64 = 901;
    let user: u64 = 1;

    client.initialize(admin, oracle).unwrap();

    let weights = create_weights();
    client.register_model(user, weights, 100_000i128, 0).unwrap();

    let sig = [0u8; 64];
    client
        .submit_verification(oracle, user, 8500u32, VerificationSource::PerceptronAggregate, sig, 0)
        .unwrap();

    let score = client.get_liveness_score(user).unwrap();
    assert_eq!(score, 8500);
}

#[test]
fn test_submit_verification_invalid_score() {
    let (mut client, _admin, oracle, user) = setup_with_user();

    let sig = [0u8; 64];
    let result = client.submit_verification(
        oracle,
        user,
        10_001u32,
        VerificationSource::PerceptronAggregate,
        sig,
        0,
    );
    assert_eq!(result, Err(ProofOfLifeError::InvalidScore));
}

#[test]
fn test_submit_verification_unregistered() {
    let (mut client, _admin, oracle) = setup_initialized();
    let unregistered_user: u64 = 55;

    let sig = [0u8; 64];
    let result = client.submit_verification(
        oracle,
        unregistered_user,
        5000u32,
        VerificationSource::PerceptronAggregate,
        sig,
        0,
    );
    assert_eq!(result, Err(ProofOfLifeError::UserNotRegistered));
}

#[test]
fn test_update_model() {
    let (mut client, _admin, _oracle, user) = setup_with_user();

    // Verify initial version
    let model_before = client.get_model(user).unwrap();
    assert_eq!(model_before.version, 1);

    // Update with new weights
    let mut new_weights = Vec::new();
    for _ in 0..10 {
        new_weights.push(750_000i128); // 0.75 in fixed-point
    }
    client.update_model(user, new_weights, 200_000i128, 0).unwrap();

    let model_after = client.get_model(user).unwrap();
    assert_eq!(model_after.version, 2);
    assert_eq!(model_after.bias, 200_000i128);
    assert_eq!(model_after.weights[0], 750_000i128);
}

#[test]
fn test_update_model_invalid_weights() {
    let (mut client, _admin, _oracle, user) = setup_with_user();

    // Try updating with 3 weights instead of 10
    let mut bad_weights = Vec::new();
    for _ in 0..3 {
        bad_weights.push(100_000i128);
    }

    let result = client.update_model(user, bad_weights, 200_000i128, 0);
    assert_eq!(result, Err(ProofOfLifeError::InvalidWeights));
}

#[test]
fn test_emergency_checkin() {
    let mut client = ProofOfLifeContract::new();
    let admin: u64 = 900;
    let oracle: u64 = 901;
    let user: u64 = 1;

    client.initialize(admin, oracle).unwrap();

    let weights = create_weights();
    client.register_model(user, weights, 100_000i128, 0).unwrap();

    // Submit low score
    let sig = [0u8; 64];
    client
        .submit_verification(oracle, user, 2000u32, VerificationSource::PerceptronAggregate, sig, 0)
        .unwrap();
    assert_eq!(client.get_liveness_score(user).unwrap(), 2000);

    // Emergency checkin resets to max
    client.emergency_checkin(user).unwrap();
    assert_eq!(client.get_liveness_score(user).unwrap(), 10_000);
}

#[test]
fn test_emergency_checkin_unregistered() {
    let (mut client, _admin, _oracle) = setup_initialized();
    let unregistered_user: u64 = 55;

    let result = client.emergency_checkin(unregistered_user);
    assert_eq!(result, Err(ProofOfLifeError::UserNotRegistered));
}

#[test]
fn test_link_vault() {
    let (mut client, _admin, oracle, user) = setup_with_user();
    let vault_contract: u64 = 800;
    let vault_id: u64 = 42;

    client.link_vault(user, vault_contract, vault_id).unwrap();

    // Verify the vault is linked by submitting a verification that will
    // emit the transition advisory (proving the vault link was stored).
    let sig = [0u8; 64];
    client
        .submit_verification(oracle, user, 8000u32, VerificationSource::PerceptronAggregate, sig, 0)
        .unwrap();

    let score = client.get_liveness_score(user).unwrap();
    assert_eq!(score, 8000);
}

#[test]
fn test_get_liveness_score_default() {
    let (client, _admin, _oracle, user) = setup_with_user();

    // Default score for a registered user with no verifications should be 10_000
    let score = client.get_liveness_score(user).unwrap();
    assert_eq!(score, 10_000);
}
