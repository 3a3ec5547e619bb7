use pulse_core::beneficiary::BeneficiaryContract;
use pulse_core::vault::Beneficiary;

#[test]
fn test_test_initialize() {
    let mut client = BeneficiaryContract::new();
    let admin: u64 = 900;
    client.initialize(admin).unwrap();
}

#[test]
fn test_test_initialize_twice_fails() {
    let mut client = BeneficiaryContract::new();
    let admin: u64 = 900;

    client.initialize(admin).unwrap();

    let result = client.initialize(admin);
    assert!(result.is_err());
}

#[test]
fn test_test_set_beneficiaries_valid() {
    let mut client = BeneficiaryContract::new();
    let admin: u64 = 900;
    client.initialize(admin).unwrap();

    let b1 = Beneficiary {
        address: 11,
        percentage: 5000,
        claimed: false,
    };
    let b2 = Beneficiary {
        address: 12,
        percentage: 5000,
        claimed: false,
    };

    client.set_beneficiaries(admin, 0u64, vec![b1, b2]).unwrap();

    let result = client.get_beneficiaries(0u64);
    assert_eq!(result.len(), 2);
}

#[test]
fn test_test_set_beneficiaries_invalid_sum() {
    let mut client = BeneficiaryContract::new();
    let admin: u64 = 900;
    client.initialize(admin).unwrap();

    let b1 = Beneficiary {
        address: 11,
        percentage: 3000,
        claimed: false,
    };
    let b2 = Beneficiary {
        address: 12,
        percentage: 3000,
        claimed: false,
    };

    // Sum is 6000, not 10000
    let result = client.set_beneficiaries(admin, 0u64, vec![b1, b2]);
    assert!(result.is_err());
}

#[test]
fn test_test_set_beneficiaries_empty() {
    let mut client = BeneficiaryContract::new();
    let admin: u64 = 900;
    client.initialize(admin).unwrap();

    let beneficiaries: Vec<Beneficiary> = Vec::new();

    let result = client.set_beneficiaries(admin, 0u64, beneficiaries);
    assert!(result.is_err());
}

#[test]
fn test_can_claim() {
    let mut client = BeneficiaryContract::new();
    let admin: u64 = 900;
    let claimer: u64 = 21;
    let non_beneficiary: u64 = 22;

    client.initialize(admin).unwrap();

    let b1 = Beneficiary {
        address: claimer,
        percentage: 10000,
        claimed: false,
    };

    client.set_beneficiaries(admin, 0u64, vec![b1]).unwrap();

    assert_eq!(client.can_claim(0u64, claimer), true);
    assert_eq!(client.can_claim(0u64, non_beneficiary), false);
}

#[test]
fn test_record_claim() {
    let mut client = BeneficiaryContract::new();
    let admin: u64 = 900;
    let claimer: u64 = 21;

    client.initialize(admin).unwrap();

    let b1 = Beneficiary {
        address: claimer,
        percentage: 7000,
        claimed: false,
    };
    let b2 = Beneficiary {
        address: 23,
        percentage: 3000,
        claimed: false,
    };

    client.set_beneficiaries(admin, 0u64, vec![b1, b2]).unwrap();

    let percentage = client.record_claim(admin, 0u64, claimer).unwrap();
    assert_eq!(percentage, 7000);

    // After claiming, can_claim should return false
    assert_eq!(client.can_claim(0u64, claimer), false);
}

#[test]
fn test_record_claim_already_claimed() {
    let mut client = BeneficiaryContract::new();
    let admin: u64 = 900;
    let claimer: u64 = 21;

    client.initialize(admin).unwrap();

    let b1 = Beneficiary {
        address: claimer,
        percentage: 10000,
        claimed: false,
    };

    client.set_beneficiaries(admin, 0u64, vec![b1]).unwrap();

    // First claim succeeds
    client.record_claim(admin, 0u64, claimer).unwrap();

    // Second claim should fail with AlreadyClaimed
    let result = client.record_claim(admin, 0u64, claimer);
    assert!(result.is_err());
}

#[test]
fn test_record_claim_not_beneficiary() {
    let mut client = BeneficiaryContract::new();
    let admin: u64 = 900;
    let claimer: u64 = 21;
    let stranger: u64 = 33;

    client.initialize(admin).unwrap();

    let b1 = Beneficiary {
        address: claimer,
        percentage: 10000,
        claimed: false,
    };

    client.set_beneficiaries(admin, 0u64, vec![b1]).unwrap();

    // Stranger is not a beneficiary
    let result = client.record_claim(admin, 0u64, stranger);
    assert!(result.is_err());
}
