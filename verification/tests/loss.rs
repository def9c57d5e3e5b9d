use eigenlayer_compute::{
    ArithmeticError, AttestationRequest, ConfidentialInsuranceCompute, U256,
};

fn u(value: u64) -> U256 {
    U256::from(value)
}

const MAX: U256 = U256([u64::MAX, u64::MAX, u64::MAX, u64::MAX]);

#[test]
fn no_loss_where_the_pool_outperforms_holding() {
    let service = ConfidentialInsuranceCompute::new();
    let r = service.calculate_impermanent_loss(u(1000), u(2000), u(100), u(50), u(110), u(55), u(30));
    assert_eq!(r, Ok((u(0), false)));
}

#[test]
fn loss_where_holding_outperforms_the_pool() {
    // ratio 4, initial value 2000, hold value 5000, multiplier 4 / 5 = 0,
    // fees 2000 * 30 / 10000 = 6, so the pool is worth 6.
    let service = ConfidentialInsuranceCompute::new();
    let r = service.calculate_impermanent_loss(u(1000), u(1000), u(4), u(1), u(1), u(1), u(30));
    assert_eq!(r, Ok((u(4994), true)));
}

#[test]
fn loss_with_a_multiplier_of_one() {
    // ratio 1, multiplier 2 * 1 / 2 = 1, initial value 30, hold value 3000,
    // fees 30 * 10000 / 10000 = 30, so the pool is worth 60.
    let service = ConfidentialInsuranceCompute::new();
    let r = service.calculate_impermanent_loss(u(10), u(20), u(100), u(100), u(1), u(1), u(10000));
    assert_eq!(r, Ok((u(2940), true)));
}

#[test]
fn loss_with_a_ratio_of_zero() {
    // ratio (1 * 1) / (1 * 2) = 0, multiplier 0 / 1 = 0, initial value 15,
    // hold value 5 + 20 = 25, fees 15 * 1000 / 10000 = 1.
    let service = ConfidentialInsuranceCompute::new();
    let r = service.calculate_impermanent_loss(u(5), u(10), u(1), u(2), u(1), u(1), u(1000));
    assert_eq!(r, Ok((u(24), true)));
}

#[test]
fn zero_initial_price_gives_no_loss() {
    let service = ConfidentialInsuranceCompute::new();
    assert_eq!(
        service.calculate_impermanent_loss(u(1000), u(2000), u(100), u(50), u(0), u(55), u(30)),
        Ok((u(0), false))
    );
    assert_eq!(
        service.calculate_impermanent_loss(u(1000), u(2000), u(100), u(50), u(110), u(0), u(30)),
        Ok((u(0), false))
    );
    assert_eq!(
        service.calculate_impermanent_loss(MAX, MAX, MAX, u(0), u(0), u(0), MAX),
        Ok((u(0), false))
    );
}

#[test]
fn zero_current_price_of_token_b_is_a_division_by_zero() {
    let service = ConfidentialInsuranceCompute::new();
    assert_eq!(
        service.calculate_impermanent_loss(u(1000), u(2000), u(100), u(0), u(110), u(55), u(30)),
        Err(ArithmeticError::DivisionByZero)
    );
}

#[test]
fn overflow_in_the_ratio_comes_before_the_division() {
    let service = ConfidentialInsuranceCompute::new();
    assert_eq!(
        service.calculate_impermanent_loss(u(1), u(1), MAX, u(0), u(1), u(2), u(30)),
        Err(ArithmeticError::ArithmeticOverflow)
    );
}

#[test]
fn overflow_in_the_values_is_reported() {
    let service = ConfidentialInsuranceCompute::new();
    assert_eq!(
        service.calculate_impermanent_loss(MAX, u(1), u(1), u(1), u(2), u(1), u(30)),
        Err(ArithmeticError::ArithmeticOverflow)
    );
    assert_eq!(
        service.calculate_impermanent_loss(u(1), u(1), u(1), u(1), u(1), u(1), MAX),
        Err(ArithmeticError::ArithmeticOverflow)
    );
    // the ratio is 2^256 - 1, and one more does not fit
    assert_eq!(
        service.calculate_impermanent_loss(u(1), u(1), MAX, u(1), u(1), u(1), u(30)),
        Err(ArithmeticError::ArithmeticOverflow)
    );
}

#[test]
fn loss_is_repeatable() {
    let service = ConfidentialInsuranceCompute::new();
    let first = service.calculate_impermanent_loss(u(7), u(9), u(31), u(3), u(5), u(2), u(25));
    let second = service.calculate_impermanent_loss(u(7), u(9), u(31), u(3), u(5), u(2), u(25));
    assert_eq!(first, second);
    // ratio 62 / 15 = 4, initial value 53, hold value 244, multiplier 4 / 5 = 0,
    // fees 53 * 25 / 10000 = 0
    assert_eq!(first, Ok((u(244), true)));
}

fn request() -> AttestationRequest {
    AttestationRequest {
        policy_id: u(1),
        initial_token_a_amount: u(1000),
        initial_token_b_amount: u(2000),
        current_token_a_price: u(100),
        current_token_b_price: u(50),
        initial_token_a_price: u(110),
        initial_token_b_price: u(55),
        pool_fee_rate: u(30),
        coverage_amount: u(5000),
        deductible: u(100),
        coverage_ratio: u(8000),
    }
}

#[test]
fn claim_without_a_loss_pays_nothing() {
    let service = ConfidentialInsuranceCompute::new();
    let response = service.process_attestation_request(request()).unwrap();
    assert_eq!(response.impermanent_loss, u(0));
    assert!(!response.has_loss);
    assert_eq!(response.payout, u(0));
    assert!(response.is_valid);
}

#[test]
fn claim_with_a_loss_pays_the_capped_share() {
    let service = ConfidentialInsuranceCompute::new();
    let mut claim = request();
    claim.initial_token_a_amount = u(1000);
    claim.initial_token_b_amount = u(1000);
    claim.current_token_a_price = u(4);
    claim.current_token_b_price = u(1);
    claim.initial_token_a_price = u(1);
    claim.initial_token_b_price = u(1);
    let response = service.process_attestation_request(claim).unwrap();
    // loss 4994, covered 4894, scaled 4894 * 8000 / 10000 = 3915
    assert_eq!(response.impermanent_loss, u(4994));
    assert!(response.has_loss);
    assert_eq!(response.payout, u(3915));
    assert!(response.is_valid);

    let mut capped = request();
    capped.initial_token_a_amount = u(1000);
    capped.initial_token_b_amount = u(1000);
    capped.current_token_a_price = u(4);
    capped.current_token_b_price = u(1);
    capped.initial_token_a_price = u(1);
    capped.initial_token_b_price = u(1);
    capped.coverage_amount = u(3000);
    let response = service.process_attestation_request(capped).unwrap();
    assert_eq!(response.payout, u(3000));
}

#[test]
fn claim_reports_the_fault_of_either_step() {
    let service = ConfidentialInsuranceCompute::new();
    let mut no_ratio = request();
    no_ratio.current_token_b_price = u(0);
    assert_eq!(
        service.process_attestation_request(no_ratio).err(),
        Some(ArithmeticError::DivisionByZero)
    );
    // the loss is 2^256 - 1 - 1, and its product with the ratio does not fit
    let mut large = request();
    large.initial_token_a_amount = MAX;
    large.initial_token_b_amount = u(0);
    large.current_token_a_price = u(1);
    large.current_token_b_price = u(2);
    large.initial_token_a_price = u(1);
    large.initial_token_b_price = u(1);
    large.pool_fee_rate = u(1);
    large.deductible = u(0);
    let loss = service
        .calculate_impermanent_loss(MAX, u(0), u(1), u(2), u(1), u(1), u(1))
        .unwrap();
    assert!(loss.1);
    assert_eq!(
        service.process_attestation_request(large).err(),
        Some(ArithmeticError::ArithmeticOverflow)
    );
}

#[test]
fn claim_is_repeatable() {
    let service = ConfidentialInsuranceCompute::new();
    let first = service.process_attestation_request(request()).unwrap();
    let second = service.process_attestation_request(request()).unwrap();
    assert_eq!(first.impermanent_loss, second.impermanent_loss);
    assert_eq!(first.has_loss, second.has_loss);
    assert_eq!(first.payout, second.payout);
    assert_eq!(first.is_valid, second.is_valid);
}
