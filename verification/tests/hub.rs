use interlink::hub::{
    buy_back_and_burn, initialize, initialize_pool, process_cross_chain_swap, set_verification_key,
    slash_relayer, stake, submit_proof, unstake, verify_and_mint, HubError, StakeAccount,
    MIN_STAKE_AMOUNT,
};

fn staked(amount: u64) -> StakeAccount {
    StakeAccount { relayer: [1u8; 32], amount, staked_at: 0 }
}

#[test]
fn hub_submit_proof_in_order_only() {
    let mut reg = initialize([9u8; 32], 30);
    let st = staked(MIN_STAKE_AMOUNT);
    let proof = vec![0u8; 256];
    assert_eq!(
        submit_proof(&mut reg, &st, [1u8; 32], 0, &proof, [2u8; 32], true).unwrap_err(),
        HubError::VKNotInitialized
    );
    let vk_data: Vec<u8> = (0..576u32).map(|i| (i % 251) as u8).collect();
    let vk = set_verification_key(&mut reg, &vk_data).unwrap();
    assert_eq!(vk.ic_1[63], (575 % 251) as u8);
    assert!(reg.vk_initialized);
    let ev = submit_proof(&mut reg, &st, [1u8; 32], 0, &proof, [2u8; 32], true).unwrap();
    assert_eq!(ev.sequence, 0);
    assert_eq!(reg.next_sequence, 1);
    assert_eq!(
        submit_proof(&mut reg, &st, [1u8; 32], 0, &proof, [2u8; 32], true).unwrap_err(),
        HubError::SequenceAlreadyProcessed
    );
    assert_eq!(
        submit_proof(&mut reg, &st, [1u8; 32], 1, &proof[..255], [2u8; 32], true).unwrap_err(),
        HubError::InvalidProofLength
    );
    assert_eq!(
        submit_proof(&mut reg, &st, [1u8; 32], 1, &proof, [2u8; 32], false).unwrap_err(),
        HubError::InvalidProof
    );
    assert_eq!(reg.next_sequence, 1);
    assert_eq!(
        submit_proof(&mut reg, &staked(1), [1u8; 32], 1, &proof, [2u8; 32], true).unwrap_err(),
        HubError::InsufficientStake
    );
    let mint = verify_and_mint(&mut reg, &st, 1, 500, &proof, [3u8; 32], true, [4u8; 32]).unwrap();
    assert_eq!(mint.amount, 500);
    assert_eq!(reg.next_sequence, 2);
}

#[test]
fn hub_vk_length_is_checked() {
    let mut reg = initialize([9u8; 32], 30);
    assert_eq!(set_verification_key(&mut reg, &[0u8; 575]).unwrap_err(), HubError::InvalidVKLength);
    assert!(!reg.vk_initialized);
}

#[test]
fn hub_swap_constant_product() {
    let mut reg = initialize([9u8; 32], 30);
    let vk_data = vec![0u8; 576];
    set_verification_key(&mut reg, &vk_data).unwrap();
    let (mut pool, ev) = initialize_pool([5u8; 32], [6u8; 32], [9u8; 32], 1_000_000, 2_000_000).unwrap();
    assert_eq!(ev.reserve_b, 2_000_000);
    let st = staked(MIN_STAKE_AMOUNT);
    let proof = vec![0u8; 256];
    let out = process_cross_chain_swap(&mut reg, &st, &mut pool, 0, 10_000, 1, &proof, true, [7u8; 32])
        .unwrap();
    assert_eq!(out.fee, 30);
    assert_eq!(out.amount_out, 9_970 * 2_000_000 / (1_000_000 + 9_970));
    assert_eq!(pool.reserve_a, 1_009_970);
    assert_eq!(pool.reserve_b, 2_000_000 - out.amount_out);
    assert!((pool.reserve_a as u128) * (pool.reserve_b as u128) >= 1_000_000u128 * 2_000_000);
    let before = (pool.reserve_a, pool.reserve_b, reg.next_sequence);
    assert_eq!(
        process_cross_chain_swap(&mut reg, &st, &mut pool, 1, 10_000, 1_000_000, &proof, true, [7u8; 32])
            .unwrap_err(),
        HubError::SlippageExceeded
    );
    assert_eq!((pool.reserve_a, pool.reserve_b, reg.next_sequence), before);
    assert_eq!(initialize_pool([5u8; 32], [6u8; 32], [9u8; 32], 0, 1).unwrap_err(), HubError::EmptyPool);
}

#[test]
fn hub_stake_unstake_slash_burn() {
    let mut reg = initialize([9u8; 32], 0);
    let mut acct = StakeAccount { relayer: [0u8; 32], amount: 0, staked_at: 0 };
    assert_eq!(stake(&mut reg, &mut acct, [1u8; 32], 10, 100).unwrap_err(), HubError::InsufficientStake);
    let ev = stake(&mut reg, &mut acct, [1u8; 32], 2 * MIN_STAKE_AMOUNT, 100).unwrap();
    assert_eq!(ev.total_staked, 2 * MIN_STAKE_AMOUNT);
    assert_eq!(acct.staked_at, 100);
    assert_eq!(reg.total_staked, 2 * MIN_STAKE_AMOUNT);
    assert_eq!(unstake(&mut reg, &mut acct, MIN_STAKE_AMOUNT + 1).unwrap_err(), HubError::InsufficientStake);
    let un = unstake(&mut reg, &mut acct, MIN_STAKE_AMOUNT).unwrap();
    assert_eq!(un.remaining, MIN_STAKE_AMOUNT);
    let slash = slash_relayer(&mut reg, &mut acct);
    assert_eq!(slash.slash_amount, MIN_STAKE_AMOUNT / 2);
    assert_eq!(acct.amount, MIN_STAKE_AMOUNT / 2);
    assert_eq!(reg.total_staked + reg.total_burned, MIN_STAKE_AMOUNT);
    let burned = buy_back_and_burn(&mut reg, 1_000);
    assert_eq!(burned.amount, 400);
    assert_eq!(reg.total_burned, MIN_STAKE_AMOUNT / 2 + 400);
    assert_eq!(HubError::EmptyPool.message(), "Liquidity pool is empty.");
}

fn sample_vk() -> interlink::hub::VerificationKey {
    interlink::hub::VerificationKey {
        alpha_g1: [1u8; 64],
        beta_g2: [2u8; 128],
        gamma_g2: [3u8; 128],
        delta_g2: [4u8; 128],
        ic_0: [5u8; 64],
        ic_1: [6u8; 64],
    }
}

#[test]
fn hub_groth16_ecmul_input_layout() {
    let vk = sample_vk();
    let hash = [0x11u8; 32];
    let input = interlink::hub::groth16_ecmul_input(&hash, 7, &vk);
    assert_eq!(input.len(), 96);
    assert_eq!(&input[0..64], &[6u8; 64][..]);
    assert_eq!(&input[64..96], &interlink::bn254::compute_commitment_on_chain(&hash, 7)[..]);
}

#[test]
fn hub_groth16_ecadd_and_pairing_layout() {
    let vk = sample_vk();
    let scaled = vec![9u8; 64];
    let add = interlink::hub::groth16_ecadd_input(&vk, &scaled);
    assert_eq!(&add[0..64], &[5u8; 64][..]);
    assert_eq!(&add[64..128], &[9u8; 64][..]);

    let mut proof = vec![0u8; 256];
    proof[31] = 1; // A.x = 1
    proof[63] = 2; // A.y = 2
    for b in &mut proof[64..192] {
        *b = 0xbb;
    }
    for b in &mut proof[192..256] {
        *b = 0xcc;
    }
    let l_point = vec![0xddu8; 64];
    let p = interlink::hub::groth16_pairing_input(&proof, &l_point, &vk);
    assert_eq!(p.len(), 768);
    let mut a = [0u8; 64];
    a.copy_from_slice(&proof[0..64]);
    assert_eq!(&p[0..64], &interlink::bn254::negate_g1(&a)[..]);
    assert_eq!(&p[64..192], &proof[64..192]);
    assert_eq!(&p[192..256], &[1u8; 64][..]);
    assert_eq!(&p[384..448], &l_point[..]);
    assert_eq!(&p[576..640], &proof[192..256]);
    assert_eq!(&p[640..768], &[4u8; 128][..]);
}

#[test]
fn hub_pairing_result_is_read_as_one() {
    let mut one = [0u8; 32];
    one[31] = 1;
    assert!(interlink::hub::pairing_accepts(&one));
    let mut not_one = one;
    not_one[0] = 1;
    assert!(!interlink::hub::pairing_accepts(&not_one));
    assert!(!interlink::hub::pairing_accepts(&[0u8; 32]));
}
