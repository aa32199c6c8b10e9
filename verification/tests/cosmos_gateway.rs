use interlink::cosmos_gateway::{
    execute, instantiate, query, ChainAnswers, Coin, ContractError, ExecuteMsg, GatewayState,
    InstantiateMsg, QueryMsg, QueryResponse,
};

fn setup() -> GatewayState {
    let msg = InstantiateMsg {
        guardian: "guardian_addr".to_string(),
        hub_chain_id: 2,
        fee_rate_bps: 10,
    };
    let (state, _resp) = instantiate(&msg, Ok("guardian_addr".to_string())).unwrap();
    state
}

fn answers(address: &str) -> ChainAnswers {
    ChainAnswers {
        validated_address: Ok(address.to_string()),
        balance: Ok(Coin { denom: "uatom".to_string(), amount: 0 }),
    }
}

fn uatom(amount: u128) -> Vec<Coin> {
    vec![Coin { denom: "uatom".to_string(), amount }]
}

#[test]
fn test_instantiate() {
    let state = setup();
    assert_eq!(state.config.guardian, "guardian_addr");
    assert_eq!(state.config.hub_chain_id, 2);
    assert_eq!(state.config.fee_rate_bps, 10);
    assert_eq!(state.sequence, 0);
    assert!(!state.paused);
}

#[test]
fn test_send_cross_chain_message() {
    let mut state = setup();
    let msg = ExecuteMsg::SendCrossChainMessage {
        recipient: vec![0xAA; 32],
        destination_chain: 1,
        payload: vec![1, 2, 3],
    };
    let res = execute(&mut state, "user1", &uatom(1000), msg, answers("user1")).unwrap();
    assert_eq!(res.attributes.len(), 7);
    assert_eq!(state.sequence, 1);
}

#[test]
fn test_send_zero_amount_fails() {
    let mut state = setup();
    let msg = ExecuteMsg::SendCrossChainMessage {
        recipient: vec![0xAA; 32],
        destination_chain: 1,
        payload: vec![],
    };
    let err = execute(&mut state, "user1", &Vec::new(), msg, answers("user1")).unwrap_err();
    assert!(matches!(err, ContractError::ZeroAmount));
}

#[test]
fn test_pause_unpause() {
    let mut state = setup();
    execute(&mut state, "guardian_addr", &Vec::new(), ExecuteMsg::Pause {}, answers("x")).unwrap();
    assert!(state.paused);

    let send_msg = ExecuteMsg::SendCrossChainMessage {
        recipient: vec![],
        destination_chain: 1,
        payload: vec![],
    };
    let err = execute(&mut state, "user1", &uatom(1000), send_msg, answers("user1")).unwrap_err();
    assert!(matches!(err, ContractError::Paused));

    execute(&mut state, "guardian_addr", &Vec::new(), ExecuteMsg::Unpause {}, answers("x")).unwrap();
    assert!(!state.paused);
}

#[test]
fn test_unauthorized_pause() {
    let mut state = setup();
    let err =
        execute(&mut state, "not_guardian", &Vec::new(), ExecuteMsg::Pause {}, answers("x")).unwrap_err();
    assert!(matches!(err, ContractError::Unauthorized));
}

#[test]
fn test_execute_verified_message() {
    let mut state = setup();
    let msg = ExecuteMsg::ExecuteVerifiedMessage {
        nonce: 1,
        recipient: "recipient_addr".to_string(),
        amount: 500,
        proof: vec![0xAB; 256],
        public_inputs: vec![1, 2, 3],
    };
    let res = execute(&mut state, "relayer1", &Vec::new(), msg, answers("recipient_addr")).unwrap();
    assert_eq!(res.messages.len(), 1);

    let msg2 = ExecuteMsg::ExecuteVerifiedMessage {
        nonce: 1,
        recipient: "recipient_addr".to_string(),
        amount: 500,
        proof: vec![0xAB; 256],
        public_inputs: vec![1, 2, 3],
    };
    let err = execute(&mut state, "relayer1", &Vec::new(), msg2, answers("recipient_addr")).unwrap_err();
    assert!(matches!(err, ContractError::AlreadyExecuted { nonce: 1 }));
}

#[test]
fn test_invalid_proof_rejected() {
    let mut state = setup();
    let msg = ExecuteMsg::ExecuteVerifiedMessage {
        nonce: 2,
        recipient: "recipient_addr".to_string(),
        amount: 500,
        proof: vec![0xAB; 100],
        public_inputs: vec![],
    };
    let err = execute(&mut state, "relayer1", &Vec::new(), msg, answers("recipient_addr")).unwrap_err();
    assert!(matches!(err, ContractError::InvalidProof));
}

#[test]
fn test_query_config() {
    let state = setup();
    match query(&state, &QueryMsg::Config {}) {
        QueryResponse::Config(config) => {
            assert_eq!(config.guardian, "guardian_addr");
            assert_eq!(config.hub_chain_id, 2);
        }
        _ => panic!("expected a config answer"),
    }
}

#[test]
fn test_query_sequence() {
    let state = setup();
    match query(&state, &QueryMsg::Sequence {}) {
        QueryResponse::Sequence(seq) => assert_eq!(seq.sequence, 0),
        _ => panic!("expected a sequence answer"),
    }
}

#[test]
fn gateway_released_amount_is_net_of_fee() {
    let mut state = setup();
    let msg = ExecuteMsg::ExecuteVerifiedMessage {
        nonce: 7,
        recipient: "recipient_addr".to_string(),
        amount: 10_000,
        proof: vec![0xAB; 256],
        public_inputs: vec![9],
    };
    let res = execute(&mut state, "relayer1", &Vec::new(), msg, answers("recipient_addr")).unwrap();
    assert_eq!(res.messages[0].to_address, "recipient_addr");
    assert_eq!(res.messages[0].amount[0].amount, 9_990);
    assert_eq!(res.messages[0].amount[0].denom, "uatom");
    match query(&state, &QueryMsg::MessageStatus { nonce: 7 }) {
        QueryResponse::MessageStatus(s) => assert!(s.executed),
        _ => panic!("expected a status answer"),
    }
}

#[test]
fn gateway_all_zero_proof_is_refused() {
    let mut state = setup();
    let msg = ExecuteMsg::ExecuteVerifiedMessage {
        nonce: 3,
        recipient: "recipient_addr".to_string(),
        amount: 1,
        proof: vec![0u8; 256],
        public_inputs: vec![],
    };
    let err = execute(&mut state, "relayer1", &Vec::new(), msg, answers("recipient_addr")).unwrap_err();
    assert!(matches!(err, ContractError::InvalidProof));
    assert!(state.executed.is_empty());
}

#[test]
fn gateway_guardian_hand_over() {
    let mut state = setup();
    let msg = ExecuteMsg::UpdateGuardian { new_guardian: "new_guardian".to_string() };
    execute(&mut state, "guardian_addr", &Vec::new(), msg, answers("new_guardian")).unwrap();
    assert_eq!(state.config.guardian, "new_guardian");
    let err =
        execute(&mut state, "guardian_addr", &Vec::new(), ExecuteMsg::Pause {}, answers("x")).unwrap_err();
    assert!(matches!(err, ContractError::Unauthorized));
}

#[test]
fn gateway_error_texts() {
    assert_eq!(ContractError::ZeroAmount.message(), "zero amount not allowed");
    assert_eq!(
        ContractError::AlreadyExecuted { nonce: 12 }.message(),
        "message with nonce 12 has already been executed"
    );
}

#[test]
fn gateway_denom_read_from_public_inputs() {
    let mut state = setup();
    let msg = ExecuteMsg::ExecuteVerifiedMessage {
        nonce: 11,
        recipient: "recipient_addr".to_string(),
        amount: 10_000,
        proof: vec![0xAB; 256],
        public_inputs: vec![5, b'u', b'o', b's', b'm', b'o'],
    };
    let res = execute(&mut state, "relayer1", &Vec::new(), msg, answers("recipient_addr")).unwrap();
    assert_eq!(res.messages[0].amount[0].denom, "uosmo");
}

#[test]
fn gateway_denom_falls_back_on_invalid_utf8() {
    let mut state = setup();
    let msg = ExecuteMsg::ExecuteVerifiedMessage {
        nonce: 12,
        recipient: "recipient_addr".to_string(),
        amount: 10_000,
        proof: vec![0xAB; 256],
        public_inputs: vec![2, 0xC3, 0x28],
    };
    let res = execute(&mut state, "relayer1", &Vec::new(), msg, answers("recipient_addr")).unwrap();
    assert_eq!(res.messages[0].amount[0].denom, "uatom");
}
