use bech32::ToBase32;
use quizzler::error::ContractError;
use quizzler::helpers::{
    admit_proof, transfer_to_decoded, auth_validations, check_is_contract_owner, check_prefix, check_proof, conclude_auth,
    create_coin, create_ibc_transfer, map_validate, validate_account, bytes_eq, Registry,
};
use quizzler::msg::Manager;
use quizzler::state::Config;
use quizzler::table::Table;

const MSG_HEX: &str = "72";
const SIG_HEX: &str = "92a009a9f0d4cab8720e820b5f642540a2b27b5416503f8fb3762223ebdb69da085ac1e43e15996e458f3613d0f11d8c387b2eaeb4302aeeb00d291612bb0c00";
const KEY_HEX: &str = "3d4017c3e843895a92b70aa74d1b7ebc9c982ccf2ec4968cc0cd55f12af4660c";

fn unhex(s: &str) -> Vec<u8> {
    let digits: Vec<u8> = s.bytes().map(|c| (c as char).to_digit(16).unwrap() as u8).collect();
    digits.chunks(2).map(|p| p[0] * 16 + p[1]).collect()
}

fn b64(bytes: &[u8]) -> String {
    cosmwasm_std::Binary::new(bytes.to_vec()).to_base64()
}

fn address(prefix: &str, seed: u8) -> String {
    bech32::encode(prefix, vec![seed; 20].to_base32(), bech32::Variant::Bech32).unwrap()
}

fn config() -> Config {
    Config {
        owner: "owner".to_string(),
        receiver_prefix: "agoric".to_string(),
        channel_id: "channel-7".to_string(),
    }
}

fn registry_with_manager() -> Registry {
    let mut reg = Registry::new(config());
    let owner = "owner".to_string();
    reg.set_manager(&owner, "manager".to_string(), unhex(KEY_HEX), true).unwrap();
    reg
}

fn authenticate(reg: &mut Registry, token: &str, msg: Vec<u8>, expire: u64, now: u64) -> Result<(), ContractError> {
    auth_validations(
        reg,
        now,
        token.to_string(),
        msg,
        b64(&unhex(KEY_HEX)),
        expire,
        b64(&unhex(SIG_HEX)),
    )
}

#[test]
fn valid_proof_is_accepted_and_spends_token() {
    let mut reg = registry_with_manager();
    assert_eq!(authenticate(&mut reg, "t1", unhex(MSG_HEX), 100, 50), Ok(()));
    assert!(reg.used_proof_tokens.contains(&"t1".to_string()));
}

#[test]
fn token_cannot_be_used_twice() {
    let mut reg = registry_with_manager();
    assert_eq!(authenticate(&mut reg, "t1", unhex(MSG_HEX), 100, 50), Ok(()));
    assert_eq!(
        authenticate(&mut reg, "t1", unhex(MSG_HEX), 100, 50),
        Err(ContractError::TokenAlreadyUsed {})
    );
    // the signature does not matter for a spent token
    assert_eq!(
        authenticate(&mut reg, "t1", vec![1, 2, 3], 100, 50),
        Err(ContractError::TokenAlreadyUsed {})
    );
}

#[test]
fn expired_proof_is_refused_despite_valid_signature() {
    let mut reg = registry_with_manager();
    assert_eq!(
        authenticate(&mut reg, "t1", unhex(MSG_HEX), 49, 50),
        Err(ContractError::ProofExpired {})
    );
    assert!(!reg.used_proof_tokens.contains(&"t1".to_string()));
    // expiry at the block time itself is still in time
    assert_eq!(authenticate(&mut reg, "t1", unhex(MSG_HEX), 50, 50), Ok(()));
}

#[test]
fn wrong_message_burns_the_token() {
    let mut reg = registry_with_manager();
    assert_eq!(
        authenticate(&mut reg, "t2", vec![0x73], 100, 50),
        Err(ContractError::InvalidMessageHash {})
    );
    assert!(reg.used_proof_tokens.contains(&"t2".to_string()));
    assert_eq!(
        authenticate(&mut reg, "t2", unhex(MSG_HEX), 100, 50),
        Err(ContractError::TokenAlreadyUsed {})
    );
}

#[test]
fn unknown_or_revoked_signer_is_refused() {
    let mut reg = Registry::new(config());
    assert_eq!(
        authenticate(&mut reg, "t1", unhex(MSG_HEX), 100, 50),
        Err(ContractError::InvalidSigner {})
    );
    let owner = "owner".to_string();
    reg.set_manager(&owner, "manager".to_string(), unhex(KEY_HEX), true).unwrap();
    reg.set_manager(&owner, "manager".to_string(), unhex(KEY_HEX), false).unwrap();
    assert!(!reg.has_active_signer(&unhex(KEY_HEX)));
    assert_eq!(
        authenticate(&mut reg, "t1", unhex(MSG_HEX), 100, 50),
        Err(ContractError::InvalidSigner {})
    );
    assert!(!reg.used_proof_tokens.contains(&"t1".to_string()));
    reg.set_manager(&owner, "manager".to_string(), unhex(KEY_HEX), true).unwrap();
    assert!(reg.has_active_signer(&unhex(KEY_HEX)));
    assert_eq!(authenticate(&mut reg, "t1", unhex(MSG_HEX), 100, 50), Ok(()));
}

#[test]
fn malformed_encodings_are_refused_first() {
    let mut reg = registry_with_manager();
    let r = auth_validations(
        &mut reg,
        50,
        "t1".to_string(),
        unhex(MSG_HEX),
        "not base64!".to_string(),
        10,
        b64(&unhex(SIG_HEX)),
    );
    assert!(matches!(r, Err(ContractError::StdError(_))));
    let r = auth_validations(
        &mut reg,
        50,
        "t1".to_string(),
        unhex(MSG_HEX),
        b64(&unhex(KEY_HEX)),
        100,
        "???".to_string(),
    );
    assert!(matches!(r, Err(ContractError::StdError(_))));
    assert!(!reg.used_proof_tokens.contains(&"t1".to_string()));
}

#[test]
fn verifier_failure_is_distinct_and_keeps_the_token() {
    let mut reg = Registry::new(config());
    let owner = "owner".to_string();
    reg.set_manager(&owner, "manager".to_string(), vec![1, 2, 3], true).unwrap();
    let r = auth_validations(
        &mut reg,
        50,
        "t1".to_string(),
        unhex(MSG_HEX),
        b64(&[1, 2, 3]),
        100,
        b64(&unhex(SIG_HEX)),
    );
    assert!(matches!(r, Err(ContractError::SignatureVerificationFailed(_))));
    assert!(!reg.used_proof_tokens.contains(&"t1".to_string()));
}

#[test]
fn check_proof_orders_expiry_replay_signer() {
    let mut reg = registry_with_manager();
    let key = unhex(KEY_HEX);
    let t = "t".to_string();
    assert_eq!(check_proof(&reg, 10, &t, &key, 10), Ok(()));
    assert_eq!(check_proof(&reg, 11, &t, &key, 10), Err(ContractError::ProofExpired {}));
    assert_eq!(check_proof(&reg, 1, &t, &vec![9], 10), Err(ContractError::InvalidSigner {}));
    assert_eq!(conclude_auth(&mut reg, "t".to_string(), Ok(true)), Ok(()));
    assert_eq!(check_proof(&reg, 1, &t, &vec![9], 10), Err(ContractError::TokenAlreadyUsed {}));
    assert_eq!(check_proof(&reg, 11, &t, &vec![9], 10), Err(ContractError::ProofExpired {}));
}

#[test]
fn conclude_auth_spends_only_on_an_answer() {
    let mut reg = registry_with_manager();
    assert_eq!(
        conclude_auth(&mut reg, "a".to_string(), Err("bad key".to_string())),
        Err(ContractError::SignatureVerificationFailed("bad key".to_string()))
    );
    assert!(!reg.used_proof_tokens.contains(&"a".to_string()));
    assert_eq!(
        conclude_auth(&mut reg, "a".to_string(), Ok(false)),
        Err(ContractError::InvalidMessageHash {})
    );
    assert!(reg.used_proof_tokens.contains(&"a".to_string()));
}

#[test]
fn only_the_owner_sets_managers() {
    let mut reg = Registry::new(config());
    let stranger = "stranger".to_string();
    assert_eq!(
        reg.set_manager(&stranger, "m".to_string(), vec![1], true),
        Err(ContractError::Unauthorized {})
    );
    assert!(!reg.managers.contains(&"m".to_string()));
    assert_eq!(check_is_contract_owner(&reg.config, &stranger), Err(ContractError::Unauthorized {}));
    assert_eq!(check_is_contract_owner(&reg.config, &"owner".to_string()), Ok(()));
    let owner = "owner".to_string();
    assert_eq!(reg.set_manager(&owner, "m".to_string(), vec![1], true), Ok(()));
    let m = reg.managers.get(&"m".to_string()).unwrap();
    assert_eq!(m.address, "m");
    assert_eq!(m.pub_key, vec![1]);
    assert!(m.status);
}

#[test]
fn bytes_eq_compares_contents() {
    assert!(bytes_eq(&vec![], &vec![]));
    assert!(bytes_eq(&vec![1, 2], &vec![1, 2]));
    assert!(!bytes_eq(&vec![1, 2], &vec![1, 3]));
    assert!(!bytes_eq(&vec![1, 2], &vec![1, 2, 3]));
}

#[test]
fn validate_account_checks_prefix() {
    let good = address("agoric", 1);
    assert_eq!(validate_account("agoric", &good), Ok(("agoric".to_string(), good.clone())));
    let other = address("cosmos", 1);
    assert_eq!(
        validate_account("agoric", &other),
        Err(ContractError::ExpectedAgoricAccount { receiver: other.clone() })
    );
    assert_eq!(
        validate_account("agoric", "agoric"),
        Err(ContractError::InvalidAccount { receiver: "agoric".to_string() })
    );
    let mut broken = good.clone();
    broken.pop();
    broken.push(if good.ends_with('q') { 'p' } else { 'q' });
    assert_eq!(
        validate_account("agoric", &broken),
        Err(ContractError::InvalidAccount { receiver: broken.clone() })
    );
}

#[test]
fn check_prefix_judges_a_decoded_prefix() {
    assert_eq!(
        check_prefix(None, "agoric", "x"),
        Err(ContractError::InvalidAccount { receiver: "x".to_string() })
    );
    assert_eq!(
        check_prefix(Some("cosmos".to_string()), "agoric", "x"),
        Err(ContractError::ExpectedAgoricAccount { receiver: "x".to_string() })
    );
    assert_eq!(
        check_prefix(Some("agoric".to_string()), "agoric", "x"),
        Ok(("agoric".to_string(), "x".to_string()))
    );
}

#[test]
fn transfer_deducts_both_fees() {
    let receiver = address("agoric", 2);
    let msg = create_ibc_transfer(&config(), 1_000_000_000, "contract", &receiver, "uusdc", 5000)
        .unwrap();
    assert_eq!(msg.token, Some(create_coin("uusdc", 3000)));
    assert_eq!(msg.source_port, "transfer");
    assert_eq!(msg.source_channel, "channel-7");
    assert_eq!(msg.receiver, receiver);
    assert_eq!(msg.sender, "contract");
    assert_eq!(msg.memo, "");
    assert_eq!(msg.timeout_timestamp, 601_000_000_000);
    let height = msg.timeout_height.unwrap();
    assert_eq!(height.revision_number, 10000000);
    assert_eq!(height.revision_height, 2);
    let fee = msg.fee.unwrap();
    assert!(fee.recv_fee.is_empty());
    assert_eq!(fee.ack_fee, vec![create_coin("uusdc", 1000)]);
    assert_eq!(fee.timeout_fee, vec![create_coin("uusdc", 1000)]);
}

#[test]
fn transfer_needs_the_fees_covered() {
    let receiver = address("agoric", 2);
    assert_eq!(
        create_ibc_transfer(&config(), 0, "contract", &receiver, "uusdc", 1500),
        Err(ContractError::ArithmeticError {})
    );
    assert_eq!(
        create_ibc_transfer(&config(), 0, "contract", &receiver, "uusdc", 1999),
        Err(ContractError::ArithmeticError {})
    );
    let msg = create_ibc_transfer(&config(), 0, "contract", &receiver, "uusdc", 2000).unwrap();
    assert_eq!(msg.token, Some(create_coin("uusdc", 0)));
}

#[test]
fn transfer_refuses_foreign_receivers() {
    let other = address("cosmos", 2);
    assert_eq!(
        create_ibc_transfer(&config(), 0, "contract", &other, "uusdc", 5000),
        Err(ContractError::ExpectedAgoricAccount { receiver: other.clone() })
    );
    assert_eq!(
        create_ibc_transfer(&config(), 0, "contract", "nonsense", "uusdc", 100),
        Err(ContractError::InvalidAccount { receiver: "nonsense".to_string() })
    );
}

#[test]
fn map_validate_registers_active_managers() {
    let a = address("agoric", 3);
    let b = address("agoric", 4);
    let managers = vec![
        Manager { addr: a.clone(), pub_key: "AQID".to_string() },
        Manager { addr: b.clone(), pub_key: b64(&unhex(KEY_HEX)) },
    ];
    let infos = map_validate("agoric", &managers).unwrap();
    assert_eq!(infos.len(), 2);
    assert_eq!(infos[0].address, a);
    assert_eq!(infos[0].pub_key, vec![1, 2, 3]);
    assert!(infos[0].status);
    assert_eq!(infos[1].address, b);
    assert_eq!(infos[1].pub_key, unhex(KEY_HEX));
    assert_eq!(map_validate("agoric", &[]), Ok(vec![]));
}

#[test]
fn map_validate_fails_with_the_first_fault() {
    let a = address("agoric", 3);
    let c = address("cosmos", 4);
    let managers = vec![
        Manager { addr: a.clone(), pub_key: "AQID".to_string() },
        Manager { addr: c.clone(), pub_key: "AQID".to_string() },
        Manager { addr: "junk".to_string(), pub_key: "AQID".to_string() },
    ];
    assert_eq!(
        map_validate("agoric", &managers),
        Err(ContractError::ExpectedAgoricAccount { receiver: c.clone() })
    );
    let managers = vec![Manager { addr: a.clone(), pub_key: "*".to_string() }];
    assert!(matches!(map_validate("agoric", &managers), Err(ContractError::StdError(_))));
}

#[test]
fn managers_are_listed_in_ascending_order_of_address() {
    let mut reg = Registry::new(config());
    let owner = "owner".to_string();
    assert!(reg.list_managers().is_empty());
    for (address, key) in [("m3", 3u8), ("m1", 1), ("m2", 2), ("m10", 10), ("M1", 0), ("", 7)] {
        reg.set_manager(&owner, address.to_string(), vec![key], true).unwrap();
    }
    reg.set_manager(&owner, "m1".to_string(), vec![11], false).unwrap();
    let list = reg.list_managers();
    let addresses: Vec<&str> = list.iter().map(|entry| entry.0.as_str()).collect();
    assert_eq!(addresses, vec!["", "M1", "m1", "m10", "m2", "m3"]);
    let keys: Vec<u8> = list.iter().map(|entry| entry.1.pub_key[0]).collect();
    assert_eq!(keys, vec![7, 0, 11, 10, 2, 3]);
    assert!(!list[2].1.status);
    assert_eq!(list[2].1.address, "m1");
    assert!(!reg.has_active_signer(&vec![1]));
    assert!(!reg.has_active_signer(&vec![11]));
    assert!(reg.has_active_signer(&vec![10]));
}

#[test]
fn table_positions_ascend_by_key() {
    let mut t: Table<String, u8> = Table::new();
    for (i, key) in ["b", "a", "c", "a", "ab", "b"].iter().enumerate() {
        t.set(key.to_string(), i as u8);
    }
    assert_eq!(t.ascending(), vec![3, 4, 5, 2]);
}

#[test]
fn admit_proof_decodes_and_checks_before_the_verifier() {
    let reg = registry_with_manager();
    let t = "t".to_string();
    let key = b64(&unhex(KEY_HEX));
    let sig = b64(&unhex(SIG_HEX));
    assert_eq!(admit_proof(&reg, 5, &t, &key, 10, &sig), Ok((unhex(KEY_HEX), unhex(SIG_HEX))));
    assert_eq!(admit_proof(&reg, 11, &t, &key, 10, &sig), Err(ContractError::ProofExpired {}));
    assert!(matches!(
        admit_proof(&reg, 11, &t, "%", 10, &sig),
        Err(ContractError::StdError(_))
    ));
    assert_eq!(
        admit_proof(&reg, 5, &t, "AQID", 10, &sig),
        Err(ContractError::InvalidSigner {})
    );
}

#[test]
fn transfer_to_decoded_takes_the_fees_from_any_amount() {
    let ok = |amount: u128| {
        transfer_to_decoded(
            Some("agoric".to_string()),
            &config(),
            1_000_000_000_000,
            "contract",
            "receiver",
            "uusdc",
            amount,
        )
    };
    assert_eq!(ok(5000).unwrap().token, Some(create_coin("uusdc", 3000)));
    assert_eq!(ok(2000).unwrap().token, Some(create_coin("uusdc", 0)));
    assert_eq!(ok(u128::MAX).unwrap().token, Some(create_coin("uusdc", u128::MAX - 2000)));
    assert_eq!(ok(5000).unwrap().timeout_timestamp, 1_600_000_000_000);
    assert_eq!(ok(1500), Err(ContractError::ArithmeticError {}));
    assert_eq!(ok(0), Err(ContractError::ArithmeticError {}));
    assert_eq!(
        transfer_to_decoded(Some("cosmos".to_string()), &config(), 0, "c", "r", "uusdc", 5000),
        Err(ContractError::ExpectedAgoricAccount { receiver: "r".to_string() })
    );
    assert_eq!(
        transfer_to_decoded(None, &config(), 0, "c", "r", "uusdc", 5000),
        Err(ContractError::InvalidAccount { receiver: "r".to_string() })
    );
}
