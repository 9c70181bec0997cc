use token_scout::config::ScoutConfig;
use token_scout::ledger::{generate_key, ledger_deltas, net_balance, LedgerDelta};
use token_scout::transfer::{
    extract_transfers, token_id_to_u64, ExtractError, Transfer, TransferEvent,
};

fn holder(byte: u8) -> Vec<u8> {
    vec![byte; 20]
}

fn transfer(from: Vec<u8>, to: Vec<u8>, ordinal: u64) -> Transfer {
    Transfer { trx_hash: vec![0xab; 32], from, to, token_id: 7, ordinal }
}

fn key_of(byte: u8) -> String {
    format!("total:{}:bc4ca0eda7647a8ab7c2061c2e118a18a936f13d", format!("{:02x}", byte).repeat(20))
}

fn balance_of(deltas: &Vec<LedgerDelta>, key: &str) -> i128 {
    net_balance(deltas, &String::from(key))
}

#[test]
fn key_names_holder_and_contract() {
    let cfg = ScoutConfig::mainnet();
    assert_eq!(
        generate_key(&holder(0x1f), &cfg),
        "total:1f1f1f1f1f1f1f1f1f1f1f1f1f1f1f1f1f1f1f1f:bc4ca0eda7647a8ab7c2061c2e118a18a936f13d"
    );
    assert_eq!(generate_key(&holder(0x1f), &cfg), generate_key(&holder(0x1f), &cfg));
    assert_eq!(generate_key(&vec![], &cfg), "total::bc4ca0eda7647a8ab7c2061c2e118a18a936f13d");
}

#[test]
fn key_follows_the_configured_contract() {
    let mut cfg = ScoutConfig::mainnet();
    cfg.tracked_contract = vec![0xde, 0xad];
    assert_eq!(generate_key(&vec![0x01, 0xa0], &cfg), "total:01a0:dead");
}

#[test]
fn transfer_between_holders_makes_two_applications() {
    let cfg = ScoutConfig::mainnet();
    let deltas = ledger_deltas(&vec![transfer(holder(1), holder(2), 40)], &cfg);
    assert_eq!(
        deltas,
        vec![
            LedgerDelta { ordinal: 40, key: key_of(1), delta: -1 },
            LedgerDelta { ordinal: 40, key: key_of(2), delta: 1 },
        ]
    );
}

#[test]
fn mint_has_no_debit() {
    let cfg = ScoutConfig::mainnet();
    let deltas = ledger_deltas(&vec![transfer(holder(0), holder(2), 5)], &cfg);
    assert_eq!(deltas, vec![LedgerDelta { ordinal: 5, key: key_of(2), delta: 1 }]);
}

#[test]
fn burn_has_no_credit() {
    let cfg = ScoutConfig::mainnet();
    let deltas = ledger_deltas(&vec![transfer(holder(1), holder(0), 5)], &cfg);
    assert_eq!(deltas, vec![LedgerDelta { ordinal: 5, key: key_of(1), delta: -1 }]);
}

#[test]
fn null_to_null_applies_nothing() {
    let cfg = ScoutConfig::mainnet();
    assert_eq!(ledger_deltas(&vec![transfer(holder(0), holder(0), 5)], &cfg), vec![]);
    assert_eq!(ledger_deltas(&vec![], &cfg), vec![]);
}

#[test]
fn short_zero_address_is_a_holder() {
    let cfg = ScoutConfig::mainnet();
    let deltas = ledger_deltas(&vec![transfer(vec![0u8; 19], holder(0), 1)], &cfg);
    assert_eq!(deltas.len(), 1);
    assert_eq!(deltas[0].delta, -1);
}

#[test]
fn self_transfer_applies_twice_to_one_key() {
    let cfg = ScoutConfig::mainnet();
    let deltas = ledger_deltas(&vec![transfer(holder(3), holder(3), 9)], &cfg);
    assert_eq!(deltas.len(), 2);
    assert_eq!(deltas[0].key, deltas[1].key);
    assert_eq!(balance_of(&deltas, &key_of(3)), 0);
}

#[test]
fn balance_is_the_sum_in_any_order() {
    let cfg = ScoutConfig::mainnet();
    let transfers = vec![
        transfer(holder(0), holder(1), 1),
        transfer(holder(0), holder(1), 2),
        transfer(holder(1), holder(2), 3),
        transfer(holder(0), holder(2), 4),
    ];
    let mut deltas = ledger_deltas(&transfers, &cfg);
    assert_eq!(deltas.iter().map(|d| d.ordinal).collect::<Vec<u64>>(), vec![1, 2, 3, 3, 4]);
    assert_eq!(balance_of(&deltas, &key_of(1)), 1);
    assert_eq!(balance_of(&deltas, &key_of(2)), 2);
    deltas.reverse();
    assert_eq!(balance_of(&deltas, &key_of(1)), 1);
    assert_eq!(balance_of(&deltas, &key_of(2)), 2);
    deltas.swap(0, 3);
    assert_eq!(balance_of(&deltas, &key_of(1)), 1);
    assert_eq!(balance_of(&deltas, &key_of(2)), 2);
}

fn event(token_id: Vec<u8>, block_index: u32) -> TransferEvent {
    TransferEvent { trx_hash: vec![0xcd; 32], from: holder(1), to: holder(2), token_id, block_index }
}

#[test]
fn transfers_copy_the_events() {
    let mut id = vec![0u8; 32];
    id[30] = 0x23;
    id[31] = 0x28;
    let transfers = extract_transfers(&vec![event(id, 17), event(vec![5], 18)]);
    assert_eq!(
        transfers,
        Ok(vec![
            Transfer {
                trx_hash: vec![0xcd; 32],
                from: holder(1),
                to: holder(2),
                token_id: 9000,
                ordinal: 17
            },
            Transfer {
                trx_hash: vec![0xcd; 32],
                from: holder(1),
                to: holder(2),
                token_id: 5,
                ordinal: 18
            },
        ])
    );
    assert_eq!(extract_transfers(&vec![]), Ok(vec![]));
}

#[test]
fn ordinal_is_widened_from_the_log_index() {
    let transfers = extract_transfers(&vec![event(vec![], u32::MAX)]).unwrap();
    assert_eq!(transfers[0].ordinal, 4294967295u64);
    assert_eq!(transfers[0].token_id, 0);
}

#[test]
fn token_id_at_the_64_bit_limit() {
    let mut largest = vec![0u8; 24];
    largest.extend_from_slice(&[0xff; 8]);
    assert_eq!(token_id_to_u64(&largest), Some(u64::MAX));
    let mut below = vec![0u8; 24];
    below.extend_from_slice(&[0xff, 0xff, 0xff, 0xff, 0xff, 0xff, 0xff, 0xfe]);
    assert_eq!(token_id_to_u64(&below), Some(u64::MAX - 1));
    let mut above = vec![0u8; 23];
    above.push(1);
    above.extend_from_slice(&[0; 8]);
    assert_eq!(token_id_to_u64(&above), None);
    assert_eq!(token_id_to_u64(&vec![0x01, 0x02]), Some(258));
}

#[test]
fn too_large_token_id_stops_the_extraction() {
    let mut above = vec![0u8; 23];
    above.push(1);
    above.extend_from_slice(&[0; 8]);
    assert_eq!(
        extract_transfers(&vec![event(vec![1], 0), event(above.clone(), 1), event(above, 2)]),
        Err(ExtractError::TokenIdTooLarge { index: 1 })
    );
}

#[test]
fn balance_of_an_unknown_key_is_zero() {
    let cfg = ScoutConfig::mainnet();
    let deltas = ledger_deltas(&vec![transfer(holder(1), holder(2), 40)], &cfg);
    assert_eq!(net_balance(&deltas, &String::from("total:none")), 0);
    assert_eq!(net_balance(&vec![], &key_of(1)), 0);
    assert_eq!(net_balance(&deltas, &key_of(1)), -1);
    assert_eq!(net_balance(&deltas, &key_of(2)), 1);
}

#[test]
fn balance_adds_every_delta_of_the_key() {
    let deltas = vec![
        LedgerDelta { ordinal: 1, key: String::from("a"), delta: i64::MAX },
        LedgerDelta { ordinal: 2, key: String::from("b"), delta: -5 },
        LedgerDelta { ordinal: 3, key: String::from("a"), delta: i64::MAX },
        LedgerDelta { ordinal: 4, key: String::from("a"), delta: -3 },
    ];
    assert_eq!(net_balance(&deltas, &String::from("a")), 2 * (i64::MAX as i128) - 3);
    assert_eq!(net_balance(&deltas, &String::from("b")), -5);
}
