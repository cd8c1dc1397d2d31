use raffle_engine::amount::Amount;
use raffle_engine::model::{FetchError, SolanaTX};
use raffle_engine::solscan_api::{
    assemble, is_safe_to_read, parse_solana_tx, status_refusal, transfer_fields, TransferFields,
    FRACTION_LIMIT,
};
use raffle_engine::text::{flag_enabled, holds_digit_run, parse_i64, selects_all};

const ANSWER: &str = r#"{
  "blockTime": 1650000100,
  "slot": 130000000,
  "txHash": "5VERv8NMvzbJMEkV8xnrLkEaWRtSz9CosKDYjCJjBRnbJLgp8uirBgmQpjKhoR4tjF3ZpRzrFmBV6UjKdiSZkQUW",
  "fee": 5000,
  "status": "Success",
  "tokenTransfers": [
    {
      "source_owner": "payer-address",
      "destination_owner": "9xQeWvG816bUx9EPjHmaT23yvVM2ZWbrrpZb9PusVFin",
      "amount": "50000000",
      "token": {
        "address": "EPjFWdd5AufqSSqeM2qN1xzybapC8G4wEGGkZwyTDt1v",
        "symbol": "USDC",
        "decimals": 6
      }
    },
    {
      "source_owner": "someone",
      "destination_owner": "someone-else",
      "amount": "1",
      "token": { "address": "x", "symbol": "SOL", "decimals": 9 }
    }
  ]
}"#;

fn fields() -> TransferFields {
    TransferFields {
        tx_hash: "hash".to_string(),
        block_time: "1650000100".to_string(),
        source_owner: "from".to_string(),
        destination_owner: "to".to_string(),
        token_address: "mint".to_string(),
        token_symbol: "USDC".to_string(),
        amount: "50000000".to_string(),
        decimals: "6".to_string(),
        status: "Success".to_string(),
    }
}

#[test]
fn answer_is_read_into_a_transaction() {
    let expected = SolanaTX {
        tx_signature:
            "5VERv8NMvzbJMEkV8xnrLkEaWRtSz9CosKDYjCJjBRnbJLgp8uirBgmQpjKhoR4tjF3ZpRzrFmBV6UjKdiSZkQUW"
                .to_string(),
        block_time: 1_650_000_100,
        source_owner: "payer-address".to_string(),
        destination_owner: "9xQeWvG816bUx9EPjHmaT23yvVM2ZWbrrpZb9PusVFin".to_string(),
        token_address: "EPjFWdd5AufqSSqeM2qN1xzybapC8G4wEGGkZwyTDt1v".to_string(),
        token_symbol: "USDC".to_string(),
        amount: Amount { units: 50_000_000, decimals: 6 },
        status: "Success".to_string(),
    };
    assert_eq!(parse_solana_tx(ANSWER), Ok(expected));
}

#[test]
fn fields_are_taken_from_their_members() {
    let found = transfer_fields(ANSWER).unwrap();
    assert_eq!(found.block_time, "1650000100");
    assert_eq!(found.source_owner, "payer-address");
    assert_eq!(found.amount, "50000000");
    assert_eq!(found.decimals, "6");
    assert_eq!(found.token_symbol, "USDC");
    assert_eq!(found.status, "Success");
}

#[test]
fn text_that_is_not_json_is_malformed() {
    assert_eq!(parse_solana_tx("<html>Too many requests</html>"), Err(FetchError::Malformed));
    assert_eq!(parse_solana_tx(""), Err(FetchError::Malformed));
    assert_eq!(parse_solana_tx("{\"blockTime\": 1"), Err(FetchError::Malformed));
    assert_eq!(transfer_fields("{\"blockTime\": 1"), None);
}

#[test]
fn answer_without_block_time_is_malformed() {
    assert_eq!(parse_solana_tx(r#"{"status":"Success"}"#), Err(FetchError::Malformed));
    assert_eq!(parse_solana_tx(r#"{"blockTime":"soon"}"#), Err(FetchError::Malformed));
    assert_eq!(parse_solana_tx("[]"), Err(FetchError::Malformed));
    assert_eq!(parse_solana_tx("null"), Err(FetchError::Malformed));
}

#[test]
fn missing_members_read_as_null_and_zero() {
    let tx = parse_solana_tx(r#"{"blockTime":"17","status":"Fail"}"#).unwrap();
    let expected = SolanaTX {
        tx_signature: "null".to_string(),
        block_time: 17,
        source_owner: "null".to_string(),
        destination_owner: "null".to_string(),
        token_address: "null".to_string(),
        token_symbol: "null".to_string(),
        amount: Amount { units: 0, decimals: 0 },
        status: "Fail".to_string(),
    };
    assert_eq!(tx, expected);
}

#[test]
fn amount_given_as_number_is_read_too() {
    let body = r#"{"blockTime":5,"tokenTransfers":[{"amount":1500,"token":{"decimals":"2"}}]}"#;
    let tx = parse_solana_tx(body).unwrap();
    assert_eq!(tx.amount, Amount { units: 1500, decimals: 2 });
    assert_eq!(tx.block_time, 5);
}

#[test]
fn assemble_wants_a_numeric_block_time() {
    let mut given = fields();
    given.block_time = "16.5".to_string();
    assert_eq!(assemble(given), Err(FetchError::Malformed));
    let mut given = fields();
    given.block_time = String::new();
    assert_eq!(assemble(given), Err(FetchError::Malformed));
    let mut given = fields();
    given.block_time = "-3".to_string();
    assert_eq!(assemble(given).unwrap().block_time, -3);
}

#[test]
fn assemble_takes_unreadable_amounts_as_zero() {
    let mut given = fields();
    given.amount = "a lot".to_string();
    given.decimals = "-1".to_string();
    assert_eq!(assemble(given).unwrap().amount, Amount { units: 0, decimals: 0 });
    let mut given = fields();
    given.amount = "9223372036854775808".to_string();
    given.decimals = "4294967296".to_string();
    assert_eq!(assemble(given).unwrap().amount, Amount { units: 0, decimals: 0 });
    let mut given = fields();
    given.amount = "9223372036854775807".to_string();
    given.decimals = "4294967295".to_string();
    assert_eq!(
        assemble(given).unwrap().amount,
        Amount { units: i64::MAX, decimals: u32::MAX }
    );
    let tx = assemble(fields()).unwrap();
    assert_eq!(tx.amount, Amount { units: 50_000_000, decimals: 6 });
    assert_eq!(tx.tx_signature, "hash");
    assert_eq!(tx.source_owner, "from");
    assert_eq!(tx.destination_owner, "to");
    assert_eq!(tx.token_address, "mint");
    assert_eq!(tx.token_symbol, "USDC");
    assert_eq!(tx.status, "Success");
}

#[test]
fn integers_are_read_as_the_standard_library_reads_them() {
    let cases = [
        "0", "7", "-7", "+7", "007", "-0", "+0", "", "-", "+", "--1", "+-1", "1-", " 1", "1 ",
        "1.0", "1e3", "0x10", "12a", "a12", "١٢", "1٢", "9223372036854775807",
        "9223372036854775808", "-9223372036854775808", "-9223372036854775809",
        "00000000000000000000000000000000042", "99999999999999999999999999", "1_000",
        "18446744073709551616", "-18446744073709551616", "92233720368547758070",
    ];
    for text in cases {
        assert_eq!(parse_i64(text), text.parse::<i64>().ok(), "for {:?}", text);
    }
    assert_eq!(parse_i64("-9223372036854775808"), Some(i64::MIN));
    assert_eq!(parse_i64("9223372036854775807"), Some(i64::MAX));
    assert_eq!(parse_i64("+15"), Some(15));
    assert_eq!(parse_i64("15 "), None);
}

#[test]
fn only_true_switches_a_flag_on() {
    assert!(flag_enabled(&"true".to_string()));
    for text in ["", "false", "True", "TRUE", "1", "yes", "true ", " true"] {
        assert!(!flag_enabled(&text.to_string()), "for {:?}", text);
    }
}

#[test]
fn only_zero_asks_for_all_records() {
    assert!(selects_all(&"0".to_string()));
    for text in ["", "00", "0 ", "all", "62b1c0f8e4b0a1a2b3c4d5e6", "000000000000000000000000"] {
        assert!(!selects_all(&text.to_string()), "for {:?}", text);
    }
}

#[test]
fn overlong_fraction_is_malformed_and_never_read() {
    // the reader counts the digits of a fraction in sixteen bits
    let zeros = "0".repeat(32_769);
    let number = format!("0.{}", zeros);
    assert!(!is_safe_to_read(&number));
    assert_eq!(parse_solana_tx(&number), Err(FetchError::Malformed));
    assert_eq!(transfer_fields(&number), None);
    let body = format!(r#"{{"blockTime":5,"status":"Success","fee":{}}}"#, number);
    assert_eq!(parse_solana_tx(&body), Err(FetchError::Malformed));
    let nested = format!(r#"{{"blockTime":5,"tokenTransfers":[{{"amount":{}}}]}}"#, number);
    assert_eq!(parse_solana_tx(&nested), Err(FetchError::Malformed));
    let in_a_string = format!(r#"{{"blockTime":5,"memo":"{}"}}"#, zeros);
    assert_eq!(parse_solana_tx(&in_a_string), Err(FetchError::Malformed));
}

#[test]
fn fraction_below_the_limit_is_read() {
    let number = format!("0.{}", "0".repeat(FRACTION_LIMIT - 1));
    assert!(is_safe_to_read(&number));
    let body = format!(r#"{{"blockTime":5,"status":"Success","fee":{}}}"#, number);
    let tx = parse_solana_tx(&body).unwrap();
    assert_eq!(tx.block_time, 5);
    assert_eq!(tx.status, "Success");
    // digits that a point or a letter parts make two runs
    let parted = format!("{}.{}", "1".repeat(20_000), "0".repeat(20_000));
    assert!(is_safe_to_read(&parted));
    let large = format!(r#"{{"blockTime":7,"log":"{}"}}"#, "ab1".repeat(40_000));
    assert_eq!(parse_solana_tx(&large).unwrap().block_time, 7);
}

#[test]
fn digit_runs_are_found_where_they_stand() {
    assert!(holds_digit_run("abc123def", 3));
    assert!(!holds_digit_run("abc123def", 4));
    assert!(holds_digit_run("12ab3456", 4));
    assert!(holds_digit_run("3456", 4));
    assert!(!holds_digit_run("345", 4));
    assert!(!holds_digit_run("12a34b56", 3));
    assert!(holds_digit_run("é12", 2));
    assert!(!holds_digit_run("١٢٣", 1));
    assert!(!holds_digit_run("", 1));
    assert!(holds_digit_run("", 0));
    assert!(holds_digit_run("no digits", 0));
    assert!(holds_digit_run("x7", 1));
}

#[test]
fn only_status_200_lets_the_lookup_pass() {
    assert_eq!(status_refusal(200), None);
    for status in [0, 199, 201, 204, 301, 404, 429, 500, u16::MAX] {
        assert_eq!(status_refusal(status), Some(FetchError::Status(status)));
    }
}
