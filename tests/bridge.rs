use asset_custody::bridge::{
    build_tx_args, collaborator_output, invocation_args, native_balance, submit_args, withdraw_args,
    BalanceEntry, BridgeConfig, BridgeError,
};
use asset_custody::proposal::WithdrawInvocation;
use asset_custody::text::{decimal_text, trim_whitespace, unquote};

fn config(contract: &str, source: &str) -> BridgeConfig {
    BridgeConfig {
        contract_id: contract.to_string(),
        source_account: source.to_string(),
        rpc_url: "https://rpc.example".to_string(),
        network_passphrase: "Test Net".to_string(),
    }
}

fn strs(v: &[&str]) -> Vec<String> {
    v.iter().map(|s| s.to_string()).collect()
}

#[test]
fn build_command_layout() {
    let args = invocation_args(&config("CID", "SRC"), &"deposit_assets".to_string(), &strs(&["--amount", "5"])).unwrap();
    assert_eq!(
        args,
        strs(&[
            "contract", "invoke", "--id", "CID", "--source-account", "SRC", "--rpc-url",
            "https://rpc.example", "--network-passphrase", "Test Net", "--send=no", "--build-only", "--",
            "deposit_assets", "--amount", "5",
        ])
    );
}

#[test]
fn missing_config_is_refused() {
    let f = "f".to_string();
    assert_eq!(invocation_args(&config("", "SRC"), &f, &vec![]).err(), Some(BridgeError::MissingConfig));
    assert_eq!(invocation_args(&config("CID", ""), &f, &vec![]).err(), Some(BridgeError::MissingConfig));
    assert_eq!(build_tx_args(&config("", ""), &f, &vec![]).err(), Some(BridgeError::MissingConfig));
}

#[test]
fn json_values_lose_their_quotes() {
    let params = vec![
        ("owner".to_string(), "\"GABC\"".to_string()),
        ("amount".to_string(), "10".to_string()),
    ];
    let args = build_tx_args(&config("CID", "SRC"), &"deposit_assets".to_string(), &params).unwrap();
    assert_eq!(args[13..].to_vec(), strs(&["deposit_assets", "--owner", "GABC", "--amount", "10"]));
}

#[test]
fn unquote_cases() {
    assert_eq!(unquote(&"\"abc\"".to_string()), "abc");
    assert_eq!(unquote(&"\"\"x\"\"".to_string()), "x");
    assert_eq!(unquote(&"\"".to_string()), "");
    assert_eq!(unquote(&"\"abc".to_string()), "\"abc");
    assert_eq!(unquote(&"a\"b".to_string()), "a\"b");
    assert_eq!(unquote(&"".to_string()), "");
}

#[test]
fn trim_cases() {
    assert_eq!(trim_whitespace(&"  AAAA\n".to_string()), "AAAA");
    assert_eq!(trim_whitespace(&"\t\u{3000}x y\u{a0}".to_string()), "x y");
    assert_eq!(trim_whitespace(&"   ".to_string()), "");
    assert_eq!(collaborator_output(&"hash123\n".to_string()), "hash123");
}

#[test]
fn submit_command_layout() {
    let args = submit_args(&"https://rpc.example".to_string(), &" XDRBLOB \n".to_string());
    assert_eq!(args, strs(&["tx", "send", "--rpc-url", "https://rpc.example", "--xdr", "XDRBLOB"]));
}

#[test]
fn withdraw_count_in_decimal() {
    let inv = WithdrawInvocation { owner: "O".to_string(), amount: "7".to_string(), signatures_count: 12 };
    let args = withdraw_args(&config("CID", "SRC"), &inv).unwrap();
    assert_eq!(args[19], "12");
    assert_eq!(args.len(), 20);
}

#[test]
fn first_native_balance_is_taken() {
    let entry = |t: Option<&str>, b: Option<&str>| BalanceEntry {
        asset_type: t.map(|x| x.to_string()),
        balance: b.map(|x| x.to_string()),
    };
    let entries = vec![
        entry(Some("credit_alphanum4"), Some("1.0")),
        entry(Some("native"), None),
        entry(Some("native"), Some("99.5")),
        entry(Some("native"), Some("3.0")),
    ];
    assert_eq!(native_balance(&entries), Some("99.5".to_string()));
    assert_eq!(native_balance(&vec![entry(None, Some("1"))]), None);
    assert_eq!(native_balance(&vec![]), None);
}

#[test]
fn decimal_text_cases() {
    assert_eq!(decimal_text(0), "0");
    assert_eq!(decimal_text(7), "7");
    assert_eq!(decimal_text(10), "10");
    assert_eq!(decimal_text(4096), "4096");
    assert_eq!(decimal_text(usize::MAX), usize::MAX.to_string());
}
