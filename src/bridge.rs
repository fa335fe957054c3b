//! The bridge to the external transaction tool: the argument lists that ask
//! it to build an unsigned ledger invocation or to broadcast a signed one,
//! and the reading of what it hands back.
use vstd::prelude::*;
use crate::proposal::{strings_view, WithdrawInvocation};
use crate::text::{decimal, decimal_text, trim_whitespace, trimmed, unquote, unquoted};

verus! {

/// Where and as whom ledger invocations are built.
pub struct BridgeConfig {
    pub contract_id: String,
    pub source_account: String,
    pub rpc_url: String,
    pub network_passphrase: String,
}

/// Why no invocation could be prepared.
#[derive(PartialEq, Eq, Structural, Clone, Copy, Debug)]
pub enum BridgeError {
    /// The ledger address or the source identity is not configured.
    MissingConfig,
}

/// One entry of an account's balance list, as far as it could be read.
pub struct BalanceEntry {
    pub asset_type: Option<String>,
    pub balance: Option<String>,
}

pub open spec fn pairs_unquoted(params: Seq<(String, String)>, r: Seq<(String, String)>) -> bool {
    &&& r.len() == params.len()
    &&& forall|i: int| 0 <= i < params.len() ==> {
        &&& (#[trigger] r[i]).0@ == params[i].0@
        &&& r[i].1@ == unquoted(params[i].1@)
    }
}

/// Each named argument as a `--name` flag followed by its value.
pub open spec fn flag_args(params: Seq<(String, String)>) -> Seq<Seq<char>>
    decreases params.len(),
{
    if params.len() == 0 {
        Seq::empty()
    } else {
        flag_args(params.drop_last()) + seq![
            "--"@ + params.last().0@,
            params.last().1@,
        ]
    }
}

/// Each named argument as a `--name` flag followed by its value with the
/// JSON quotes removed.
pub open spec fn json_flag_args(params: Seq<(String, String)>) -> Seq<Seq<char>>
    decreases params.len(),
{
    if params.len() == 0 {
        Seq::empty()
    } else {
        json_flag_args(params.drop_last()) + seq![
            "--"@ + params.last().0@,
            unquoted(params.last().1@),
        ]
    }
}

proof fn lemma_flag_args_unquoted(params: Seq<(String, String)>, u: Seq<(String, String)>)
    requires
        pairs_unquoted(params, u),
    ensures
        flag_args(u) == json_flag_args(params),
    decreases params.len(),
{
    if params.len() > 0 {
        let (p0, u0) = (params.drop_last(), u.drop_last());
        assert forall|i: int| 0 <= i < p0.len() implies {
            &&& (#[trigger] u0[i]).0@ == p0[i].0@
            &&& u0[i].1@ == unquoted(p0[i].1@)
        } by {
            assert(u0[i] == u[i] && p0[i] == params[i]);
        }
        lemma_flag_args_unquoted(p0, u0);
        assert(u.last() == u[u.len() - 1]);
    }
}

/// The command line that builds, without sending, an invocation of
/// `fn_name` on the configured ledger.
pub open spec fn build_command(cfg: BridgeConfig, fn_name: Seq<char>, args: Seq<Seq<char>>) -> Seq<Seq<char>> {
    seq![
        "contract"@,
        "invoke"@,
        "--id"@,
        cfg.contract_id@,
        "--source-account"@,
        cfg.source_account@,
        "--rpc-url"@,
        cfg.rpc_url@,
        "--network-passphrase"@,
        cfg.network_passphrase@,
        "--send=no"@,
        "--build-only"@,
        "--"@,
        fn_name,
    ] + args
}

pub open spec fn config_complete(cfg: BridgeConfig) -> bool {
    cfg.contract_id@.len() > 0 && cfg.source_account@.len() > 0
}

pub open spec fn is_native(e: BalanceEntry) -> bool {
    &&& e.asset_type is Some
    &&& e.asset_type->Some_0@ == "native"@
    &&& e.balance is Some
}

/// Removes the JSON quotes around each value of a list of named arguments.
pub fn unquoted_params(params: &Vec<(String, String)>) -> (r: Vec<(String, String)>)
    ensures
        pairs_unquoted(params@, r@),
{
    let mut r: Vec<(String, String)> = Vec::new();
    let mut i: usize = 0;
    while i < params.len()
        invariant
            0 <= i <= params@.len(),
            pairs_unquoted(params@.subrange(0, i as int), r@),
        decreases params@.len() - i,
    {
        let name = params[i].0.clone();
        let value = unquote(&params[i].1);
        r.push((name, value));
        i += 1;
        assert forall|k: int| 0 <= k < i implies {
            &&& (#[trigger] r@[k]).0@ == params@.subrange(0, i as int)[k].0@
            &&& r@[k].1@ == unquoted(params@.subrange(0, i as int)[k].1@)
        } by {
            assert(params@.subrange(0, i as int)[k] == params@[k]);
            if k < i - 1 {
                assert(params@.subrange(0, i as int - 1)[k] == params@[k]);
            }
        }
    }
    assert(params@.subrange(0, i as int) =~= params@);
    r
}

/// The named arguments as `--name value` pairs, in order.
pub fn named_arguments(params: &Vec<(String, String)>) -> (r: Vec<String>)
    ensures
        strings_view(r@) == flag_args(params@),
{
    let mut r: Vec<String> = Vec::new();
    let mut i: usize = 0;
    while i < params.len()
        invariant
            0 <= i <= params@.len(),
            strings_view(r@) == flag_args(params@.subrange(0, i as int)),
        decreases params@.len() - i,
    {
        let ghost prev = r@;
        let mut flag = String::from_str("--");
        flag.append(params[i].0.as_str());
        r.push(flag);
        r.push(params[i].1.clone());
        assert(params@.subrange(0, i as int + 1).drop_last() =~= params@.subrange(0, i as int));
        i += 1;
        assert(strings_view(r@) =~= strings_view(prev) + seq![
            "--"@ + params@[i - 1].0@,
            params@[i - 1].1@,
        ]);
    }
    assert(params@.subrange(0, i as int) =~= params@);
    r
}

/// The command line that builds an unsigned invocation of `fn_name` with
/// the given arguments; refused when the ledger address or the source
/// identity is empty.
pub fn invocation_args(cfg: &BridgeConfig, fn_name: &String, args: &Vec<String>) -> (r: Result<Vec<String>, BridgeError>)
    ensures
        !config_complete(*cfg) ==> r == Err::<Vec<String>, BridgeError>(BridgeError::MissingConfig),
        config_complete(*cfg) ==> r is Ok && strings_view(r->Ok_0@) == build_command(*cfg, fn_name@, strings_view(args@)),
{
    if cfg.contract_id.as_str().is_empty() || cfg.source_account.as_str().is_empty() {
        return Err(BridgeError::MissingConfig);
    }
    let mut r: Vec<String> = Vec::new();
    r.push(String::from_str("contract"));
    r.push(String::from_str("invoke"));
    r.push(String::from_str("--id"));
    r.push(cfg.contract_id.clone());
    r.push(String::from_str("--source-account"));
    r.push(cfg.source_account.clone());
    r.push(String::from_str("--rpc-url"));
    r.push(cfg.rpc_url.clone());
    r.push(String::from_str("--network-passphrase"));
    r.push(cfg.network_passphrase.clone());
    r.push(String::from_str("--send=no"));
    r.push(String::from_str("--build-only"));
    r.push(String::from_str("--"));
    r.push(fn_name.clone());
    let ghost head = r@;
    assert(strings_view(head) =~= build_command(*cfg, fn_name@, Seq::empty()));
    let mut i: usize = 0;
    while i < args.len()
        invariant
            0 <= i <= args@.len(),
            r@ == head + args@.subrange(0, i as int),
        decreases args@.len() - i,
    {
        r.push(args[i].clone());
        i += 1;
        assert(r@ =~= head + args@.subrange(0, i as int));
    }
    assert(args@.subrange(0, i as int) =~= args@);
    assert(strings_view(r@) =~= build_command(*cfg, fn_name@, strings_view(args@)));
    Ok(r)
}

/// The command line for an arbitrary named operation whose argument values
/// arrive as JSON text.
pub fn build_tx_args(cfg: &BridgeConfig, function: &String, params: &Vec<(String, String)>) -> (r: Result<Vec<String>, BridgeError>)
    ensures
        !config_complete(*cfg) ==> r == Err::<Vec<String>, BridgeError>(BridgeError::MissingConfig),
        config_complete(*cfg) ==> r is Ok && strings_view(r->Ok_0@) == build_command(
            *cfg,
            function@,
            json_flag_args(params@),
        ),
{
    let u = unquoted_params(params);
    let args = named_arguments(&u);
    proof {
        lemma_flag_args_unquoted(params@, u@);
    }
    invocation_args(cfg, function, &args)
}

/// The named arguments of a ledger withdrawal.
pub fn withdraw_params(inv: &WithdrawInvocation) -> (r: Vec<(String, String)>)
    ensures
        r@.len() == 3,
        r@[0].0@ == "owner"@ && r@[0].1@ == inv.owner@,
        r@[1].0@ == "amount"@ && r@[1].1@ == inv.amount@,
        r@[2].0@ == "signatures_count"@ && r@[2].1@ == decimal(inv.signatures_count as nat),
{
    let mut r: Vec<(String, String)> = Vec::new();
    r.push((String::from_str("owner"), inv.owner.clone()));
    r.push((String::from_str("amount"), inv.amount.clone()));
    r.push((String::from_str("signatures_count"), decimal_text(inv.signatures_count)));
    r
}

/// The command line that builds the ledger withdrawal for an approved proposal.
pub fn withdraw_args(cfg: &BridgeConfig, inv: &WithdrawInvocation) -> (r: Result<Vec<String>, BridgeError>)
    ensures
        !config_complete(*cfg) ==> r == Err::<Vec<String>, BridgeError>(BridgeError::MissingConfig),
        config_complete(*cfg) ==> r is Ok && strings_view(r->Ok_0@) == build_command(
            *cfg,
            "withdraw_assets"@,
            seq![
                "--owner"@,
                inv.owner@,
                "--amount"@,
                inv.amount@,
                "--signatures_count"@,
                decimal(inv.signatures_count as nat),
            ],
        ),
{
    let params = withdraw_params(inv);
    let args = named_arguments(&params);
    proof {
        let p = params@;
        assert(p.drop_last().drop_last().drop_last() =~= Seq::<(String, String)>::empty());
        assert(p.drop_last().drop_last().last() == p[0]);
        assert(p.drop_last().last() == p[1]);
        assert(flag_args(p.drop_last().drop_last().drop_last()) =~= Seq::<Seq<char>>::empty());
        assert(flag_args(p.drop_last().drop_last()) =~= seq!["--"@ + "owner"@, inv.owner@]);
        assert(flag_args(p.drop_last()) =~= seq!["--"@ + "owner"@, inv.owner@, "--"@ + "amount"@, inv.amount@]);
        assert(flag_args(p) =~= seq![
            "--"@ + "owner"@,
            inv.owner@,
            "--"@ + "amount"@,
            inv.amount@,
            "--"@ + "signatures_count"@,
            decimal(inv.signatures_count as nat),
        ]);
        reveal_strlit("--");
        reveal_strlit("owner");
        reveal_strlit("--owner");
        reveal_strlit("amount");
        reveal_strlit("--amount");
        reveal_strlit("signatures_count");
        reveal_strlit("--signatures_count");
        assert("--"@ + "owner"@ =~= "--owner"@);
        assert("--"@ + "amount"@ =~= "--amount"@);
        assert("--"@ + "signatures_count"@ =~= "--signatures_count"@);
    }
    invocation_args(cfg, &String::from_str("withdraw_assets"), &args)
}

/// The command line that broadcasts a signed transaction; surrounding
/// whitespace is removed from the envelope.
pub fn submit_args(rpc_url: &String, signed_envelope: &String) -> (r: Vec<String>)
    ensures
        strings_view(r@) == seq![
            "tx"@,
            "send"@,
            "--rpc-url"@,
            rpc_url@,
            "--xdr"@,
            trimmed(signed_envelope@),
        ],
{
    let mut r: Vec<String> = Vec::new();
    r.push(String::from_str("tx"));
    r.push(String::from_str("send"));
    r.push(String::from_str("--rpc-url"));
    r.push(rpc_url.clone());
    r.push(String::from_str("--xdr"));
    r.push(trim_whitespace(signed_envelope));
    assert(strings_view(r@) =~= seq![
        "tx"@,
        "send"@,
        "--rpc-url"@,
        rpc_url@,
        "--xdr"@,
        trimmed(signed_envelope@),
    ]);
    r
}

/// What the tool printed, as handed back to the caller: the printed text
/// without surrounding whitespace.
pub fn collaborator_output(stdout: &String) -> (r: String)
    ensures
        r@ == trimmed(stdout@),
{
    trim_whitespace(stdout)
}

/// The balance of the first entry whose asset type is `native` and whose
/// balance could be read.
pub fn native_balance(entries: &Vec<BalanceEntry>) -> (r: Option<String>)
    ensures
        match r {
            Some(b) => exists|i: int|
                0 <= i < entries@.len() && is_native(#[trigger] entries@[i]) && b@ == entries@[i].balance->Some_0@
                    && forall|j: int| 0 <= j < i ==> !is_native(#[trigger] entries@[j]),
            None => forall|j: int| 0 <= j < entries@.len() ==> !is_native(#[trigger] entries@[j]),
        },
{
    let native = String::from_str("native");
    let mut i: usize = 0;
    while i < entries.len()
        invariant
            0 <= i <= entries@.len(),
            native@ == "native"@,
            forall|j: int| 0 <= j < i ==> !is_native(#[trigger] entries@[j]),
        decreases entries@.len() - i,
    {
        let e = &entries[i];
        match &e.asset_type {
            Some(t) => {
                if *t == native {
                    match &e.balance {
                        Some(b) => {
                            assert(is_native(entries@[i as int]));
                            return Some(b.clone());
                        },
                        None => {},
                    }
                }
            },
            None => {},
        }
        i += 1;
    }
    None
}

} // verus!
