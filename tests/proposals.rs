use asset_custody::bridge::{withdraw_args, BridgeConfig};
use asset_custody::ledger::{AssetCustodyContract, AuthContext};
use asset_custody::proposal::{CreateReq, ExecuteError, ProposalStatus, ProposalStore, SignReq};

fn request(destination: &str, amount: &str) -> CreateReq {
    CreateReq {
        proposer: "A".to_string(),
        destination: destination.to_string(),
        asset_code: "XLM".to_string(),
        amount: amount.to_string(),
        xdr_unsigned: None,
    }
}

fn sign(sig: &str) -> SignReq {
    SignReq { key: "k".to_string(), signature: sig.to_string() }
}

#[test]
fn submitted_proposal_is_listed_once_and_pending() {
    let mut store = ProposalStore::new();
    let first = store.submit(request("O", "1")).unwrap();
    let id = store.submit(request("P", "2")).unwrap();
    assert_ne!(first, id);
    let list = store.list();
    assert_eq!(list.len(), 2);
    let hits: Vec<_> = list.iter().filter(|p| p.id == id).collect();
    assert_eq!(hits.len(), 1);
    assert_eq!(hits[0].status, ProposalStatus::Pending);
    assert!(hits[0].signatures.is_empty());
    assert_eq!(hits[0].destination, "P");
    assert_eq!(list[0].id, first);
    assert_eq!(id.len(), 36);
}

#[test]
fn taken_identifier_is_refused() {
    let mut store = ProposalStore::new();
    assert!(store.submit_with_id("p1".to_string(), request("O", "1")));
    assert!(!store.submit_with_id("p1".to_string(), request("Q", "9")));
    let list = store.list();
    assert_eq!(list.len(), 1);
    assert_eq!(list[0].destination, "O");
}

#[test]
fn same_signature_twice_counts_once() {
    let mut store = ProposalStore::new();
    let id = store.submit(request("O", "1")).unwrap();
    let p = store.approve(&id, &sign("s1")).unwrap();
    assert_eq!(p.signatures.len(), 1);
    let p = store.approve(&id, &sign("s1")).unwrap();
    assert_eq!(p.signatures.len(), 1);
    assert_eq!(p.status, ProposalStatus::Pending);
}

#[test]
fn two_distinct_signatures_make_ready() {
    let mut store = ProposalStore::new();
    let id = store.submit(request("O", "1")).unwrap();
    let p = store.approve(&id, &sign("s1")).unwrap();
    assert_eq!(p.status, ProposalStatus::Pending);
    let p = store.approve(&id, &sign("s2")).unwrap();
    assert_eq!(p.status, ProposalStatus::ReadyToSubmit);
    assert_eq!(p.signatures, vec!["s1".to_string(), "s2".to_string()]);
    assert_eq!(store.list()[0].status, ProposalStatus::ReadyToSubmit);
}

#[test]
fn unknown_identifier_is_absent() {
    let mut store = ProposalStore::new();
    store.submit(request("O", "1")).unwrap();
    assert!(store.approve(&"missing".to_string(), &sign("s1")).is_none());
    assert_eq!(store.execute(&"missing".to_string()).err(), Some(ExecuteError::NotFound));
    assert!(store.list()[0].signatures.is_empty());
}

#[test]
fn execute_requires_ready_status() {
    let mut store = ProposalStore::new();
    let id = store.submit(request("O", "40")).unwrap();
    assert_eq!(store.execute(&id).err(), Some(ExecuteError::NotReady));
    store.approve(&id, &sign("s1")).unwrap();
    assert_eq!(store.execute(&id).err(), Some(ExecuteError::NotReady));
    store.approve(&id, &sign("s2")).unwrap();
    store.approve(&id, &sign("s3")).unwrap();
    let inv = store.execute(&id).unwrap();
    assert_eq!(inv.owner, "O");
    assert_eq!(inv.amount, "40");
    assert_eq!(inv.signatures_count, 3);
    let again = store.execute(&id).unwrap();
    assert_eq!(again.signatures_count, 3);
}

#[test]
fn approved_withdrawal_reaches_ledger() {
    let owner = "O".to_string();
    let auth = AuthContext { authorized: vec![owner.clone()] };
    let mut ledger = AssetCustodyContract::new();
    assert_eq!(ledger.create_custody_account(&auth, &owner, 2, false), Ok(true));
    assert_eq!(ledger.deposit_assets(&auth, &owner, 100), Ok(true));

    let mut store = ProposalStore::new();
    let id = store.submit(request("O", "40")).unwrap();
    assert_eq!(store.approve(&id, &sign("s1")).unwrap().status, ProposalStatus::Pending);
    assert_eq!(store.approve(&id, &sign("s2")).unwrap().status, ProposalStatus::ReadyToSubmit);
    let inv = store.execute(&id).unwrap();
    assert_eq!(inv.owner, "O");
    assert_eq!(inv.amount, "40");
    assert_eq!(inv.signatures_count, 2);

    let cfg = BridgeConfig {
        contract_id: "C1".to_string(),
        source_account: "S".to_string(),
        rpc_url: "http://rpc".to_string(),
        network_passphrase: "net".to_string(),
    };
    let args = withdraw_args(&cfg, &inv).unwrap();
    assert_eq!(
        args[13..].to_vec(),
        vec!["withdraw_assets", "--owner", "O", "--amount", "40", "--signatures_count", "2"]
    );

    let amount: i128 = inv.amount.parse().unwrap();
    assert_eq!(ledger.withdraw_assets(&auth, &inv.owner, amount, inv.signatures_count as u32), Ok(true));
    assert_eq!(ledger.view_custody_account(&owner).balance, 60);
}

#[test]
fn submit_to_empty_store_keeps_amount_as_written() {
    let mut store = ProposalStore::new();
    let id = store.submit(request("O", "abc")).unwrap();
    let list = store.list();
    assert_eq!(list.len(), 1);
    assert_eq!(list[0].id, id);
    assert_eq!(list[0].amount, "abc");
    assert_eq!(list[0].proposer, "A");
    assert_eq!(list[0].asset_code, "XLM");
    assert!(list[0].xdr_unsigned.is_none());
}
