use lightning_cluster::api::StatusResponse;
use lightning_cluster::cluster::{
    Cluster, ClusterAddInvoice, ClusterError, ClusterInvoiceState, ClusterLookupInvoice, LookupPlan, Node, NodeClient,
    NodeLightningImpl, NodeNetwork, UtxoSlot,
};
use lightning_cluster::lnd::{
    AddInvoiceResponse, InvoiceState, ListUnspentResponse, LndClient, LookupInvoiceResponse, NewAddressResponse, Outpoint,
    Utxo,
};

const HASH_BASE64: &str = "AAECAwQFBgcICQoLDA0ODxAREhMUFRYXGBkaGxwdHh8=";
const HASH_HEX: &str = "000102030405060708090a0b0c0d0e0f101112131415161718191a1b1c1d1e1f";
const PREIMAGE_BASE64: &str = "3q2+796tvu/erb7v3q2+796tvu/erb7v3q2+796tvu8=";
const PREIMAGE_HEX: &str = "deadbeefdeadbeefdeadbeefdeadbeefdeadbeefdeadbeefdeadbeefdeadbeef";

fn lnd_node(pubkey: &str) -> Node {
    Node::new(
        pubkey.to_string(),
        "127.0.0.1".to_string(),
        "10009".to_string(),
        NodeNetwork::Testnet,
        NodeLightningImpl::Lnd,
        NodeClient::Lnd(LndClient::new(
            format!("https://{}.example", pubkey),
            "tls.cert".to_string(),
            "admin.macaroon".to_string(),
        )),
    )
}

fn eclair_node(pubkey: &str) -> Node {
    Node::new(
        pubkey.to_string(),
        "127.0.0.1".to_string(),
        "8080".to_string(),
        NodeNetwork::Mainnet,
        NodeLightningImpl::Eclair,
        NodeClient::Eclair,
    )
}

fn two_node_cluster() -> Cluster {
    Cluster::new(vec![lnd_node("A"), lnd_node("B")], 60, 30, 20)
}

fn invoice_answer(r_hash: &str, r_preimage: &str) -> LookupInvoiceResponse {
    LookupInvoiceResponse {
        memo: "test".to_string(),
        r_preimage: r_preimage.to_string(),
        r_hash: r_hash.to_string(),
        value: "1000".to_string(),
        settle_date: "0".to_string(),
        payment_request: "lntb10u1example".to_string(),
        description_hash: String::new(),
        expiry: "1000".to_string(),
        amt_paid_sat: "0".to_string(),
        state: InvoiceState::Open,
    }
}

fn utxo(address: &str, amount: &str) -> Utxo {
    Utxo {
        address: address.to_string(),
        amount_sat: amount.to_string(),
        confirmations: "3".to_string(),
        outpoint: Outpoint { txid_bytes: String::new(), txid_str: String::new(), output_index: 0 },
        pk_script: String::new(),
    }
}

fn ask_targets(plan: &LookupPlan) -> (String, Vec<usize>, bool) {
    match plan {
        LookupPlan::Ask(q) => (q.key.clone(), q.targets.clone(), q.broadcast),
        LookupPlan::Cached(_) => panic!("expected the nodes to be asked"),
    }
}

fn cached_invoice(plan: LookupPlan) -> ClusterLookupInvoice {
    match plan {
        LookupPlan::Cached(inv) => inv,
        LookupPlan::Ask(_) => panic!("expected a cached invoice"),
    }
}

#[test]
fn unresolved_lookup_takes_the_owner_answer() {
    let mut cluster = two_node_cluster();
    let plan = cluster.lookup_invoice(HASH_HEX, None, 1000).unwrap();
    let (key, targets, broadcast) = ask_targets(&plan);
    assert_eq!(key, HASH_HEX);
    assert_eq!(targets, vec![0, 1]);
    assert!(broadcast);
    let answers = vec![Ok(invoice_answer(HASH_BASE64, PREIMAGE_BASE64)), Err(ClusterError::UpstreamRequestFailed)];
    let inv = cluster.complete_lookup_invoice(plan, answers, 1000).unwrap();
    assert_eq!(inv.pubkey, "A");
    assert_eq!(inv.r_hash, HASH_HEX);
    assert_eq!(inv.r_preimage, PREIMAGE_HEX);
    assert_eq!(inv.memo, "test");
    assert_eq!(inv.state, ClusterInvoiceState::Open);
    let again = cached_invoice(cluster.lookup_invoice(HASH_HEX, None, 1001).unwrap());
    assert_eq!(again.r_hash, HASH_HEX);
    assert_eq!(again.pubkey, "A");
}

#[test]
fn second_lookup_is_served_from_cache_until_expiry() {
    let mut cluster = two_node_cluster();
    let plan = cluster.lookup_invoice(HASH_BASE64, None, 0).unwrap();
    let answers = vec![Err(ClusterError::UpstreamRequestFailed), Ok(invoice_answer(HASH_HEX, PREIMAGE_HEX))];
    let first = cluster.complete_lookup_invoice(plan, answers, 0).unwrap();
    assert_eq!(first.pubkey, "B");
    let second = cached_invoice(cluster.lookup_invoice(HASH_HEX, Some("B".to_string()), 59).unwrap());
    assert_eq!(second.r_hash, first.r_hash);
    assert_eq!(second.r_preimage, first.r_preimage);
    assert_eq!(second.pubkey, first.pubkey);
    assert_eq!(second.memo, first.memo);
    let completed = cluster.complete_lookup_invoice(LookupPlan::Cached(second), vec![], 59).unwrap();
    assert_eq!(completed.r_hash, HASH_HEX);
    let expired = cluster.lookup_invoice(HASH_HEX, None, 60).unwrap();
    assert!(matches!(expired, LookupPlan::Ask(_)));
}

#[test]
fn lookup_where_every_node_fails_is_not_cached() {
    let mut cluster = two_node_cluster();
    let plan = cluster.lookup_invoice(HASH_HEX, None, 0).unwrap();
    let answers = vec![Err(ClusterError::UpstreamRequestFailed), Err(ClusterError::UpstreamRequestFailed)];
    assert_eq!(cluster.complete_lookup_invoice(plan, answers, 0).unwrap_err(), ClusterError::AllNodesFailed);
    let retry = cluster.lookup_invoice(HASH_HEX, None, 1).unwrap();
    assert!(matches!(retry, LookupPlan::Ask(_)));
    let answers = vec![Ok(invoice_answer(HASH_BASE64, PREIMAGE_BASE64)), Err(ClusterError::UpstreamRequestFailed)];
    let inv = cluster.complete_lookup_invoice(retry, answers, 1).unwrap();
    assert_eq!(inv.r_hash, HASH_HEX);
}

#[test]
fn missing_answers_count_as_failures() {
    let mut cluster = two_node_cluster();
    let plan = cluster.lookup_invoice(HASH_HEX, None, 0).unwrap();
    assert_eq!(cluster.complete_lookup_invoice(plan, vec![], 0).unwrap_err(), ClusterError::AllNodesFailed);
}

#[test]
fn first_success_in_node_order_wins() {
    let mut cluster = two_node_cluster();
    let plan = cluster.lookup_invoice(HASH_HEX, None, 0).unwrap();
    let answers = vec![Ok(invoice_answer(HASH_HEX, PREIMAGE_HEX)), Ok(invoice_answer(HASH_BASE64, PREIMAGE_BASE64))];
    let inv = cluster.complete_lookup_invoice(plan, answers, 0).unwrap();
    assert_eq!(inv.pubkey, "A");
}

#[test]
fn lookup_with_owner_asks_only_the_owner() {
    let mut cluster = two_node_cluster();
    let plan = cluster.lookup_invoice(HASH_HEX, Some("B".to_string()), 0).unwrap();
    let (_, targets, broadcast) = ask_targets(&plan);
    assert_eq!(targets, vec![1]);
    assert!(!broadcast);
    let err = cluster.complete_lookup_invoice(plan, vec![Err(ClusterError::UpstreamRequestFailed)], 0).unwrap_err();
    assert_eq!(err, ClusterError::UpstreamRequestFailed);
}

#[test]
fn lookup_with_bad_encoding_fails() {
    let mut cluster = two_node_cluster();
    assert_eq!(cluster.lookup_invoice("not a hash!", None, 0).unwrap_err(), ClusterError::EncodingError);
    let plan = cluster.lookup_invoice(HASH_HEX, None, 0).unwrap();
    let answers = vec![Ok(invoice_answer("%%%", PREIMAGE_HEX)), Err(ClusterError::UpstreamRequestFailed)];
    assert_eq!(cluster.complete_lookup_invoice(plan, answers, 0).unwrap_err(), ClusterError::AllNodesFailed);
    let plan = cluster.lookup_invoice(HASH_HEX, Some("A".to_string()), 0).unwrap();
    let answers = vec![Ok(invoice_answer(HASH_HEX, "%%%"))];
    assert_eq!(cluster.complete_lookup_invoice(plan, answers, 0).unwrap_err(), ClusterError::EncodingError);
}

#[test]
fn unknown_pubkey_is_refused_everywhere() {
    let cluster = two_node_cluster();
    let missing = Some("Z".to_string());
    assert_eq!(cluster.lookup_invoice(HASH_HEX, missing.clone(), 0).unwrap_err(), ClusterError::NodeNotFound);
    let req = ClusterAddInvoice { pubkey: None, memo: "test".to_string(), value: 1000, expiry: 1000 };
    assert_eq!(cluster.add_invoice(req, missing.clone()).unwrap_err(), ClusterError::NodeNotFound);
    assert_eq!(cluster.next_address(missing.clone()).unwrap_err(), ClusterError::NodeNotFound);
    assert_eq!(cluster.list_utxos(missing.clone(), 0).unwrap_err(), ClusterError::NodeNotFound);
}

#[test]
fn pay_invoice_with_unknown_pubkey_asks_no_node() {
    let cluster = two_node_cluster();
    let r = cluster.pay_invoice(1000, "lntb10u1example".to_string(), 100, Some("Z".to_string()));
    assert_eq!(r.unwrap_err(), ClusterError::NodeNotFound);
}

#[test]
fn pay_invoice_dispatch() {
    let cluster = two_node_cluster();
    let (target, body) = cluster.pay_invoice(1000, "lntb10u1example".to_string(), 100, Some("B".to_string())).unwrap();
    assert_eq!(target.node, 1);
    assert_eq!(target.client.host, "https://B.example");
    assert_eq!(body.payment_request, "lntb10u1example");
    assert_eq!(body.amt, "1000");
    assert_eq!(body.fee_limit.fixed, "100");
    assert!(!body.allow_self_payment);
    let (target, _) = cluster.pay_invoice(1, "x".to_string(), 0, None).unwrap();
    assert!(target.node < 2);
}

#[test]
fn selection_by_pick() {
    let cluster = two_node_cluster();
    assert_eq!(cluster.target(&None, 1).unwrap().node, 1);
    assert_eq!(cluster.target(&None, 2).unwrap_err(), ClusterError::NodeNotFound);
    assert_eq!(cluster.target(&Some("A".to_string()), 1).unwrap().node, 0);
    let empty = Cluster::new(vec![], 1, 1, 1);
    assert_eq!(empty.choose_target(&None).unwrap_err(), ClusterError::NodeNotFound);
}

#[test]
fn unsupported_node_is_refused_without_abort() {
    let cluster = Cluster::new(vec![eclair_node("E")], 60, 60, 60);
    assert_eq!(cluster.target(&None, 0).unwrap_err(), ClusterError::UnsupportedImplementation);
    assert_eq!(cluster.next_address(Some("E".to_string())).unwrap_err(), ClusterError::UnsupportedImplementation);
    let node = eclair_node("E");
    assert_eq!(node.lnd_client().unwrap_err(), ClusterError::UnsupportedImplementation);
    let r = node.lookup_invoice(Ok(invoice_answer(HASH_HEX, PREIMAGE_HEX)));
    assert_eq!(r.unwrap_err(), ClusterError::UnsupportedImplementation);
}

#[test]
fn add_invoice_dispatch_and_canonical_answer() {
    let cluster = two_node_cluster();
    let req = ClusterAddInvoice { pubkey: None, memo: "test".to_string(), value: 1000, expiry: 1000 };
    let (target, body) = cluster.add_invoice(req, Some("A".to_string())).unwrap();
    assert_eq!(target.node, 0);
    assert_eq!(body.memo, "test");
    assert_eq!(body.value, 1000);
    assert_eq!(body.expiry, 1000);
    let answer = AddInvoiceResponse {
        r_hash: HASH_BASE64.to_string(),
        payment_request: "lntb10u1example".to_string(),
        add_index: "7".to_string(),
        payment_addr: PREIMAGE_BASE64.to_string(),
    };
    let added = cluster.nodes[target.node].add_invoice(Ok(answer)).unwrap();
    assert_eq!(added.r_hash.len(), 64);
    assert_eq!(added.payment_addr.len(), 64);
    assert_eq!(added.r_hash, HASH_HEX);
    assert_eq!(added.payment_addr, PREIMAGE_HEX);
    assert_eq!(added.add_index, "7");
}

#[test]
fn next_address_records_its_owner() {
    let mut cluster = two_node_cluster();
    let target = cluster.next_address(Some("B".to_string())).unwrap();
    assert_eq!(target.node, 1);
    let answer = Ok(NewAddressResponse { address: "tb1qexample".to_string() });
    let addr = cluster.complete_next_address(target.node, answer, 10).unwrap();
    assert_eq!(addr, "tb1qexample");
    assert_eq!(cluster.cache.addresses.get(&addr, 39), Some(&"B".to_string()));
    assert_eq!(cluster.cache.addresses.get(&addr, 40), None);
    let failed = cluster.complete_next_address(0, Err(ClusterError::UpstreamRequestFailed), 10);
    assert_eq!(failed.unwrap_err(), ClusterError::UpstreamRequestFailed);
    assert_eq!(cluster.complete_next_address(5, Ok(NewAddressResponse { address: "x".to_string() }), 10).unwrap_err(), ClusterError::NodeNotFound);
}

#[test]
fn list_all_utxos_concatenates_and_caches() {
    let mut cluster = two_node_cluster();
    let mut warm = cluster.list_utxos(Some("A".to_string()), 0).unwrap();
    assert!(warm[0].utxos.is_none());
    let a_answer = ListUnspentResponse { utxos: vec![utxo("a1", "100"), utxo("a2", "200")] };
    cluster.fill_utxos(&mut warm[0], Ok(a_answer), 0).unwrap();

    let mut slots = cluster.list_utxos(None, 5).unwrap();
    assert_eq!(slots.len(), 2);
    assert_eq!(slots[0].utxos.as_ref().unwrap().utxos.len(), 2);
    assert!(slots[1].utxos.is_none());
    assert_eq!(Cluster::gather_utxos(&slots).unwrap_err(), ClusterError::UpstreamRequestFailed);
    let b_answer = ListUnspentResponse { utxos: vec![utxo("b1", "300")] };
    cluster.fill_utxos(&mut slots[1], Ok(b_answer), 5).unwrap();
    let all = Cluster::gather_utxos(&slots).unwrap();
    let addresses: Vec<&str> = all.utxos.iter().map(|u| u.address.as_str()).collect();
    assert_eq!(addresses, vec!["a1", "a2", "b1"]);
    assert_eq!(all.utxos[2].pubkey, "B");
    assert_eq!(all.utxos[2].amount, 300);
    assert_eq!(all.utxos[2].confirmations, 3);

    let later = cluster.list_utxos(None, 6).unwrap();
    assert!(later.iter().all(|s| s.utxos.is_some()));
    assert_eq!(Cluster::gather_utxos(&later).unwrap().utxos.len(), 3);
}

#[test]
fn failed_utxo_fetch_leaves_slot_and_cache() {
    let mut cluster = two_node_cluster();
    let mut slots = cluster.list_utxos(None, 0).unwrap();
    let err = cluster.fill_utxos(&mut slots[0], Err(ClusterError::UpstreamRequestFailed), 0).unwrap_err();
    assert_eq!(err, ClusterError::UpstreamRequestFailed);
    assert!(slots[0].utxos.is_none());
    let bad = ListUnspentResponse { utxos: vec![utxo("a1", "12x")] };
    assert_eq!(cluster.fill_utxos(&mut slots[0], Ok(bad), 0).unwrap_err(), ClusterError::EncodingError);
    assert!(cluster.list_utxos(None, 1).unwrap()[0].utxos.is_none());
    let mut stray = UtxoSlot { node: 9, utxos: None };
    let answer = ListUnspentResponse { utxos: vec![] };
    assert_eq!(cluster.fill_utxos(&mut stray, Ok(answer), 0).unwrap_err(), ClusterError::NodeNotFound);
}

#[test]
fn status_is_ok() {
    assert_eq!(StatusResponse::ok().status, "ok");
}

#[test]
fn network_names() {
    assert_eq!(NodeNetwork::Mainnet.to_string(), "mainnet");
    assert_eq!(NodeNetwork::Testnet.to_string(), "testnet");
}
