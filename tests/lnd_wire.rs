use lightning_cluster::cluster::{ClusterAddInvoice, ClusterError, ClusterInvoiceState};
use lightning_cluster::lnd::{
    AddInvoiceLndRequest, InvoiceState, ListUnspentRequest, ListUnspentResponse, LndClient, LndSendPaymentSyncReq,
    LndSendPaymentSyncRes, Outpoint, Utxo,
};

fn client() -> LndClient {
    LndClient::new("https://node:8080".to_string(), "tls.cert".to_string(), "admin.macaroon".to_string())
}

fn utxo(amount: &str, confirmations: &str) -> Utxo {
    Utxo {
        address: "tb1q".to_string(),
        amount_sat: amount.to_string(),
        confirmations: confirmations.to_string(),
        outpoint: Outpoint { txid_bytes: String::new(), txid_str: String::new(), output_index: 1 },
        pk_script: String::new(),
    }
}

#[test]
fn endpoints() {
    let c = client();
    assert_eq!(c.new_address_url(), "https://node:8080/v1/newaddress");
    assert_eq!(c.invoices_url(), "https://node:8080/v1/invoices");
    assert_eq!(c.invoice_url("00ff"), "https://node:8080/v1/invoice/00ff");
    assert_eq!(c.payments_url(), "https://node:8080/v1/channels/transactions");
    assert_eq!(c.utxos_url(), "https://node:8080/v2/wallet/utxos");
    assert_eq!(LndClient::macaroon_header(&vec![0x02, 0x01, 0xab]), "0201ab");
}

#[test]
fn request_bodies() {
    let req = ClusterAddInvoice { pubkey: None, memo: "m".to_string(), value: 1000, expiry: 3600 };
    let body = AddInvoiceLndRequest::from_cluster(req);
    assert_eq!((body.memo.as_str(), body.value, body.expiry), ("m", 1000, 3600));
    let list = ListUnspentRequest::default();
    assert_eq!((list.min_confs, list.max_confs), (0, 500));
    assert!(list.account.is_none() && list.unconfirmed_only.is_none());
    let pay = LndSendPaymentSyncReq::new("lnbc1".to_string(), 250000, 0);
    assert_eq!(pay.amt, "250000");
    assert_eq!(pay.fee_limit.fixed, "0");
}

#[test]
fn utxo_amounts_are_read() {
    let u = utxo("1500", "6").to_cluster("pk".to_string()).unwrap();
    assert_eq!((u.pubkey.as_str(), u.address.as_str(), u.amount, u.confirmations), ("pk", "tb1q", 1500, 6));
    assert_eq!(utxo("1.5", "6").to_cluster("pk".to_string()).unwrap_err(), ClusterError::EncodingError);
    assert_eq!(utxo("1", "").to_cluster("pk".to_string()).unwrap_err(), ClusterError::EncodingError);
}

#[test]
fn utxo_listing_keeps_order_or_fails_whole() {
    let list = ListUnspentResponse { utxos: vec![utxo("1", "0"), utxo("2", "1")] };
    let set = list.to_cluster("pk".to_string()).unwrap();
    assert_eq!(set.utxos.iter().map(|u| u.amount).collect::<Vec<_>>(), vec![1, 2]);
    let list = ListUnspentResponse { utxos: vec![utxo("1", "0"), utxo("-2", "1")] };
    assert_eq!(list.to_cluster("pk".to_string()).unwrap_err(), ClusterError::EncodingError);
    let empty = ListUnspentResponse { utxos: vec![] };
    assert!(empty.to_cluster("pk".to_string()).unwrap().utxos.is_empty());
}

#[test]
fn invoice_states_map_one_to_one() {
    assert_eq!(InvoiceState::Open.to_cluster(), ClusterInvoiceState::Open);
    assert_eq!(InvoiceState::Settled.to_cluster(), ClusterInvoiceState::Settled);
    assert_eq!(InvoiceState::Canceled.to_cluster(), ClusterInvoiceState::Canceled);
    assert_eq!(InvoiceState::Accepted.to_cluster(), ClusterInvoiceState::Accepted);
}

#[test]
fn payment_outcome_is_canonicalized() {
    let raw = LndSendPaymentSyncRes {
        payment_error: Some(String::new()),
        payment_preimage: Some("EjRW".to_string()),
        payment_route: None,
        payment_hash: Some("3q2+7w==".to_string()),
    };
    let res = raw.canonicalize().unwrap().to_cluster("pk".to_string());
    assert_eq!(res.pubkey, "pk");
    assert_eq!(res.payment_error, None);
    assert_eq!(res.payment_preimage, Some("123456".to_string()));
    assert_eq!(res.payment_hash, Some("deadbeef".to_string()));
}

#[test]
fn failed_payment_keeps_its_error() {
    let raw = LndSendPaymentSyncRes {
        payment_error: Some("no route".to_string()),
        payment_preimage: Some(String::new()),
        payment_route: None,
        payment_hash: None,
    };
    let res = raw.canonicalize().unwrap();
    assert_eq!(res.payment_error, Some("no route".to_string()));
    assert_eq!(res.payment_preimage, None);
    assert_eq!(res.payment_hash, None);
    let bad = LndSendPaymentSyncRes {
        payment_error: None,
        payment_preimage: None,
        payment_route: None,
        payment_hash: Some("***".to_string()),
    };
    assert_eq!(bad.canonicalize().unwrap_err(), ClusterError::EncodingError);
}
