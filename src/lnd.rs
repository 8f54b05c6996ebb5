//! The LND backend's REST dialect: where each call goes, what it is sent,
//! what it answers, and how an answer becomes the cluster's value.
use crate::cluster::{
    ClusterAddInvoice, ClusterError, ClusterInvoiceState, ClusterLookupInvoice, ClusterPayPaymentRequestRes,
    ClusterUtxo, ClusterUtxos, InvoiceView, UtxoView,
};
use crate::encoding::{canonical_hex_of, decimal, decimal_of, hex_of, hex_text, parse_u64, parsed_u64};
pub use crate::encoding::to_hex;
use vstd::prelude::*;

verus! {

/// Where an LND node's REST interface is, and the files that authenticate to it.
#[derive(Debug)]
pub struct LndClient {
    pub host: String,
    pub cert_path: String,
    pub macaroon_path: String,
}

impl Clone for LndClient {
    fn clone(&self) -> (r: Self)
        ensures
            r == *self,
    {
        LndClient {
            host: self.host.clone(),
            cert_path: self.cert_path.clone(),
            macaroon_path: self.macaroon_path.clone(),
        }
    }
}

impl LndClient {
    pub fn new(host: String, cert_path: String, macaroon_path: String) -> (r: LndClient)
        ensures
            r.host == host,
            r.cert_path == cert_path,
            r.macaroon_path == macaroon_path,
    {
        LndClient { host, cert_path, macaroon_path }
    }

    /// Endpoint that allocates a fresh receiving address (GET).
    pub fn new_address_url(&self) -> (r: String)
        ensures
            r@ == self.host@ + "/v1/newaddress"@,
    {
        self.host.clone().concat("/v1/newaddress")
    }

    /// Endpoint that creates an invoice (POST).
    pub fn invoices_url(&self) -> (r: String)
        ensures
            r@ == self.host@ + "/v1/invoices"@,
    {
        self.host.clone().concat("/v1/invoices")
    }

    /// Endpoint that answers the invoice with hash `r_hash` (GET).
    pub fn invoice_url(&self, r_hash: &str) -> (r: String)
        ensures
            r@ == self.host@ + "/v1/invoice/"@ + r_hash@,
    {
        self.host.clone().concat("/v1/invoice/").concat(r_hash)
    }

    /// Endpoint that pays a payment request and waits for the outcome (POST).
    pub fn payments_url(&self) -> (r: String)
        ensures
            r@ == self.host@ + "/v1/channels/transactions"@,
    {
        self.host.clone().concat("/v1/channels/transactions")
    }

    /// Endpoint that lists the wallet's unspent outputs (POST).
    pub fn utxos_url(&self) -> (r: String)
        ensures
            r@ == self.host@ + "/v2/wallet/utxos"@,
    {
        self.host.clone().concat("/v2/wallet/utxos")
    }

    /// Value of the header that carries the macaroon: its bytes in hexadecimal.
    pub fn macaroon_header(macaroon: &Vec<u8>) -> (r: String)
        ensures
            r@ == hex_of(macaroon@),
    {
        hex_text(macaroon)
    }
}

/// Answer to a request for a fresh address.
#[derive(Debug)]
pub struct NewAddressResponse {
    pub address: String,
}

/// Body of a request that creates an invoice.
#[derive(Debug)]
pub struct AddInvoiceLndRequest {
    pub memo: String,
    pub value: i64,
    pub expiry: i64,
}

impl AddInvoiceLndRequest {
    /// The body that creates the invoice the cluster was asked for.
    pub fn from_cluster(req: ClusterAddInvoice) -> (r: AddInvoiceLndRequest)
        ensures
            r.memo == req.memo,
            r.value == req.value,
            r.expiry == req.expiry,
    {
        AddInvoiceLndRequest { memo: req.memo, value: req.value, expiry: req.expiry }
    }
}

/// Body of a request that lists unspent outputs.
#[derive(Debug)]
pub struct ListUnspentRequest {
    pub min_confs: i64,
    pub max_confs: i64,
    pub account: Option<String>,
    pub unconfirmed_only: Option<bool>,
}

impl Default for ListUnspentRequest {
    /// Every output with up to 500 confirmations, of every account.
    fn default() -> (r: ListUnspentRequest)
        ensures
            r.min_confs == 0,
            r.max_confs == 500,
            r.account is None,
            r.unconfirmed_only is None,
    {
        ListUnspentRequest { min_confs: 0, max_confs: 500, account: None, unconfirmed_only: None }
    }
}

/// Answer to a request for the unspent outputs.
#[derive(Debug)]
pub struct ListUnspentResponse {
    pub utxos: Vec<Utxo>,
}

impl ListUnspentResponse {
    /// The outputs as the cluster hands them out, each owned by `pubkey`;
    /// `None` if one of them cannot be read.
    pub open spec fn cluster_view(&self, pubkey: Seq<char>) -> Option<Seq<UtxoView>> {
        if forall|i: int| 0 <= i < self.utxos@.len() ==> (#[trigger] self.utxos@[i]).cluster_view(pubkey) is Some {
            Some(Seq::new(self.utxos@.len(), |i: int| self.utxos@[i].cluster_view(pubkey).unwrap()))
        } else {
            None
        }
    }

    /// The outputs as the cluster hands them out, in the order of the answer,
    /// each owned by `pubkey`. Fails with `EncodingError` if an amount or a
    /// count of confirmations is not a decimal number.
    pub fn to_cluster(self, pubkey: String) -> (r: Result<ClusterUtxos, ClusterError>)
        ensures
            match r {
                Ok(set) => self.cluster_view(pubkey@) == Some(set@),
                Err(e) => e == ClusterError::EncodingError && self.cluster_view(pubkey@) is None,
            },
    {
        let ghost all = self.utxos@;
        let mut rest = self.utxos;
        let mut utxos: Vec<ClusterUtxo> = Vec::new();
        while rest.len() > 0
            invariant
                all == self.utxos@,
                utxos@.len() + rest@.len() == all.len(),
                rest@ == all.subrange(utxos@.len() as int, all.len() as int),
                forall|i: int| 0 <= i < utxos@.len() ==> all[i].cluster_view(pubkey@) == Some(#[trigger] utxos@[i]@),
            decreases rest@.len(),
        {
            let utxo = rest.remove(0);
            let ghost i = utxos@.len() as int;
            assert(all[i] == utxo);
            match utxo.to_cluster(pubkey.clone()) {
                Ok(u) => {
                    utxos.push(u);
                    assert(rest@ =~= all.subrange(utxos@.len() as int, all.len() as int));
                },
                Err(e) => {
                    assert(!(all[i].cluster_view(pubkey@) is Some));
                    return Err(e);
                },
            }
        }
        assert(forall|i: int| 0 <= i < all.len() ==> (#[trigger] all[i]).cluster_view(pubkey@) is Some) by {
            assert forall|i: int| 0 <= i < all.len() implies (#[trigger] all[i]).cluster_view(pubkey@) is Some by {
                assert(all[i].cluster_view(pubkey@) == Some(utxos@[i]@));
            }
        }
        let set = ClusterUtxos { utxos };
        assert(set@ =~= Seq::new(all.len(), |i: int| all[i].cluster_view(pubkey@).unwrap()));
        Ok(set)
    }
}

/// One unspent output as LND lists it; amounts and counts are decimal text.
#[derive(Debug)]
pub struct Utxo {
    pub address: String,
    pub amount_sat: String,
    pub confirmations: String,
    pub outpoint: Outpoint,
    pub pk_script: String,
}

impl Utxo {
    /// The output as the cluster hands it out, owned by `pubkey`; `None` if
    /// its amount or its count of confirmations is not a decimal number.
    pub open spec fn cluster_view(&self, pubkey: Seq<char>) -> Option<UtxoView> {
        match (parsed_u64(self.amount_sat@), parsed_u64(self.confirmations@)) {
            (Some(amount), Some(confirmations)) => Some(
                UtxoView { pubkey, address: self.address@, amount, confirmations },
            ),
            _ => None,
        }
    }

    /// The output as the cluster hands it out, owned by `pubkey`.
    pub fn to_cluster(self, pubkey: String) -> (r: Result<ClusterUtxo, ClusterError>)
        ensures
            match r {
                Ok(u) => self.cluster_view(pubkey@) == Some(u@),
                Err(e) => e == ClusterError::EncodingError && self.cluster_view(pubkey@) is None,
            },
    {
        let amount = match parse_u64(self.amount_sat.as_str()) {
            Some(a) => a,
            None => return Err(ClusterError::EncodingError),
        };
        let confirmations = match parse_u64(self.confirmations.as_str()) {
            Some(c) => c,
            None => return Err(ClusterError::EncodingError),
        };
        Ok(ClusterUtxo { pubkey, address: self.address, amount, confirmations })
    }
}

/// The transaction output that an unspent output is.
#[derive(Debug)]
pub struct Outpoint {
    pub txid_bytes: String,
    pub txid_str: String,
    pub output_index: u64,
}

/// Answer to a request that creates an invoice.
#[derive(Debug)]
pub struct AddInvoiceResponse {
    pub r_hash: String,
    pub payment_request: String,
    pub add_index: String,
    pub payment_addr: String,
}

/// An invoice as LND answers a lookup; binary fields may be base64.
#[derive(Debug)]
pub struct LookupInvoiceResponse {
    pub memo: String,
    pub r_preimage: String,
    pub r_hash: String,
    pub value: String,
    pub settle_date: String,
    pub payment_request: String,
    pub description_hash: String,
    pub expiry: String,
    pub amt_paid_sat: String,
    pub state: InvoiceState,
}

impl LookupInvoiceResponse {
    /// The invoice owned by `pubkey`, with the given text for its hash and preimage.
    pub open spec fn invoice_view(&self, pubkey: Seq<char>, r_hash: Seq<char>, r_preimage: Seq<char>) -> InvoiceView {
        InvoiceView {
            pubkey,
            memo: self.memo@,
            r_preimage,
            r_hash,
            value: self.value@,
            settle_date: self.settle_date@,
            payment_request: self.payment_request@,
            description_hash: self.description_hash@,
            expiry: self.expiry@,
            amt_paid_sat: self.amt_paid_sat@,
            state: self.state.cluster_state(),
        }
    }

    /// The invoice as the cluster's value, owned by `pubkey`; every field is
    /// taken over as it is.
    pub fn to_cluster(self, pubkey: &str) -> (r: ClusterLookupInvoice)
        ensures
            r@ == self.invoice_view(pubkey@, self.r_hash@, self.r_preimage@),
    {
        let state = self.state.to_cluster();
        ClusterLookupInvoice {
            pubkey: pubkey.to_owned(),
            memo: self.memo,
            r_preimage: self.r_preimage,
            r_hash: self.r_hash,
            value: self.value,
            settle_date: self.settle_date,
            payment_request: self.payment_request,
            description_hash: self.description_hash,
            expiry: self.expiry,
            amt_paid_sat: self.amt_paid_sat,
            state,
        }
    }
}

/// The state of an invoice as LND names it.
#[derive(Debug, Clone, Copy, PartialEq, Eq, Structural)]
pub enum InvoiceState {
    Open,
    Settled,
    Canceled,
    Accepted,
}

impl InvoiceState {
    /// The same state, as the cluster names it.
    pub open spec fn cluster_state(&self) -> ClusterInvoiceState {
        match self {
            InvoiceState::Open => ClusterInvoiceState::Open,
            InvoiceState::Settled => ClusterInvoiceState::Settled,
            InvoiceState::Canceled => ClusterInvoiceState::Canceled,
            InvoiceState::Accepted => ClusterInvoiceState::Accepted,
        }
    }

    pub fn to_cluster(&self) -> (r: ClusterInvoiceState)
        ensures
            r == self.cluster_state(),
    {
        match self {
            InvoiceState::Open => ClusterInvoiceState::Open,
            InvoiceState::Settled => ClusterInvoiceState::Settled,
            InvoiceState::Canceled => ClusterInvoiceState::Canceled,
            InvoiceState::Accepted => ClusterInvoiceState::Accepted,
        }
    }
}

/// Body of a request that pays a payment request.
#[derive(Debug)]
pub struct LndSendPaymentSyncReq {
    pub payment_request: String,
    pub amt: String,
    pub fee_limit: FeeLimit,
    pub allow_self_payment: bool,
}

impl LndSendPaymentSyncReq {
    /// Pays `payment_request` with `amount`, spending at most `fee_limit` on
    /// routing fees; the node may not pay itself.
    pub fn new(payment_request: String, amount: u64, fee_limit: u64) -> (r: LndSendPaymentSyncReq)
        ensures
            r.payment_request == payment_request,
            r.amt@ == decimal_of(amount as nat),
            r.fee_limit.fixed@ == decimal_of(fee_limit as nat),
            !r.allow_self_payment,
    {
        LndSendPaymentSyncReq {
            payment_request,
            amt: decimal(amount),
            fee_limit: FeeLimit { fixed: decimal(fee_limit) },
            allow_self_payment: false,
        }
    }
}

/// A fixed bound on routing fees, as decimal text.
#[derive(Debug)]
pub struct FeeLimit {
    pub fixed: String,
}

/// The outcome of a payment as LND reports it.
#[derive(Debug)]
pub struct LndSendPaymentSyncRes {
    pub payment_error: Option<String>,
    pub payment_preimage: Option<String>,
    pub payment_route: Option<Route>,
    pub payment_hash: Option<String>,
}

/// The text of a field that may be absent; empty text counts as absent.
pub open spec fn present(field: Option<String>) -> Option<Seq<char>> {
    match field {
        Some(s) => if s@.len() > 0 {
            Some(s@)
        } else {
            None
        },
        None => None,
    }
}

/// A binary field that may be absent, in the canonical encoding: `Some(None)`
/// where it is absent, `None` where its text cannot be brought to that encoding.
pub open spec fn canonical_field(field: Option<String>) -> Option<Option<Seq<char>>> {
    match present(field) {
        Some(t) => match canonical_hex_of(t) {
            Some(h) => Some(Some(h)),
            None => None,
        },
        None => Some(None),
    }
}

/// The text of an optional field.
pub open spec fn text_of(field: Option<String>) -> Option<Seq<char>> {
    match field {
        Some(s) => Some(s@),
        None => None,
    }
}

/// The field with empty text dropped.
fn non_empty(field: Option<String>) -> (r: Option<String>)
    ensures
        text_of(r) == present(field),
{
    match field {
        Some(s) => if s.as_str().unicode_len() > 0 {
            Some(s)
        } else {
            None
        },
        None => None,
    }
}

/// The binary field with empty text dropped, in the canonical encoding.
fn canonical_optional(field: Option<String>) -> (r: Result<Option<String>, ClusterError>)
    ensures
        match r {
            Ok(f) => canonical_field(field) == Some(text_of(f)),
            Err(e) => e == ClusterError::EncodingError && canonical_field(field) is None,
        },
{
    match non_empty(field) {
        Some(s) => Ok(Some(to_hex(s.as_str())?)),
        None => Ok(None),
    }
}

impl LndSendPaymentSyncRes {
    /// The outcome with empty fields dropped and the hash and preimage in the
    /// canonical encoding. Fails with `EncodingError` where the hash or the
    /// preimage is neither hexadecimal nor base64.
    pub fn canonicalize(self) -> (r: Result<LndSendPaymentSyncRes, ClusterError>)
        ensures
            match r {
                Ok(c) => {
                    &&& canonical_field(self.payment_hash) == Some(text_of(c.payment_hash))
                    &&& canonical_field(self.payment_preimage) == Some(text_of(c.payment_preimage))
                    &&& text_of(c.payment_error) == present(self.payment_error)
                    &&& c.payment_route == self.payment_route
                },
                Err(e) => {
                    &&& e == ClusterError::EncodingError
                    &&& (canonical_field(self.payment_hash) is None || canonical_field(
                        self.payment_preimage,
                    ) is None)
                },
            },
    {
        let payment_hash = canonical_optional(self.payment_hash)?;
        let payment_error = non_empty(self.payment_error);
        let payment_preimage = canonical_optional(self.payment_preimage)?;
        Ok(LndSendPaymentSyncRes {
            payment_error,
            payment_preimage,
            payment_route: self.payment_route,
            payment_hash,
        })
    }

    /// The outcome as the cluster hands it out, sent by the node `pubkey`;
    /// every field is taken over as it is.
    pub fn to_cluster(self, pubkey: String) -> (r: ClusterPayPaymentRequestRes)
        ensures
            r.pubkey == pubkey,
            r.payment_error == self.payment_error,
            r.payment_preimage == self.payment_preimage,
            r.payment_route == self.payment_route,
            r.payment_hash == self.payment_hash,
    {
        ClusterPayPaymentRequestRes {
            pubkey,
            payment_error: self.payment_error,
            payment_preimage: self.payment_preimage,
            payment_route: self.payment_route,
            payment_hash: self.payment_hash,
        }
    }
}

/// The route a payment took.
#[derive(Debug)]
pub struct Route {
    pub total_time_lock: u64,
    pub total_fees: String,
    pub total_amt: String,
    pub hops: Vec<Hop>,
}

/// One hop of a route.
#[derive(Debug)]
pub struct Hop {
    pub chan_id: String,
    pub chan_capacity: String,
    pub amt_to_forward: String,
    pub fee: String,
    pub expiry: i64,
    pub amt_to_forward_msat: String,
    pub fee_msat: String,
    pub pub_key: String,
    pub metadata: String,
}

} // verus!
