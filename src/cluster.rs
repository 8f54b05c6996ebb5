//! The cluster: its nodes, the values it hands out, node selection, and the
//! decisions and completions of each operation.
use crate::cache::{live_in, CacheEntry, TtlCache};
use crate::encoding::{canonical_hex_of, decimal_of, is_canonical_hex, lemma_canonical_hex_of_is_canonical};
pub use crate::encoding::to_hex;
use crate::lnd::{
    canonical_field, present, text_of, AddInvoiceLndRequest, AddInvoiceResponse, ListUnspentResponse,
    LndClient, LndSendPaymentSyncReq, LndSendPaymentSyncRes, LookupInvoiceResponse, NewAddressResponse, Route,
};
use rand::Rng;
use vstd::prelude::*;

verus! {

/// Why an operation of the cluster failed.
#[derive(Debug, Clone, Copy, PartialEq, Eq, Structural)]
pub enum ClusterError {
    /// No configured node has the public key that the caller named; no node was asked.
    NodeNotFound,
    /// The node's implementation has no working client.
    UnsupportedImplementation,
    /// The node's backend could not be reached, or did not answer with success.
    UpstreamRequestFailed,
    /// A binary field could not be brought to the canonical encoding, or a
    /// number in an answer could not be read.
    EncodingError,
    /// Every node failed a lookup that was sent to all of them.
    AllNodesFailed,
}

/// The chain a node works on.
#[derive(Debug, Clone, Copy, PartialEq, Eq, Structural)]
pub enum NodeNetwork {
    Mainnet,
    Testnet,
}

impl NodeNetwork {
    /// The network's name, in lower case.
    pub open spec fn name(&self) -> Seq<char> {
        match self {
            NodeNetwork::Mainnet => "mainnet"@,
            NodeNetwork::Testnet => "testnet"@,
        }
    }

    /// The network's name, in lower case.
    pub fn to_string(&self) -> (r: String)
        ensures
            r@ == self.name(),
    {
        match self {
            NodeNetwork::Mainnet => "mainnet".to_owned(),
            NodeNetwork::Testnet => "testnet".to_owned(),
        }
    }
}

/// The implementation a node runs.
#[derive(Debug, Clone, Copy, PartialEq, Eq, Structural)]
pub enum NodeLightningImpl {
    Lnd,
    CLightning,
    Eclair,
    Other,
}

/// The handle through which a node is reached. Only LND has a client.
#[derive(Debug, Clone)]
pub enum NodeClient {
    Lnd(LndClient),
    CLightning,
    Eclair,
    Other,
}

/// One backend node of the cluster, identified by its public key.
#[derive(Debug, Clone)]
pub struct Node {
    pub pubkey: String,
    pub ip: String,
    pub port: String,
    pub network: NodeNetwork,
    pub lightning_impl: NodeLightningImpl,
    pub client: NodeClient,
}

/// A request to create an invoice.
#[derive(Debug)]
pub struct ClusterAddInvoice {
    pub pubkey: Option<String>,
    pub memo: String,
    pub value: i64,
    pub expiry: i64,
}

/// The state of an invoice.
#[derive(Debug, Clone, Copy, PartialEq, Eq, Structural)]
pub enum ClusterInvoiceState {
    Open,
    Settled,
    Canceled,
    Accepted,
}

/// An invoice as the cluster hands it out; `r_hash` and `r_preimage` are in
/// the canonical encoding.
#[derive(Debug)]
pub struct ClusterLookupInvoice {
    pub pubkey: String,
    pub memo: String,
    pub r_preimage: String,
    pub r_hash: String,
    pub value: String,
    pub settle_date: String,
    pub payment_request: String,
    pub description_hash: String,
    pub expiry: String,
    pub amt_paid_sat: String,
    pub state: ClusterInvoiceState,
}

/// The text of an invoice's fields.
pub struct InvoiceView {
    pub pubkey: Seq<char>,
    pub memo: Seq<char>,
    pub r_preimage: Seq<char>,
    pub r_hash: Seq<char>,
    pub value: Seq<char>,
    pub settle_date: Seq<char>,
    pub payment_request: Seq<char>,
    pub description_hash: Seq<char>,
    pub expiry: Seq<char>,
    pub amt_paid_sat: Seq<char>,
    pub state: ClusterInvoiceState,
}

impl View for ClusterLookupInvoice {
    type V = InvoiceView;

    open spec fn view(&self) -> InvoiceView {
        InvoiceView {
            pubkey: self.pubkey@,
            memo: self.memo@,
            r_preimage: self.r_preimage@,
            r_hash: self.r_hash@,
            value: self.value@,
            settle_date: self.settle_date@,
            payment_request: self.payment_request@,
            description_hash: self.description_hash@,
            expiry: self.expiry@,
            amt_paid_sat: self.amt_paid_sat@,
            state: self.state,
        }
    }
}

impl Clone for ClusterLookupInvoice {
    fn clone(&self) -> (r: Self)
        ensures
            r == *self,
    {
        ClusterLookupInvoice {
            pubkey: self.pubkey.clone(),
            memo: self.memo.clone(),
            r_preimage: self.r_preimage.clone(),
            r_hash: self.r_hash.clone(),
            value: self.value.clone(),
            settle_date: self.settle_date.clone(),
            payment_request: self.payment_request.clone(),
            description_hash: self.description_hash.clone(),
            expiry: self.expiry.clone(),
            amt_paid_sat: self.amt_paid_sat.clone(),
            state: self.state,
        }
    }
}

/// The outcome of a payment, with the public key of the node that sent it.
#[derive(Debug)]
pub struct ClusterPayPaymentRequestRes {
    pub pubkey: String,
    pub payment_error: Option<String>,
    pub payment_preimage: Option<String>,
    pub payment_route: Option<Route>,
    pub payment_hash: Option<String>,
}

/// An unspent output, with the public key of the node that owns it.
#[derive(Debug)]
pub struct ClusterUtxo {
    pub pubkey: String,
    pub address: String,
    pub amount: u64,
    pub confirmations: u64,
}

/// The text and numbers of an unspent output.
pub struct UtxoView {
    pub pubkey: Seq<char>,
    pub address: Seq<char>,
    pub amount: u64,
    pub confirmations: u64,
}

impl View for ClusterUtxo {
    type V = UtxoView;

    open spec fn view(&self) -> UtxoView {
        UtxoView {
            pubkey: self.pubkey@,
            address: self.address@,
            amount: self.amount,
            confirmations: self.confirmations,
        }
    }
}

impl Clone for ClusterUtxo {
    fn clone(&self) -> (r: Self)
        ensures
            r == *self,
    {
        ClusterUtxo {
            pubkey: self.pubkey.clone(),
            address: self.address.clone(),
            amount: self.amount,
            confirmations: self.confirmations,
        }
    }
}

/// The unspent outputs of one node, or of several nodes one after another.
#[derive(Debug)]
pub struct ClusterUtxos {
    pub utxos: Vec<ClusterUtxo>,
}

/// The views of a sequence of unspent outputs.
pub open spec fn utxo_views(s: Seq<ClusterUtxo>) -> Seq<UtxoView> {
    s.map_values(|u: ClusterUtxo| u@)
}

impl View for ClusterUtxos {
    type V = Seq<UtxoView>;

    open spec fn view(&self) -> Seq<UtxoView> {
        utxo_views(self.utxos@)
    }
}

impl Clone for ClusterUtxos {
    fn clone(&self) -> (r: Self)
        ensures
            r.utxos@ == self.utxos@,
    {
        let mut utxos: Vec<ClusterUtxo> = Vec::new();
        let mut i: usize = 0;
        while i < self.utxos.len()
            invariant
                i <= self.utxos@.len(),
                utxos@ == self.utxos@.take(i as int),
            decreases self.utxos@.len() - i,
        {
            utxos.push(self.utxos[i].clone());
            assert(self.utxos@.take(i + 1) =~= self.utxos@.take(i as int).push(self.utxos@[i as int]));
            i = i + 1;
        }
        assert(self.utxos@.take(i as int) =~= self.utxos@);
        ClusterUtxos { utxos }
    }
}

/// Relies on rand's thread-local generator, `Rng::gen_range` over `0..n`:
/// an index below `n`, chosen at random. (`gen_range` panics on an empty range.)
#[verifier::external_body]
fn random_index(n: usize) -> (r: usize)
    requires
        n > 0,
    ensures
        r < n,
{
    rand::thread_rng().gen_range(0..n)
}

impl Node {
    pub fn new(
        pubkey: String,
        ip: String,
        port: String,
        network: NodeNetwork,
        lightning_impl: NodeLightningImpl,
        client: NodeClient,
    ) -> (r: Node)
        ensures
            r.pubkey == pubkey,
            r.ip == ip,
            r.port == port,
            r.network == network,
            r.lightning_impl == lightning_impl,
            r.client == client,
    {
        Node { pubkey, ip, port, network, lightning_impl, client }
    }

    /// Whether the node has a working client: only LND nodes do.
    pub open spec fn is_supported(&self) -> bool {
        self.client is Lnd
    }

    /// The client that reaches this node; `UnsupportedImplementation` for a
    /// node without one.
    pub fn lnd_client(&self) -> (r: Result<&LndClient, ClusterError>)
        ensures
            match r {
                Ok(c) => self.client == NodeClient::Lnd(*c),
                Err(e) => !self.is_supported() && e == ClusterError::UnsupportedImplementation,
            },
    {
        match &self.client {
            NodeClient::Lnd(client) => Ok(client),
            _ => Err(ClusterError::UnsupportedImplementation),
        }
    }

    /// What this node's answer to an invoice lookup becomes: the invoice,
    /// owned by this node, with its hash and preimage in the canonical encoding.
    pub open spec fn lookup_view(&self, answer: Result<LookupInvoiceResponse, ClusterError>) -> Result<
        InvoiceView,
        ClusterError,
    > {
        if !self.is_supported() {
            Err(ClusterError::UnsupportedImplementation)
        } else {
            match answer {
                Err(e) => Err(e),
                Ok(resp) => match (canonical_hex_of(resp.r_hash@), canonical_hex_of(resp.r_preimage@)) {
                    (Some(h), Some(p)) => Ok(resp.invoice_view(self.pubkey@, h, p)),
                    _ => Err(ClusterError::EncodingError),
                },
            }
        }
    }

    /// Normalises this node's answer to an invoice lookup.
    pub fn lookup_invoice(&self, answer: Result<LookupInvoiceResponse, ClusterError>) -> (r: Result<
        ClusterLookupInvoice,
        ClusterError,
    >)
        ensures
            match r {
                Ok(inv) => self.lookup_view(answer) == Ok::<InvoiceView, ClusterError>(inv@),
                Err(e) => self.lookup_view(answer) == Err::<InvoiceView, ClusterError>(e),
            },
    {
        self.lnd_client()?;
        let resp = answer?;
        let r_hash = to_hex(resp.r_hash.as_str())?;
        let r_preimage = to_hex(resp.r_preimage.as_str())?;
        let invoice = resp.to_cluster(self.pubkey.as_str());
        Ok(ClusterLookupInvoice { r_hash, r_preimage, ..invoice })
    }

    /// Normalises this node's answer to a request that creates an invoice:
    /// the hash and the payment address in the canonical encoding.
    pub fn add_invoice(&self, answer: Result<AddInvoiceResponse, ClusterError>) -> (r: Result<
        AddInvoiceResponse,
        ClusterError,
    >)
        ensures
            !self.is_supported() ==> r == Err::<AddInvoiceResponse, ClusterError>(
                ClusterError::UnsupportedImplementation,
            ),
            self.is_supported() ==> match answer {
                Err(e) => r == Err::<AddInvoiceResponse, ClusterError>(e),
                Ok(resp) => match (canonical_hex_of(resp.r_hash@), canonical_hex_of(resp.payment_addr@)) {
                    (Some(h), Some(a)) => r matches Ok(inv) && inv.r_hash@ == h && inv.payment_addr@ == a
                        && inv.payment_request == resp.payment_request && inv.add_index == resp.add_index,
                    _ => r == Err::<AddInvoiceResponse, ClusterError>(ClusterError::EncodingError),
                },
            },
    {
        self.lnd_client()?;
        let resp = answer?;
        let r_hash = to_hex(resp.r_hash.as_str())?;
        let payment_addr = to_hex(resp.payment_addr.as_str())?;
        Ok(AddInvoiceResponse { r_hash, payment_addr, ..resp })
    }

    /// Normalises this node's answer to a request for a fresh address.
    pub fn next_address(&self, answer: Result<NewAddressResponse, ClusterError>) -> (r: Result<
        String,
        ClusterError,
    >)
        ensures
            !self.is_supported() ==> r == Err::<String, ClusterError>(ClusterError::UnsupportedImplementation),
            self.is_supported() ==> match answer {
                Err(e) => r == Err::<String, ClusterError>(e),
                Ok(resp) => r == Ok::<String, ClusterError>(resp.address),
            },
    {
        self.lnd_client()?;
        let resp = answer?;
        Ok(resp.address)
    }

    /// What this node's answer to a request for its unspent outputs becomes.
    pub open spec fn utxos_view(&self, answer: Result<ListUnspentResponse, ClusterError>) -> Result<
        Seq<UtxoView>,
        ClusterError,
    > {
        if !self.is_supported() {
            Err(ClusterError::UnsupportedImplementation)
        } else {
            match answer {
                Err(e) => Err(e),
                Ok(resp) => match resp.cluster_view(self.pubkey@) {
                    Some(v) => Ok(v),
                    None => Err(ClusterError::EncodingError),
                },
            }
        }
    }

    /// Normalises this node's answer to a request for its unspent outputs:
    /// each output owned by this node, amounts read as numbers.
    pub fn list_utxos(&self, answer: Result<ListUnspentResponse, ClusterError>) -> (r: Result<
        ClusterUtxos,
        ClusterError,
    >)
        ensures
            match r {
                Ok(set) => self.utxos_view(answer) == Ok::<Seq<UtxoView>, ClusterError>(set@),
                Err(e) => self.utxos_view(answer) == Err::<Seq<UtxoView>, ClusterError>(e),
            },
    {
        self.lnd_client()?;
        let resp = answer?;
        resp.to_cluster(self.pubkey.clone())
    }

    /// Normalises this node's answer to a payment: empty fields dropped, the
    /// hash and the preimage in the canonical encoding, sent by this node.
    pub fn send_payment(&self, answer: Result<LndSendPaymentSyncRes, ClusterError>) -> (r: Result<
        ClusterPayPaymentRequestRes,
        ClusterError,
    >)
        ensures
            !self.is_supported() ==> r == Err::<ClusterPayPaymentRequestRes, ClusterError>(
                ClusterError::UnsupportedImplementation,
            ),
            self.is_supported() ==> match answer {
                Err(e) => r == Err::<ClusterPayPaymentRequestRes, ClusterError>(e),
                Ok(raw) => match (canonical_field(raw.payment_hash), canonical_field(raw.payment_preimage)) {
                    (Some(h), Some(p)) => r matches Ok(res) && res.pubkey == self.pubkey && text_of(
                        res.payment_hash,
                    ) == h && text_of(res.payment_preimage) == p && text_of(res.payment_error)
                        == present(raw.payment_error) && res.payment_route == raw.payment_route,
                    _ => r == Err::<ClusterPayPaymentRequestRes, ClusterError>(ClusterError::EncodingError),
                },
            },
    {
        self.lnd_client()?;
        let raw = answer?;
        let res = raw.canonicalize()?;
        Ok(res.to_cluster(self.pubkey.clone()))
    }
}

/// The caches of a cluster, one per kind of result, each with its own lifetime.
pub struct ResultCache {
    /// Invoices, by canonical hash.
    pub invoices: TtlCache<ClusterLookupInvoice>,
    /// The public key of the node that handed out an address, by address.
    pub addresses: TtlCache<String>,
    /// A node's unspent outputs, by the node's public key.
    pub utxos: TtlCache<ClusterUtxos>,
}

impl ResultCache {
    /// Three empty caches.
    pub fn new() -> (r: ResultCache)
        ensures
            r.invoices@ == Map::<Seq<char>, CacheEntry<ClusterLookupInvoice>>::empty(),
            r.addresses@ == Map::<Seq<char>, CacheEntry<String>>::empty(),
            r.utxos@ == Map::<Seq<char>, CacheEntry<ClusterUtxos>>::empty(),
    {
        ResultCache { invoices: TtlCache::new(), addresses: TtlCache::new(), utxos: TtlCache::new() }
    }
}

/// Several nodes presented as one, with the cache of their results and the
/// lifetime, in seconds, of each kind of cached result.
pub struct Cluster {
    pub nodes: Vec<Node>,
    pub cache: ResultCache,
    pub inv_exp_sec: u64,
    pub addr_exp_sec: u64,
    pub utxo_exp_sec: u64,
}

/// Whether `i` is the first position in `nodes` of a node with public key `pubkey`.
pub open spec fn is_first_with_key(nodes: Seq<Node>, pubkey: Seq<char>, i: int) -> bool {
    &&& 0 <= i < nodes.len()
    &&& nodes[i].pubkey@ == pubkey
    &&& forall|j: int| 0 <= j < i ==> (#[trigger] nodes[j]).pubkey@ != pubkey
}

/// The position of the first node with public key `pubkey`, if there is one.
pub open spec fn node_position(nodes: Seq<Node>, pubkey: Seq<char>) -> Option<int> {
    if exists|i: int| is_first_with_key(nodes, pubkey, i) {
        Some(choose|i: int| is_first_with_key(nodes, pubkey, i))
    } else {
        None
    }
}

/// Whether a node with public key `pubkey` is configured.
pub open spec fn has_node(nodes: Seq<Node>, pubkey: Seq<char>) -> bool {
    exists|i: int| 0 <= i < nodes.len() && (#[trigger] nodes[i]).pubkey@ == pubkey
}

/// A node is found exactly when one with that public key is configured.
pub proof fn lemma_position_iff_configured(nodes: Seq<Node>, pubkey: Seq<char>)
    ensures
        node_position(nodes, pubkey) is Some <==> has_node(nodes, pubkey),
        node_position(nodes, pubkey) matches Some(i) ==> is_first_with_key(nodes, pubkey, i),
{
    if has_node(nodes, pubkey) {
        let k = choose|k: int| 0 <= k < nodes.len() && (#[trigger] nodes[k]).pubkey@ == pubkey;
        lemma_first_exists(nodes, pubkey, k);
    }
}

/// Below any node with public key `pubkey` lies a first one.
proof fn lemma_first_exists(nodes: Seq<Node>, pubkey: Seq<char>, k: int)
    requires
        0 <= k < nodes.len(),
        nodes[k].pubkey@ == pubkey,
    ensures
        exists|i: int| is_first_with_key(nodes, pubkey, i),
    decreases k,
{
    if exists|j: int| 0 <= j < k && (#[trigger] nodes[j]).pubkey@ == pubkey {
        let j = choose|j: int| 0 <= j < k && (#[trigger] nodes[j]).pubkey@ == pubkey;
        lemma_first_exists(nodes, pubkey, j);
    } else {
        assert(is_first_with_key(nodes, pubkey, k));
    }
}

/// The node that serves an operation, and the client that reaches it.
#[derive(Debug)]
pub struct Target {
    pub node: usize,
    pub client: LndClient,
}

/// Which node serves an operation: the first with the public key that the
/// caller named, or, where the caller named none, the node at `pick`; that
/// node must have a working client.
pub open spec fn target_of(nodes: Seq<Node>, pubkey: Option<Seq<char>>, pick: int) -> Result<int, ClusterError> {
    let chosen = match pubkey {
        Some(pk) => match node_position(nodes, pk) {
            Some(i) => Ok(i),
            None => Err(ClusterError::NodeNotFound),
        },
        None => if 0 <= pick < nodes.len() {
            Ok(pick)
        } else {
            Err(ClusterError::NodeNotFound)
        },
    };
    match chosen {
        Ok(i) => if nodes[i].is_supported() {
            Ok(i)
        } else {
            Err(ClusterError::UnsupportedImplementation)
        },
        Err(e) => Err(e),
    }
}

/// Whether `r` names the node that `chosen` gives, with that node's client,
/// or fails as `chosen` does.
pub open spec fn is_target(nodes: Seq<Node>, r: Result<Target, ClusterError>, chosen: Result<int, ClusterError>) -> bool {
    match chosen {
        Ok(i) => r matches Ok(t) && t.node == i && nodes[i].client == NodeClient::Lnd(t.client),
        Err(e) => r == Err::<Target, ClusterError>(e),
    }
}

/// Whether `pick` is a position that a random choice among `n` nodes can give.
pub open spec fn is_pick(n: nat, pick: int) -> bool {
    n > 0 ==> 0 <= pick < n
}

impl Cluster {
    /// A cluster of `nodes` with empty caches and the given lifetimes.
    pub fn new(nodes: Vec<Node>, inv_exp_sec: u64, addr_exp_sec: u64, utxo_exp_sec: u64) -> (r: Cluster)
        ensures
            r.nodes == nodes,
            r.inv_exp_sec == inv_exp_sec,
            r.addr_exp_sec == addr_exp_sec,
            r.utxo_exp_sec == utxo_exp_sec,
            r.cache.invoices@ == Map::<Seq<char>, CacheEntry<ClusterLookupInvoice>>::empty(),
            r.cache.addresses@ == Map::<Seq<char>, CacheEntry<String>>::empty(),
            r.cache.utxos@ == Map::<Seq<char>, CacheEntry<ClusterUtxos>>::empty(),
    {
        Cluster { nodes, cache: ResultCache::new(), inv_exp_sec, addr_exp_sec, utxo_exp_sec }
    }

    /// Position of the first node with public key `pubkey`.
    pub fn find_node(&self, pubkey: &String) -> (r: Option<usize>)
        ensures
            match r {
                Some(i) => node_position(self.nodes@, pubkey@) == Some(i as int),
                None => node_position(self.nodes@, pubkey@) is None,
            },
    {
        let mut i: usize = 0;
        while i < self.nodes.len()
            invariant
                i <= self.nodes@.len(),
                forall|j: int| 0 <= j < i ==> (#[trigger] self.nodes@[j]).pubkey@ != pubkey@,
            decreases self.nodes@.len() - i,
        {
            if self.nodes[i].pubkey == *pubkey {
                assert(is_first_with_key(self.nodes@, pubkey@, i as int));
                return Some(i);
            }
            i = i + 1;
        }
        proof {
            lemma_position_iff_configured(self.nodes@, pubkey@);
        }
        None
    }

    /// The node that serves an operation when a random choice gave `pick`.
    pub fn target(&self, pubkey: &Option<String>, pick: usize) -> (r: Result<Target, ClusterError>)
        ensures
            is_target(self.nodes@, r, target_of(self.nodes@, pubkey.deep_view(), pick as int)),
    {
        let i = match pubkey {
            Some(pk) => match self.find_node(pk) {
                Some(i) => i,
                None => return Err(ClusterError::NodeNotFound),
            },
            None => if pick < self.nodes.len() {
                pick
            } else {
                return Err(ClusterError::NodeNotFound);
            },
        };
        proof {
            if pubkey is Some {
                lemma_position_iff_configured(self.nodes@, pubkey.deep_view().unwrap());
            }
        }
        let client = self.nodes[i].lnd_client()?;
        Ok(Target { node: i, client: client.clone() })
    }

    /// The node that serves an operation: the one with the public key that
    /// the caller named, or a node chosen uniformly at random.
    pub fn choose_target(&self, pubkey: &Option<String>) -> (r: Result<Target, ClusterError>)
        ensures
            exists|pick: int|
                is_pick(self.nodes@.len(), pick) && is_target(
                    self.nodes@,
                    r,
                    #[trigger] target_of(self.nodes@, pubkey.deep_view(), pick),
                ),
    {
        let pick = if pubkey.is_none() && self.nodes.len() > 0 {
            random_index(self.nodes.len())
        } else {
            0
        };
        let r = self.target(pubkey, pick);
        assert(is_pick(self.nodes@.len(), pick as int));
        r
    }

    /// Decides where to create an invoice and what to send there.
    pub fn add_invoice(&self, req: ClusterAddInvoice, pubkey: Option<String>) -> (r: Result<
        (Target, AddInvoiceLndRequest),
        ClusterError,
    >)
        ensures
            pubkey matches Some(pk) && !has_node(self.nodes@, pk@) ==> r == Err::<
                (Target, AddInvoiceLndRequest),
                ClusterError,
            >(ClusterError::NodeNotFound),
            exists|pick: int|
                is_pick(self.nodes@.len(), pick) && match #[trigger] target_of(
                    self.nodes@,
                    pubkey.deep_view(),
                    pick,
                ) {
                    Ok(i) => r matches Ok((t, body)) && t.node == i && self.nodes@[i].client
                        == NodeClient::Lnd(t.client) && body.memo == req.memo && body.value
                        == req.value && body.expiry == req.expiry,
                    Err(e) => r == Err::<(Target, AddInvoiceLndRequest), ClusterError>(e),
                },
    {
        let target = self.choose_target(&pubkey);
        proof {
            if pubkey is Some {
                lemma_position_iff_configured(self.nodes@, pubkey.deep_view().unwrap());
            }
        }
        let target = target?;
        Ok((target, AddInvoiceLndRequest::from_cluster(req)))
    }

    /// Decides where to pay `payment_request` and what to send there; the fee
    /// limit is passed on as it is.
    pub fn pay_invoice(&self, amount: u64, payment_request: String, fee_limit: u64, pubkey: Option<String>) -> (r:
        Result<(Target, LndSendPaymentSyncReq), ClusterError>)
        ensures
            pubkey matches Some(pk) && !has_node(self.nodes@, pk@) ==> r == Err::<
                (Target, LndSendPaymentSyncReq),
                ClusterError,
            >(ClusterError::NodeNotFound),
            exists|pick: int|
                is_pick(self.nodes@.len(), pick) && match #[trigger] target_of(
                    self.nodes@,
                    pubkey.deep_view(),
                    pick,
                ) {
                    Ok(i) => r matches Ok((t, body)) && t.node == i && self.nodes@[i].client
                        == NodeClient::Lnd(t.client) && body.payment_request == payment_request
                        && body.amt@ == decimal_of(amount as nat) && body.fee_limit.fixed@
                        == decimal_of(fee_limit as nat) && !body.allow_self_payment,
                    Err(e) => r == Err::<(Target, LndSendPaymentSyncReq), ClusterError>(e),
                },
    {
        let target = self.choose_target(&pubkey);
        proof {
            if pubkey is Some {
                lemma_position_iff_configured(self.nodes@, pubkey.deep_view().unwrap());
            }
        }
        let target = target?;
        Ok((target, LndSendPaymentSyncReq::new(payment_request, amount, fee_limit)))
    }

    /// Decides which node allocates a fresh address. Addresses are never
    /// served from the cache.
    pub fn next_address(&self, pubkey: Option<String>) -> (r: Result<Target, ClusterError>)
        ensures
            pubkey matches Some(pk) && !has_node(self.nodes@, pk@) ==> r == Err::<Target, ClusterError>(
                ClusterError::NodeNotFound,
            ),
            exists|pick: int|
                is_pick(self.nodes@.len(), pick) && is_target(
                    self.nodes@,
                    r,
                    #[trigger] target_of(self.nodes@, pubkey.deep_view(), pick),
                ),
    {
        proof {
            if pubkey is Some {
                lemma_position_iff_configured(self.nodes@, pubkey.deep_view().unwrap());
            }
        }
        self.choose_target(&pubkey)
    }

    /// Completes an address allocation on `node`: remembers, for the address
    /// lifetime, which node owns the address, and hands the address out.
    /// A failed allocation leaves the cache as it was.
    pub fn complete_next_address(&mut self, node: usize, answer: Result<NewAddressResponse, ClusterError>, now: u64) -> (r:
        Result<String, ClusterError>)
        ensures
            final(self).nodes == old(self).nodes,
            final(self).inv_exp_sec == old(self).inv_exp_sec,
            final(self).addr_exp_sec == old(self).addr_exp_sec,
            final(self).utxo_exp_sec == old(self).utxo_exp_sec,
            final(self).cache.invoices == old(self).cache.invoices,
            final(self).cache.utxos == old(self).cache.utxos,
            node >= old(self).nodes@.len() ==> r == Err::<String, ClusterError>(ClusterError::NodeNotFound),
            node < old(self).nodes@.len() ==> match r {
                Ok(addr) => {
                    &&& old(self).nodes@[node as int].is_supported()
                    &&& answer == Ok::<NewAddressResponse, ClusterError>(NewAddressResponse { address: addr })
                    &&& final(self).cache.addresses@ == old(self).cache.addresses@.insert(
                        addr@,
                        CacheEntry {
                            value: old(self).nodes@[node as int].pubkey,
                            inserted_at: now,
                            ttl: old(self).addr_exp_sec,
                        },
                    )
                },
                Err(e) => {
                    &&& final(self).cache.addresses == old(self).cache.addresses
                    &&& (!old(self).nodes@[node as int].is_supported() ==> e
                        == ClusterError::UnsupportedImplementation)
                    &&& (old(self).nodes@[node as int].is_supported() ==> answer == Err::<
                        NewAddressResponse,
                        ClusterError,
                    >(e))
                },
            },
    {
        if node >= self.nodes.len() {
            return Err(ClusterError::NodeNotFound);
        }
        let addr = self.nodes[node].next_address(answer)?;
        let owner = self.nodes[node].pubkey.clone();
        self.cache.addresses.set(addr.clone(), owner, self.addr_exp_sec, now);
        Ok(addr)
    }
}

/// The nodes that a lookup asks, and the key its invoice is cached under.
#[derive(Debug)]
pub struct LookupQuery {
    /// The invoice hash in the canonical encoding.
    pub key: String,
    /// Positions of the nodes asked; the answers come back in this order.
    pub targets: Vec<usize>,
    /// Whether every node is asked because the owner is unknown.
    pub broadcast: bool,
}

/// How a lookup goes on after the cache was consulted.
#[derive(Debug)]
pub enum LookupPlan {
    /// The cache holds the invoice; no node is asked.
    Cached(ClusterLookupInvoice),
    /// The nodes of the query are to be asked.
    Ask(LookupQuery),
}

/// The first step of a lookup, as text and positions.
pub enum LookupStep {
    Serve(ClusterLookupInvoice),
    Ask(Seq<char>, Seq<usize>, bool),
    Refuse(ClusterError),
}

/// The step that a lookup plan, or its failure, stands for.
pub open spec fn step_of(r: Result<LookupPlan, ClusterError>) -> LookupStep {
    match r {
        Ok(LookupPlan::Cached(inv)) => LookupStep::Serve(inv),
        Ok(LookupPlan::Ask(q)) => LookupStep::Ask(q.key@, q.targets@, q.broadcast),
        Err(e) => LookupStep::Refuse(e),
    }
}

/// The positions `0, 1, ..., n - 1`.
pub open spec fn all_positions(n: nat) -> Seq<usize> {
    Seq::new(n, |i: int| i as usize)
}

/// The first step of a lookup of `r_hash`: the hash is brought to the
/// canonical encoding; a live cached invoice is served; otherwise the named
/// owner is asked, or, where no owner is named, every node.
pub open spec fn planned_lookup(
    nodes: Seq<Node>,
    invoices: Map<Seq<char>, CacheEntry<ClusterLookupInvoice>>,
    r_hash: Seq<char>,
    pubkey: Option<Seq<char>>,
    now: int,
) -> LookupStep {
    match canonical_hex_of(r_hash) {
        None => LookupStep::Refuse(ClusterError::EncodingError),
        Some(key) => match live_in(invoices, key, now) {
            Some(inv) => LookupStep::Serve(inv),
            None => match pubkey {
                Some(pk) => match node_position(nodes, pk) {
                    Some(i) => LookupStep::Ask(key, seq![i as usize], false),
                    None => LookupStep::Refuse(ClusterError::NodeNotFound),
                },
                None => LookupStep::Ask(key, all_positions(nodes.len()), true),
            },
        },
    }
}

/// The answer for the `j`-th node asked; a missing answer counts as a failed call.
pub open spec fn answer_at(answers: Seq<Result<LookupInvoiceResponse, ClusterError>>, j: int) -> Result<
    LookupInvoiceResponse,
    ClusterError,
> {
    if j < answers.len() {
        answers[j]
    } else {
        Err(ClusterError::UpstreamRequestFailed)
    }
}

/// What each node asked made of its answer.
pub open spec fn lookup_results(
    nodes: Seq<Node>,
    targets: Seq<usize>,
    answers: Seq<Result<LookupInvoiceResponse, ClusterError>>,
) -> Seq<Result<InvoiceView, ClusterError>> {
    Seq::new(
        targets.len(),
        |j: int|
            if (targets[j] as int) < nodes.len() {
                nodes[targets[j] as int].lookup_view(answer_at(answers, j))
            } else {
                Err(ClusterError::NodeNotFound)
            },
    )
}

/// The first invoice among the results, in the order the nodes were asked.
pub open spec fn first_found(rs: Seq<Result<InvoiceView, ClusterError>>) -> Option<InvoiceView>
    decreases rs.len(),
{
    if rs.len() == 0 {
        None
    } else {
        match first_found(rs.drop_last()) {
            Some(v) => Some(v),
            None => match rs.last() {
                Ok(v) => Some(v),
                Err(_) => None,
            },
        }
    }
}

/// The first failure among the results, in the order the nodes were asked.
pub open spec fn first_failure(rs: Seq<Result<InvoiceView, ClusterError>>) -> Option<ClusterError>
    decreases rs.len(),
{
    if rs.len() == 0 {
        None
    } else {
        match first_failure(rs.drop_last()) {
            Some(e) => Some(e),
            None => match rs.last() {
                Ok(_) => None,
                Err(e) => Some(e),
            },
        }
    }
}

/// What a lookup returns: the cached invoice; or the first invoice that a
/// node asked produced; or, where none did, `AllNodesFailed` after asking
/// every node, and the owner's failure after asking the owner.
pub open spec fn lookup_outcome(
    nodes: Seq<Node>,
    plan: LookupPlan,
    answers: Seq<Result<LookupInvoiceResponse, ClusterError>>,
) -> Result<InvoiceView, ClusterError> {
    match plan {
        LookupPlan::Cached(inv) => Ok(inv@),
        LookupPlan::Ask(q) => {
            let rs = lookup_results(nodes, q.targets@, answers);
            match first_found(rs) {
                Some(v) => Ok(v),
                None => if q.broadcast {
                    Err(ClusterError::AllNodesFailed)
                } else {
                    match first_failure(rs) {
                        Some(e) => Err(e),
                        None => Err(ClusterError::NodeNotFound),
                    }
                },
            }
        },
    }
}

/// No result is an invoice exactly when the first invoice is missing; and a
/// first invoice is one of the results.
pub proof fn lemma_first_found(rs: Seq<Result<InvoiceView, ClusterError>>)
    ensures
        first_found(rs) is None <==> forall|j: int| 0 <= j < rs.len() ==> (#[trigger] rs[j]) is Err,
        first_found(rs) matches Some(v) ==> exists|j: int| 0 <= j < rs.len() && rs[j] == Ok::<InvoiceView, ClusterError>(v),
    decreases rs.len(),
{
    if rs.len() > 0 {
        let init = rs.drop_last();
        lemma_first_found(init);
        assert forall|j: int| 0 <= j < init.len() implies rs[j] == #[trigger] init[j] by {}
        assert(rs.last() == rs[rs.len() - 1]);
        if let Some(v) = first_found(init) {
            let j = choose|j: int| 0 <= j < init.len() && init[j] == Ok::<InvoiceView, ClusterError>(v);
            assert(rs[j] is Ok);
        } else if rs.last() is Err {
            assert forall|j: int| 0 <= j < rs.len() implies (#[trigger] rs[j]) is Err by {
                if j < init.len() {
                    assert(init[j] is Err);
                }
            }
        }
    }
}

impl Cluster {
    /// Starts a lookup of the invoice with hash `r_hash`, which may come as
    /// hexadecimal or base64: serves it from the cache, or says which nodes
    /// to ask — the owner `pubkey` if the caller named one, else every node.
    pub fn lookup_invoice(&self, r_hash: &str, pubkey: Option<String>, now: u64) -> (r: Result<LookupPlan, ClusterError>)
        ensures
            step_of(r) == planned_lookup(self.nodes@, self.cache.invoices@, r_hash@, pubkey.deep_view(), now as int),
    {
        let key = to_hex(r_hash)?;
        if let Some(inv) = self.cache.invoices.get(&key, now) {
            return Ok(LookupPlan::Cached(inv.clone()));
        }
        match pubkey {
            Some(pk) => match self.find_node(&pk) {
                Some(i) => {
                    let targets = vec![i];
                    assert(targets@ =~= seq![i]);
                    Ok(LookupPlan::Ask(LookupQuery { key, targets, broadcast: false }))
                },
                None => Err(ClusterError::NodeNotFound),
            },
            None => {
                let mut targets: Vec<usize> = Vec::new();
                let mut i: usize = 0;
                while i < self.nodes.len()
                    invariant
                        i <= self.nodes@.len(),
                        targets@ =~= all_positions(i as nat),
                    decreases self.nodes@.len() - i,
                {
                    targets.push(i);
                    i = i + 1;
                }
                Ok(LookupPlan::Ask(LookupQuery { key, targets, broadcast: true }))
            },
        }
    }

    /// Completes a lookup with the answers of the nodes that its plan asked,
    /// given in the plan's order. An invoice that a node produced is cached
    /// under the plan's key for the invoice lifetime, and returned; a failed
    /// lookup leaves the cache as it was.
    pub fn complete_lookup_invoice(
        &mut self,
        plan: LookupPlan,
        answers: Vec<Result<LookupInvoiceResponse, ClusterError>>,
        now: u64,
    ) -> (r: Result<ClusterLookupInvoice, ClusterError>)
        ensures
            match r {
                Ok(inv) => lookup_outcome(old(self).nodes@, plan, answers@) == Ok::<InvoiceView, ClusterError>(inv@),
                Err(e) => lookup_outcome(old(self).nodes@, plan, answers@) == Err::<InvoiceView, ClusterError>(e),
            },
            match (plan, r) {
                (LookupPlan::Ask(q), Ok(inv)) => final(self).cache.invoices@ == old(self).cache.invoices@.insert(
                    q.key@,
                    CacheEntry { value: inv, inserted_at: now, ttl: old(self).inv_exp_sec },
                ),
                _ => final(self).cache.invoices == old(self).cache.invoices,
            },
            final(self).nodes == old(self).nodes,
            final(self).inv_exp_sec == old(self).inv_exp_sec,
            final(self).addr_exp_sec == old(self).addr_exp_sec,
            final(self).utxo_exp_sec == old(self).utxo_exp_sec,
            final(self).cache.addresses == old(self).cache.addresses,
            final(self).cache.utxos == old(self).cache.utxos,
    {
        let q = match plan {
            LookupPlan::Cached(inv) => return Ok(inv),
            LookupPlan::Ask(q) => q,
        };
        let ghost all = answers@;
        let ghost rs = lookup_results(self.nodes@, q.targets@, all);
        let mut rest = answers;
        let mut found: Option<ClusterLookupInvoice> = None;
        let mut failure: Option<ClusterError> = None;
        let mut j: usize = 0;
        while j < q.targets.len()
            invariant
                j <= q.targets@.len(),
                rs == lookup_results(self.nodes@, q.targets@, all),
                rest@ == all.subrange(if j < all.len() { j as int } else { all.len() as int }, all.len() as int),
                match found {
                    Some(inv) => first_found(rs.take(j as int)) == Some(inv@),
                    None => first_found(rs.take(j as int)) is None,
                },
                failure == first_failure(rs.take(j as int)),
            decreases q.targets@.len() - j,
        {
            let answer = if rest.len() > 0 {
                rest.remove(0)
            } else {
                Err(ClusterError::UpstreamRequestFailed)
            };
            assert(answer == answer_at(all, j as int));
            let t = q.targets[j];
            let result = if t < self.nodes.len() {
                self.nodes[t].lookup_invoice(answer)
            } else {
                Err(ClusterError::NodeNotFound)
            };
            assert(rs.take(j + 1).drop_last() =~= rs.take(j as int));
            assert(rs.take(j + 1).last() == rs[j as int]);
            match result {
                Ok(inv) => {
                    if found.is_none() {
                        found = Some(inv);
                    }
                },
                Err(e) => {
                    if failure.is_none() {
                        failure = Some(e);
                    }
                },
            }
            j = j + 1;
        }
        assert(rs.take(j as int) =~= rs);
        match found {
            Some(inv) => {
                self.cache.invoices.set(q.key, inv.clone(), self.inv_exp_sec, now);
                Ok(inv)
            },
            None => if q.broadcast {
                Err(ClusterError::AllNodesFailed)
            } else {
                match failure {
                    Some(e) => Err(e),
                    None => Err(ClusterError::NodeNotFound),
                }
            },
        }
    }
}

/// A lookup that asked the nodes and found an invoice at `now` leaves it in
/// the cache: until the invoice lifetime has passed, a lookup of the same
/// hash, with or without an owner, is served that very invoice and asks no
/// node.
pub proof fn lemma_found_invoice_is_served_from_cache(
    cluster: Cluster,
    r_hash: Seq<char>,
    pubkey: Option<Seq<char>>,
    again: Option<Seq<char>>,
    plan: LookupPlan,
    invoice: ClusterLookupInvoice,
    now: u64,
    later: int,
)
    requires
        step_of(Ok(plan)) == planned_lookup(cluster.nodes@, cluster.cache.invoices@, r_hash, pubkey, now as int),
        plan is Ask,
        later < now + cluster.inv_exp_sec,
    ensures
        planned_lookup(
            cluster.nodes@,
            cluster.cache.invoices@.insert(
                plan->Ask_0.key@,
                CacheEntry { value: invoice, inserted_at: now, ttl: cluster.inv_exp_sec },
            ),
            r_hash,
            again,
            later,
        ) == LookupStep::Serve(invoice),
{
}

/// A lookup that names an owner that no configured node has, and that the
/// cache cannot serve, is refused with `NodeNotFound` before any node is asked.
pub proof fn lemma_unknown_owner_is_refused(
    nodes: Seq<Node>,
    invoices: Map<Seq<char>, CacheEntry<ClusterLookupInvoice>>,
    r_hash: Seq<char>,
    pubkey: Seq<char>,
    now: int,
)
    requires
        !has_node(nodes, pubkey),
        canonical_hex_of(r_hash) matches Some(key) && live_in(invoices, key, now) is None,
    ensures
        planned_lookup(nodes, invoices, r_hash, Some(pubkey), now) == LookupStep::Refuse(ClusterError::NodeNotFound),
{
    lemma_position_iff_configured(nodes, pubkey);
}

/// A lookup sent to every node, where every node fails, fails with
/// `AllNodesFailed` (and so caches nothing); the same lookup succeeds as soon
/// as one node produces the invoice.
pub proof fn lemma_failed_lookup_is_not_remembered(
    nodes: Seq<Node>,
    query: LookupQuery,
    failed: Seq<Result<LookupInvoiceResponse, ClusterError>>,
    retried: Seq<Result<LookupInvoiceResponse, ClusterError>>,
    j: int,
)
    requires
        query.broadcast,
        forall|k: int|
            0 <= k < query.targets@.len() ==> (#[trigger] lookup_results(nodes, query.targets@, failed)[k]) is Err,
        0 <= j < query.targets@.len(),
        lookup_results(nodes, query.targets@, retried)[j] is Ok,
    ensures
        lookup_outcome(nodes, LookupPlan::Ask(query), failed) == Err::<InvoiceView, ClusterError>(
            ClusterError::AllNodesFailed,
        ),
        lookup_outcome(nodes, LookupPlan::Ask(query), retried) is Ok,
{
    lemma_first_found(lookup_results(nodes, query.targets@, failed));
    lemma_first_found(lookup_results(nodes, query.targets@, retried));
}

/// Whatever a lookup returns carries its hash and preimage in the canonical
/// encoding.
pub proof fn lemma_lookup_fields_are_canonical(
    nodes: Seq<Node>,
    query: LookupQuery,
    answers: Seq<Result<LookupInvoiceResponse, ClusterError>>,
)
    ensures
        lookup_outcome(nodes, LookupPlan::Ask(query), answers) matches Ok(v) ==> is_canonical_hex(v.r_hash)
            && is_canonical_hex(v.r_preimage),
{
    let rs = lookup_results(nodes, query.targets@, answers);
    lemma_first_found(rs);
    if let Some(v) = first_found(rs) {
        let j = choose|j: int| 0 <= j < rs.len() && rs[j] == Ok::<InvoiceView, ClusterError>(v);
        let resp = answer_at(answers, j)->Ok_0;
        lemma_canonical_hex_of_is_canonical(resp.r_hash@);
        lemma_canonical_hex_of_is_canonical(resp.r_preimage@);
    }
}

/// One node's part of a listing of unspent outputs: the node, and its
/// outputs once they are known (from the cache, or fetched).
#[derive(Debug)]
pub struct UtxoSlot {
    pub node: usize,
    pub utxos: Option<ClusterUtxos>,
}

/// The outputs of the slots, one slot after another; unknown parts add nothing.
pub open spec fn gathered(slots: Seq<UtxoSlot>) -> Seq<ClusterUtxo>
    decreases slots.len(),
{
    if slots.len() == 0 {
        Seq::empty()
    } else {
        gathered(slots.drop_last()) + match slots.last().utxos {
            Some(set) => set.utxos@,
            None => Seq::empty(),
        }
    }
}

/// Whether every slot's outputs are known.
pub open spec fn all_known(slots: Seq<UtxoSlot>) -> bool {
    forall|i: int| 0 <= i < slots.len() ==> (#[trigger] slots[i]).utxos is Some
}

/// Whether two optional sets of outputs hold the same outputs.
pub open spec fn same_outputs(a: Option<ClusterUtxos>, b: Option<ClusterUtxos>) -> bool {
    match (a, b) {
        (Some(x), Some(y)) => x.utxos@ == y.utxos@,
        (None, None) => true,
        _ => false,
    }
}

/// The slot for the node at `i`, with what the cache serves at `now`.
pub open spec fn is_slot_for(cluster: Cluster, slot: UtxoSlot, i: int, now: int) -> bool {
    &&& slot.node == i
    &&& same_outputs(slot.utxos, live_in(cluster.cache.utxos@, cluster.nodes@[i].pubkey@, now))
}

impl Cluster {
    /// Starts a listing of unspent outputs: one slot for the node with public
    /// key `pubkey`, or one per node in node order when none is named, each
    /// holding the node's outputs if the cache serves them at `now`.
    pub fn list_utxos(&self, pubkey: Option<String>, now: u64) -> (r: Result<Vec<UtxoSlot>, ClusterError>)
        ensures
            match pubkey {
                Some(pk) => match node_position(self.nodes@, pk@) {
                    Some(i) => r matches Ok(slots) && slots@.len() == 1 && is_slot_for(*self, slots@[0], i, now as int),
                    None => r == Err::<Vec<UtxoSlot>, ClusterError>(ClusterError::NodeNotFound),
                },
                None => r matches Ok(slots) && slots@.len() == self.nodes@.len() && forall|i: int|
                    0 <= i < slots@.len() ==> is_slot_for(*self, #[trigger] slots@[i], i, now as int),
            },
    {
        match pubkey {
            Some(pk) => match self.find_node(&pk) {
                Some(i) => {
                    let slot = self.slot_for(i, now);
                    Ok(vec![slot])
                },
                None => Err(ClusterError::NodeNotFound),
            },
            None => {
                let mut slots: Vec<UtxoSlot> = Vec::new();
                let mut i: usize = 0;
                while i < self.nodes.len()
                    invariant
                        i <= self.nodes@.len(),
                        slots@.len() == i,
                        forall|k: int| 0 <= k < i ==> is_slot_for(*self, #[trigger] slots@[k], k, now as int),
                    decreases self.nodes@.len() - i,
                {
                    let slot = self.slot_for(i, now);
                    slots.push(slot);
                    i = i + 1;
                }
                Ok(slots)
            },
        }
    }

    /// The slot for the node at `i`, filled from the cache where it can be.
    fn slot_for(&self, i: usize, now: u64) -> (r: UtxoSlot)
        requires
            i < self.nodes@.len(),
        ensures
            is_slot_for(*self, r, i as int, now as int),
    {
        let utxos = match self.cache.utxos.get(&self.nodes[i].pubkey, now) {
            Some(set) => Some(set.clone()),
            None => None,
        };
        UtxoSlot { node: i, utxos }
    }

    /// Fills `slot` with its node's answer to a request for the unspent
    /// outputs, and caches them under the node's public key for the outputs
    /// lifetime. A failed answer leaves the slot and the cache as they were.
    pub fn fill_utxos(&mut self, slot: &mut UtxoSlot, answer: Result<ListUnspentResponse, ClusterError>, now: u64) -> (r:
        Result<(), ClusterError>)
        ensures
            final(self).nodes == old(self).nodes,
            final(self).inv_exp_sec == old(self).inv_exp_sec,
            final(self).addr_exp_sec == old(self).addr_exp_sec,
            final(self).utxo_exp_sec == old(self).utxo_exp_sec,
            final(self).cache.invoices == old(self).cache.invoices,
            final(self).cache.addresses == old(self).cache.addresses,
            final(slot).node == old(slot).node,
            old(slot).node >= old(self).nodes@.len() ==> r == Err::<(), ClusterError>(ClusterError::NodeNotFound),
            old(slot).node < old(self).nodes@.len() ==> match old(self).nodes@[old(slot).node as int].utxos_view(
                answer,
            ) {
                Ok(v) => {
                    &&& r is Ok
                    &&& final(slot).utxos matches Some(set) && set@ == v
                    &&& final(self).cache.utxos@ == old(self).cache.utxos@.insert(
                        old(self).nodes@[old(slot).node as int].pubkey@,
                        final(self).cache.utxos@[old(self).nodes@[old(slot).node as int].pubkey@],
                    )
                    &&& final(self).cache.utxos@[old(self).nodes@[old(slot).node as int].pubkey@] matches CacheEntry {
                        value: stored,
                        inserted_at,
                        ttl,
                    } && stored.utxos@ == final(slot).utxos.unwrap().utxos@ && inserted_at == now && ttl
                        == old(self).utxo_exp_sec
                },
                Err(e) => r == Err::<(), ClusterError>(e),
            },
            r is Err ==> *final(slot) == *old(slot) && final(self).cache.utxos == old(self).cache.utxos,
    {
        if slot.node >= self.nodes.len() {
            return Err(ClusterError::NodeNotFound);
        }
        let set = self.nodes[slot.node].list_utxos(answer)?;
        let owner = self.nodes[slot.node].pubkey.clone();
        self.cache.utxos.set(owner, set.clone(), self.utxo_exp_sec, now);
        slot.utxos = Some(set);
        Ok(())
    }

    /// Completes a listing: the outputs of all slots, one slot after another.
    /// Fails with `UpstreamRequestFailed` if a slot's outputs are unknown,
    /// rather than hand out a partial listing.
    pub fn gather_utxos(slots: &Vec<UtxoSlot>) -> (r: Result<ClusterUtxos, ClusterError>)
        ensures
            all_known(slots@) ==> (r matches Ok(set) && set.utxos@ == gathered(slots@)),
            !all_known(slots@) ==> r == Err::<ClusterUtxos, ClusterError>(ClusterError::UpstreamRequestFailed),
    {
        let mut utxos: Vec<ClusterUtxo> = Vec::new();
        let mut i: usize = 0;
        while i < slots.len()
            invariant
                i <= slots@.len(),
                all_known(slots@.take(i as int)),
                utxos@ == gathered(slots@.take(i as int)),
            decreases slots@.len() - i,
        {
            assert(slots@.take(i + 1).drop_last() =~= slots@.take(i as int));
            assert(slots@.take(i + 1).last() == slots@[i as int]);
            match &slots[i].utxos {
                Some(set) => {
                    let ghost before = utxos@;
                    let mut k: usize = 0;
                    while k < set.utxos.len()
                        invariant
                            k <= set.utxos@.len(),
                            utxos@ == before + set.utxos@.take(k as int),
                        decreases set.utxos@.len() - k,
                    {
                        utxos.push(set.utxos[k].clone());
                        assert(set.utxos@.take(k + 1) =~= set.utxos@.take(k as int).push(set.utxos@[k as int]));
                        assert(utxos@ =~= before + set.utxos@.take(k + 1));
                        k = k + 1;
                    }
                    assert(set.utxos@.take(k as int) =~= set.utxos@);
                    assert(all_known(slots@.take(i + 1))) by {
                        assert forall|j: int| 0 <= j < i + 1 implies (#[trigger] slots@.take(i + 1)[j]).utxos is Some by {
                            if j < i {
                                assert(slots@.take(i + 1)[j] == slots@.take(i as int)[j]);
                            }
                        }
                    }
                },
                None => {
                    assert(!all_known(slots@)) by {
                        assert(slots@[i as int].utxos is None);
                    }
                    return Err(ClusterError::UpstreamRequestFailed);
                },
            }
            i = i + 1;
        }
        assert(slots@.take(i as int) =~= slots@);
        Ok(ClusterUtxos { utxos })
    }
}

} // verus!
