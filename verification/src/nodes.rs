//! The node registry and claim-code reward ledger: an indexed list of
//! node addresses, per-node data, and a keyed coin counter redeemed
//! through claim codes written at file creation.
use vstd::prelude::*;

use crate::msg::{ContractError, HandleResponse, QueryAnswer};
use crate::numstr::{dec_digits, dec_string};
use crate::store::{Store, StoreV};

verus! {

/// The record kept for one registered node.
#[derive(Debug)]
pub struct NodeData {
    score: u32,
    secret_address: String,
}

pub struct NodeDataV {
    pub score: u32,
    pub secret_address: Seq<char>,
}

impl View for NodeData {
    type V = NodeDataV;

    closed spec fn view(&self) -> NodeDataV {
        NodeDataV { score: self.score, secret_address: self.secret_address@ }
    }
}

impl DeepView for NodeData {
    type V = NodeDataV;

    open spec fn deep_view(&self) -> NodeDataV {
        self.view()
    }
}

impl Clone for NodeData {
    fn clone(&self) -> (r: Self)
        ensures
            r@ == self@,
    {
        NodeData { score: self.score, secret_address: self.secret_address.clone() }
    }
}

/// The indexed node list is well formed: every index below the recorded
/// size resolves to a stored address.
pub open spec fn nodes_wf(s: StoreV) -> bool {
    s.node_size matches Some(size) ==> forall|i: nat|
        i < size ==> s.node_locs.contains_key(#[trigger] dec_digits(i))
}

/// The coin balance an address has claimed so far.
pub fn pub_query_coins(store: &Store, address: String) -> (r: Result<QueryAnswer, ContractError>)
    requires
        store.wf(),
    ensures
        r matches Ok(QueryAnswer::NodeCoins(c)) && c == (if store@.coins.contains_key(address@) {
            store@.coins[address@]
        } else {
            0
        }),
{
    Ok(QueryAnswer::NodeCoins(query_coins(store, address)))
}

fn query_coins(store: &Store, address: String) -> (r: u32)
    requires
        store.wf(),
    ensures
        r == (if store@.coins.contains_key(address@) {
            store@.coins[address@]
        } else {
            0
        }),
{
    match store.coins.get(&address) {
        Some(c) => *c,
        None => 0,
    }
}

/// The contract of redemption.
pub open spec fn claim_post(
    pre: StoreV,
    post: StoreV,
    r: Result<HandleResponse, ContractError>,
    claim_path: Seq<char>,
    claim_code: Seq<char>,
    address: Seq<char>,
) -> bool {
    &&& r is Ok
    &&& post == (if pre.claims[claim_path] == claim_code {
        StoreV {
            coins: pre.coins.insert(
                address,
                ((if pre.coins.contains_key(address) {
                    pre.coins[address]
                } else {
                    0
                }) + 1) as u32,
            ),
            claims: pre.claims.remove(claim_path),
            ..pre
        }
    } else {
        pre
    })
}

/// Redeems a claim code: when the code matches the stored record, the
/// address's coin count steps up and the record is consumed.
pub fn claim(store: &mut Store, claim_path: String, claim_code: String, address: String) -> (r:
    Result<HandleResponse, ContractError>)
    requires
        old(store).wf(),
        old(store)@.claims.contains_key(claim_path@),
        old(store)@.claims[claim_path@] == claim_code@ ==> (old(store)@.coins.contains_key(
            address@,
        ) ==> old(store)@.coins[address@] < u32::MAX),
    ensures
        final(store).wf(),
        claim_post(old(store)@, final(store)@, r, claim_path@, claim_code@, address@),
{
    let resp: String = match store.claims.get(&claim_path) {
        Some(s) => s.clone(),
        None => {
            proof {
                assert(false);
            }
            String::new()
        },
    };
    let count_resp = store.coins.get(&address);
    let mut old_count: u32 = 0;
    match count_resp {
        Some(count) => {
            old_count = *count;
        },
        None => {},
    }
    if claim_code.eq(&resp) {
        let new_count = old_count + 1;
        store.coins.insert(address, new_count);
        store.claims.remove(&claim_path);
    }
    Ok(HandleResponse::default())
}

/// Records a claim code for later redemption, keyed by the code.
pub fn write_claim(store: &mut Store, claim_path: String, claim_code: String)
    requires
        old(store).wf(),
    ensures
        final(store).wf(),
        final(store)@ == (StoreV {
            claims: old(store)@.claims.insert(claim_code@, claim_path@),
            ..old(store)@
        }),
{
    store.claims.insert(claim_code, claim_path);
}

/// The address of the node at an index, or a marker for an index past
/// the end of the list.
pub fn get_node(store: &Store, index: u64) -> (r: String)
    requires
        store.wf(),
        store@.node_size is Some,
        nodes_wf(store@),
    ensures
        r@ == (if index < store@.node_size.unwrap() {
            store@.node_locs[dec_digits(index as nat)]
        } else {
            "null"@
        }),
{
    let size = get_node_size(store);
    if index >= size {
        return "null".to_owned();
    }
    load_node_loc(store, dec_string(index))
}

/// Appends a node to the registry: its address at the next index, its
/// record keyed by address, and the size stepped up.
pub fn push_node(store: &mut Store, ip: String, address: String)
    requires
        old(store).wf(),
        old(store)@.node_size matches Some(size) && size < u64::MAX,
        nodes_wf(old(store)@),
    ensures
        final(store).wf(),
        nodes_wf(final(store)@),
        final(store)@ == (StoreV {
            node_size: Some((old(store)@.node_size.unwrap() + 1) as u64),
            node_locs: old(store)@.node_locs.insert(
                dec_digits(old(store)@.node_size.unwrap() as nat),
                ip@,
            ),
            node_data: old(store)@.node_data.insert(
                ip@,
                NodeDataV { score: 500, secret_address: address@ },
            ),
            ..old(store)@
        }),
{
    let size = get_node_size(store);
    save_node_loc(store, dec_string(size), ip.clone());
    let node = NodeData { score: 500, secret_address: address };
    save_node_data(store, ip, node);
    let size = size + 1;
    set_node_size(store, size);
}

pub fn set_node_size(store: &mut Store, size: u64)
    requires
        old(store).wf(),
    ensures
        final(store).wf(),
        final(store)@ == (StoreV { node_size: Some(size), ..old(store)@ }),
{
    store.node_size = Some(size);
}

pub fn get_node_size(store: &Store) -> (r: u64)
    requires
        store.wf(),
        store@.node_size is Some,
    ensures
        r == store@.node_size.unwrap(),
{
    match store.node_size {
        Some(s) => s,
        None => {
            proof {
                assert(false);
            }
            0
        },
    }
}

pub fn save_node_loc(store: &mut Store, loc: String, ipaddress: String)
    requires
        old(store).wf(),
    ensures
        final(store).wf(),
        final(store)@ == (StoreV {
            node_locs: old(store)@.node_locs.insert(loc@, ipaddress@),
            ..old(store)@
        }),
{
    store.node_locs.insert(loc, ipaddress);
}

pub fn load_node_loc(store: &Store, loc: String) -> (r: String)
    requires
        store.wf(),
        store@.node_locs.contains_key(loc@),
    ensures
        r@ == store@.node_locs[loc@],
{
    match store.node_locs.get(&loc) {
        Some(ip) => ip.clone(),
        None => {
            proof {
                assert(false);
            }
            String::new()
        },
    }
}

pub fn save_node_data(store: &mut Store, ipaddress: String, node_data: NodeData)
    requires
        old(store).wf(),
    ensures
        final(store).wf(),
        final(store)@ == (StoreV {
            node_data: old(store)@.node_data.insert(ipaddress@, node_data@),
            ..old(store)@
        }),
{
    store.node_data.insert(ipaddress, node_data);
}

pub fn load_node_data(store: &Store, ipaddress: String) -> (r: NodeData)
    requires
        store.wf(),
        store@.node_data.contains_key(ipaddress@),
    ensures
        r@ == store@.node_data[ipaddress@],
{
    match store.node_data.get(&ipaddress) {
        Some(n) => n.clone(),
        None => {
            proof {
                assert(false);
            }
            NodeData { score: 0, secret_address: String::new() }
        },
    }
}

} // verus!
