//! The contract's slice of the ledger's key-value substrate, modelled as
//! one record per region: account records, path-addressed entries,
//! token hashes, mailbox logs, claim records, and the node registry.
use vstd::prelude::*;

use crate::backend::{file_wf, File, FileV, WalletInfo, WalletInfoV};
use crate::messaging::{Message, MessageV};
use crate::nodes::{NodeData, NodeDataV};
use crate::numstr::dec_digits;
use crate::state::{State, StateV};
use crate::strmap::{StrMap, StrMap2};

verus! {

/// The abstract contents of the store.
pub struct StoreV {
    pub config: Option<StateV>,
    pub wallets: Map<Seq<char>, WalletInfoV>,
    pub files: Map<(Seq<char>, Seq<char>), FileV>,
    pub viewing_keys: Map<Seq<char>, Seq<u8>>,
    pub mailboxes: Map<(Seq<char>, Seq<char>), Seq<MessageV>>,
    pub claims: Map<Seq<char>, Seq<char>>,
    pub coins: Map<Seq<char>, u32>,
    pub node_size: Option<u64>,
    pub node_locs: Map<Seq<char>, Seq<char>>,
    pub node_data: Map<Seq<char>, NodeDataV>,
}

pub struct Store {
    pub config: Option<State>,
    pub wallets: StrMap<WalletInfo>,
    pub files: StrMap2<File>,
    pub viewing_keys: StrMap<Vec<u8>>,
    pub mailboxes: StrMap2<Vec<Message>>,
    pub claims: StrMap<String>,
    pub coins: StrMap<u32>,
    pub node_size: Option<u64>,
    pub node_locs: StrMap<String>,
    pub node_data: StrMap<NodeData>,
}

impl View for Store {
    type V = StoreV;

    open spec fn view(&self) -> StoreV {
        StoreV {
            config: self.config.deep_view(),
            wallets: self.wallets@,
            files: self.files@,
            viewing_keys: self.viewing_keys@,
            mailboxes: self.mailboxes@,
            claims: self.claims@,
            coins: self.coins@,
            node_size: self.node_size,
            node_locs: self.node_locs@,
            node_data: self.node_data@,
        }
    }
}

/// The active file namespace of an account: its address followed by the
/// decimal generation counter.
pub open spec fn full_namespace(owner: Seq<char>, counter: int) -> Seq<char> {
    owner + dec_digits(counter as nat)
}

/// Every stored account record is internally consistent: counters never
/// go negative and the recorded namespace is the address joined with the
/// file generation counter.
pub open spec fn wallet_record_wf(w: WalletInfoV, addr: Seq<char>) -> bool {
    &&& 0 <= w.counter
    &&& 0 <= w.message_list_counter
    &&& w.namespace == full_namespace(addr, w.counter)
}

/// Every stored account record is internally consistent.
pub open spec fn wallets_all_wf(m: Map<Seq<char>, WalletInfoV>) -> bool {
    forall|a: Seq<char>| #[trigger] m.contains_key(a) ==> wallet_record_wf(m[a], a)
}

/// Every stored entry carries duplicate-free grant lists.
pub open spec fn files_all_wf(m: Map<(Seq<char>, Seq<char>), FileV>) -> bool {
    forall|k: (Seq<char>, Seq<char>)| #[trigger] m.contains_key(k) ==> file_wf(m[k])
}

impl Store {
    pub open spec fn wf(&self) -> bool {
        &&& self.wallets.wf()
        &&& self.files.wf()
        &&& self.viewing_keys.wf()
        &&& self.mailboxes.wf()
        &&& self.claims.wf()
        &&& self.coins.wf()
        &&& self.node_locs.wf()
        &&& self.node_data.wf()
        &&& wallets_all_wf(self@.wallets)
        &&& files_all_wf(self@.files)
    }

    /// An empty store: the state before the contract has ever run.
    pub fn new() -> (r: Store)
        ensures
            r.wf(),
            r@.config is None,
            r@.wallets == Map::<Seq<char>, WalletInfoV>::empty(),
            r@.files == Map::<(Seq<char>, Seq<char>), FileV>::empty(),
            r@.viewing_keys == Map::<Seq<char>, Seq<u8>>::empty(),
            r@.mailboxes == Map::<(Seq<char>, Seq<char>), Seq<MessageV>>::empty(),
            r@.claims == Map::<Seq<char>, Seq<char>>::empty(),
            r@.coins == Map::<Seq<char>, u32>::empty(),
            r@.node_size is None,
            r@.node_locs == Map::<Seq<char>, Seq<char>>::empty(),
            r@.node_data == Map::<Seq<char>, NodeDataV>::empty(),
    {
        Store {
            config: None,
            wallets: StrMap::new(),
            files: StrMap2::new(),
            viewing_keys: StrMap::new(),
            mailboxes: StrMap2::new(),
            claims: StrMap::new(),
            coins: StrMap::new(),
            node_size: None,
            node_locs: StrMap::new(),
            node_data: StrMap::new(),
        }
    }
}

/// The deep view of a byte vector is its ordinary view.
pub proof fn lemma_vec_u8_deep_view(v: Vec<u8>)
    ensures
        v.deep_view() == v@,
{
    assert(v.deep_view() =~= v@);
}

} // verus!
