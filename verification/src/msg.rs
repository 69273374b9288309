//! The operation surface of the contract: the transaction context, the
//! handle and query messages, the answers they produce, and the error
//! kinds every operation can fail with.
use vstd::prelude::*;

use crate::backend::File;
use crate::messaging::Message;
use crate::viewing_key::ViewingKey;

verus! {

/// The context of one invocation: the signer resolved by the router and
/// the block the transaction sits in.
pub struct Env {
    pub block_height: u64,
    pub block_time: u64,
    pub sender: String,
}

/// The error kinds of the contract.
#[derive(Debug)]
pub enum ContractError {
    /// A path, parent, account, or record is absent.
    NotFound { kind: String },
    /// An authorization predicate failed.
    Unauthorized { msg: String },
    /// An account was initialized twice.
    AlreadyInitialized,
    /// A structural expectation of the stored data failed.
    InvalidState { msg: String },
}

pub struct InitMsg {
    pub prng_seed: String,
}

pub enum HandleMsg {
    InitAddress { contents: String, entropy: String },
    Create { contents: String, path: String, pkey: String, skey: String },
    CreateMulti {
        contents_list: Vec<String>,
        path_list: Vec<String>,
        pkey_list: Vec<String>,
        skey_list: Vec<String>,
    },
    Remove { path: String },
    RemoveMulti { path_list: Vec<String> },
    Move { old_path: String, new_path: String },
    MoveMulti { old_path_list: Vec<String>, new_path_list: Vec<String> },
    CreateViewingKey { entropy: String, padding: Option<String> },
    AllowRead { path: String, message: String, address_list: Vec<String> },
    DisallowRead { path: String, message: String, notify: bool, address_list: Vec<String> },
    ResetRead { path: String, message: String, notify: bool },
    AllowWrite { path: String, message: String, address_list: Vec<String> },
    DisallowWrite { path: String, message: String, notify: bool, address_list: Vec<String> },
    ResetWrite { path: String, message: String, notify: bool },
    InitNode { ip: String, address: String },
    ClaimReward { path: String, key: String, address: String },
    ForgetMe {},
    ChangeOwner { path: String, message: String, new_owner: String },
    SendMessage { to: String, contents: String },
    DeleteAllMessages {},
}

pub enum QueryMsg {
    GetContents { behalf: String, path: String, key: String },
    GetNodeIP { index: u64 },
    GetNodeListSize {},
    GetNodeList { size: u64 },
    GetNodeCoins { address: String },
    YouUpBro { address: String },
    GetWalletInfo { behalf: String, key: String },
    GetMessages { behalf: String, key: String },
}

#[derive(Debug)]
pub enum HandleAnswer {
    DefaultAnswer { status: ResponseStatus },
    CreateViewingKey { key: ViewingKey },
}

#[derive(Debug, PartialEq)]
pub enum ResponseStatus {
    Success,
    Failure,
}

#[derive(Debug)]
pub struct HandleResponse {
    pub messages: Vec<String>,
    pub data: Option<HandleAnswer>,
}

impl Default for HandleResponse {
    fn default() -> (r: Self)
        ensures
            r.messages@.len() == 0,
            r.data is None,
    {
        HandleResponse { messages: Vec::new(), data: None }
    }
}

#[derive(Debug)]
pub struct InitResponse {
    pub messages: Vec<String>,
}

impl Default for InitResponse {
    fn default() -> (r: Self)
        ensures
            r.messages@.len() == 0,
    {
        InitResponse { messages: Vec::new() }
    }
}

#[derive(Debug, PartialEq)]
pub struct WalletInfoResponse {
    pub init: bool,
    pub namespace: String,
    pub counter: i32,
    pub message_list_counter: i32,
}

#[derive(Debug)]
pub struct FileResponse {
    pub file: File,
}

#[derive(Debug)]
pub struct FolderContentsResponse {
    pub parent: String,
    pub folders: Vec<String>,
    pub files: Vec<String>,
}

#[derive(Debug)]
pub struct BigTreeResponse {
    pub folders: Vec<String>,
    pub files: Vec<String>,
}

#[derive(Debug)]
pub struct MessageResponse {
    pub messages: Vec<Message>,
}

/// The answer to a query, one variant per query kind.
#[derive(Debug)]
pub enum QueryAnswer {
    WalletInfo(WalletInfoResponse),
    File(FileResponse),
    Messages(MessageResponse),
    NodeCoins(u32),
    NodeIp(String),
    NodeList(Vec<String>),
    NodeListSize(u64),
}

impl QueryMsg {
    /// Whether this query is gated by the authentication token.
    pub open spec fn is_authenticated(&self) -> bool {
        match *self {
            QueryMsg::GetContents { .. } => true,
            QueryMsg::GetWalletInfo { .. } => true,
            QueryMsg::GetMessages { .. } => true,
            _ => false,
        }
    }

    pub fn get_validation_params(&self) -> (r: (Vec<String>, ViewingKey))
        requires
            self.is_authenticated(),
        ensures
            r.0@.len() == 1,
            match *self {
                QueryMsg::GetContents { ref behalf, ref key, .. } => r.0@[0]@ == behalf@ && r.1@
                    == key@,
                QueryMsg::GetWalletInfo { ref behalf, ref key, .. } => r.0@[0]@ == behalf@ && r.1@
                    == key@,
                QueryMsg::GetMessages { ref behalf, ref key, .. } => r.0@[0]@ == behalf@ && r.1@
                    == key@,
                _ => false,
            },
    {
        match self {
            QueryMsg::GetContents { behalf, key, .. } => {
                let mut v: Vec<String> = Vec::new();
                v.push(behalf.clone());
                (v, ViewingKey(key.clone()))
            },
            QueryMsg::GetWalletInfo { behalf, key } => {
                let mut v: Vec<String> = Vec::new();
                v.push(behalf.clone());
                (v, ViewingKey(key.clone()))
            },
            QueryMsg::GetMessages { behalf, key } => {
                let mut v: Vec<String> = Vec::new();
                v.push(behalf.clone());
                (v, ViewingKey(key.clone()))
            },
            _ => {
                proof {
                    assert(false);
                }
                (Vec::new(), ViewingKey(String::new()))
            },
        }
    }
}

} // verus!
