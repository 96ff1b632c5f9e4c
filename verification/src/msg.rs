//! The operation and response shapes the dispatch layer hands in and out.
//! The host's wire encoding stays outside; here they are plain values.

use vstd::prelude::*;

use crate::backend::File;
use crate::state::Node;
use crate::viewing_key::ViewingKey;

verus! {

/// Instantiation arguments: entropy for the stored seed.
#[derive(Debug)]
pub struct InitMsg {
    pub prng_seed: String,
}

/// Every mutating operation.
#[derive(Debug)]
pub enum HandleMsg {
    InitAddress { contents: String, entropy: String },
    Create { contents: String, path: String, pkey: String, skey: String },
    CreateMulti {
        contents_list: Vec<String>,
        path_list: Vec<String>,
        pkey_list: Vec<String>,
        skey_list: Vec<String>,
    },
    Remove { path: String },
    RemoveMulti { path_list: Vec<String> },
    Move { old_path: String, new_path: String },
    MoveMulti { old_path_list: Vec<String>, new_path_list: Vec<String> },
    CreateViewingKey { entropy: String, padding: Option<String> },
    AllowRead { path: String, address_list: Vec<String> },
    DisallowRead { path: String, address_list: Vec<String> },
    ResetRead { path: String },
    AllowWrite { path: String, address_list: Vec<String> },
    DisallowWrite { path: String, address_list: Vec<String> },
    ResetWrite { path: String },
    InitNode { ip: String, address: String },
    ForgetMe {},
    ChangeOwner { path: String, new_owner: String },
}

/// Every read query.
#[derive(Debug)]
pub enum QueryMsg {
    GetContents { behalf: String, path: String, key: String },
    GetNodeIP { index: u64 },
    GetNodeListSize {},
    GetNodeList { size: u64 },
    YouUpBro { address: String },
    GetWalletInfo { behalf: String, key: String },
}

impl QueryMsg {
    /// Whether the query must pass the viewing-key gate.
    pub open spec fn is_authenticated(&self) -> bool {
        self matches QueryMsg::GetContents { .. } || self matches QueryMsg::GetWalletInfo { .. }
    }

    /// The declared identity and presented token of an authenticated query.
    pub fn get_validation_params(&self) -> (r: (Vec<String>, ViewingKey))
        requires
            self.is_authenticated(),
        ensures
            r.0@.len() == 1,
            match self {
                QueryMsg::GetContents { behalf, key, .. } => r.0@[0]@ == behalf@ && r.1@ == key@,
                QueryMsg::GetWalletInfo { behalf, key, .. } => r.0@[0]@ == behalf@ && r.1@ == key@,
                _ => false,
            },
    {
        match self {
            QueryMsg::GetContents { behalf, key, .. } => {
                let mut addresses: Vec<String> = Vec::new();
                addresses.push(behalf.clone());
                (addresses, ViewingKey(key.clone()))
            },
            QueryMsg::GetWalletInfo { behalf, key } => {
                let mut addresses: Vec<String> = Vec::new();
                addresses.push(behalf.clone());
                (addresses, ViewingKey(key.clone()))
            },
            _ => {
                proof {
                    assert(false);
                }
                (Vec::new(), ViewingKey(String::new()))
            },
        }
    }
}

/// Outcome of a mutating operation.
#[derive(Debug, PartialEq, Eq, Structural)]
pub enum ResponseStatus {
    Success,
    Failure,
}

/// What `handle` reports back.
#[derive(Debug)]
pub enum HandleAnswer {
    DefaultAnswer { status: ResponseStatus },
    CreateViewingKey { key: ViewingKey },
}

/// Account facts a wallet query reports.
#[derive(Debug, PartialEq)]
pub struct WalletInfoResponse {
    pub init: bool,
    pub namespace: String,
    pub counter: i32,
}

/// The record a contents query returns.
#[derive(Debug, PartialEq)]
pub struct FileResponse {
    pub file: File,
}

/// A folder's listing, as a query returns it.
#[derive(Debug, PartialEq)]
pub struct FolderContentsResponse {
    pub parent: String,
    pub folders: Vec<String>,
    pub files: Vec<String>,
}

/// A whole subtree flattened into folder and file paths.
#[derive(Debug, PartialEq)]
pub struct BigTreeResponse {
    pub folders: Vec<String>,
    pub files: Vec<String>,
}

/// What `query` reports back.
#[derive(Debug)]
pub enum QueryAnswer {
    File(FileResponse),
    WalletInfo(WalletInfoResponse),
    NodeIp(String),
    NodeList(Vec<Node>),
    NodeListSize(u64),
}

} // verus!
