//! A per-account hierarchical file/folder namespace, addressed by path
//! strings and stored as independent flat records in a point-access
//! key-value table.  Every mutating operation passes an owner/allow-list
//! permission check, read queries pass a viewing-key gate, and an account
//! can retire its whole tree by bumping a generation counter.

pub mod kv;
pub mod path;
pub mod error;
pub mod backend;
pub mod state;
pub mod tree;
pub mod perms;
pub mod viewing_key;
pub mod msg;
pub mod nodes;
pub mod contract;
pub mod laws;
