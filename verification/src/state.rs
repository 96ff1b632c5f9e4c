//! The whole persisted contract state: the path-to-record and
//! path-to-listing keyspaces, the per-identity generation counters and
//! viewing-key hashes, the stored seed, and the node registry.  `state_wf`
//! is the global shape invariant: every path listed in a folder resolves
//! to a live record that really is that folder's child.

use vstd::prelude::*;

use crate::backend::{distinct_seqs, File, FileV, Folder, FolderV};
use crate::kv::KvTable;
use crate::path::{dec_str, ends_slash, first_seg, parent_of, seg_rest, split_first_seg, u32_dec_string};

verus! {

/// Abstract value of a registered storage-provider node.
#[verifier::ext_equal]
pub ghost struct NodeV {
    pub ip: Seq<char>,
    pub address: Seq<char>,
}

/// A registered storage-provider node.
#[derive(Debug)]
pub struct Node {
    pub ip: String,
    pub address: String,
}

impl View for Node {
    type V = NodeV;

    open spec fn view(&self) -> NodeV {
        NodeV { ip: self.ip@, address: self.address@ }
    }
}

impl DeepView for Node {
    type V = NodeV;

    open spec fn deep_view(&self) -> NodeV {
        self.view()
    }
}

/// Abstract value of the whole stored state.
#[verifier::ext_equal]
pub ghost struct StateV {
    pub owner: Seq<char>,
    pub seed: Seq<u8>,
    pub files: Map<Seq<char>, FileV>,
    pub folders: Map<Seq<char>, FolderV>,
    pub gens: Map<Seq<char>, u32>,
    pub keys: Map<Seq<char>, Seq<u8>>,
    pub nodes: Seq<NodeV>,
}

/// Everything one contract instance persists.
pub struct State {
    pub owner: String,
    pub prng_seed: Vec<u8>,
    pub files: KvTable<File>,
    pub folders: KvTable<Folder>,
    pub gens: KvTable<u32>,
    pub keys: KvTable<Vec<u8>>,
    pub nodes: Vec<Node>,
}

impl View for State {
    type V = StateV;

    open spec fn view(&self) -> StateV {
        StateV {
            owner: self.owner@,
            seed: self.prng_seed@,
            files: self.files@,
            folders: self.folders@,
            gens: self.gens@,
            keys: self.keys@,
            nodes: self.nodes.deep_view(),
        }
    }
}

/// Every child path listed in the folder record at `fp` is well-placed:
/// it exists in the store, its kind matches the list it stands in, its
/// enclosing folder is `fp` itself, and no path is listed twice.
pub open spec fn folder_ok(files: Map<Seq<char>, FileV>, fp: Seq<char>, f: FolderV) -> bool {
    &&& distinct_seqs(f.child_folders)
    &&& distinct_seqs(f.child_files)
    &&& forall|i: int|
        0 <= i < f.child_folders.len() ==> {
            let c = #[trigger] f.child_folders[i];
            ends_slash(c) && files.contains_key(c) && parent_of(c) == fp
        }
    &&& forall|i: int|
        0 <= i < f.child_files.len() ==> {
            let c = #[trigger] f.child_files[i];
            c.len() > 0 && !ends_slash(c) && files.contains_key(c) && parent_of(c) == fp
        }
}

/// The global shape invariant, established at instantiation and preserved
/// by every operation.
pub open spec fn state_wf(s: StateV) -> bool {
    &&& forall|p: Seq<char>| #[trigger] s.folders.contains_key(p) ==> s.files.contains_key(p)
    &&& forall|p: Seq<char>|
        #[trigger] s.files.contains_key(p) ==> (ends_slash(p) <==> s.folders.contains_key(p))
    &&& forall|p: Seq<char>| #[trigger] s.folders.contains_key(p) ==> folder_ok(s.files, p, s.folders[p])
    &&& forall|p: Seq<char>|
        #[trigger] s.files.contains_key(p) ==> p.len() > 0 && distinct_seqs(s.files[p].allow_read)
            && distinct_seqs(s.files[p].allow_write)
    &&& forall|id: Seq<char>| #[trigger] s.gens.contains_key(id) ==> s.gens[id] < 0x8000_0000u32
    &&& forall|id: Seq<char>| #[trigger] s.keys.contains_key(id) ==> s.keys[id].len() == 32
}

/// The stored generation of an identity; zero before any reset.
pub open spec fn gen_of(s: StateV, id: Seq<char>) -> u32 {
    if s.gens.contains_key(id) {
        s.gens[id]
    } else {
        0u32
    }
}

/// The identity's current namespace: the identity itself at generation
/// zero, else the identity with the generation appended.
pub open spec fn namespace_of(s: StateV, id: Seq<char>) -> Seq<char> {
    if gen_of(s, id) == 0 {
        id
    } else {
        id + dec_str(gen_of(s, id) as int)
    }
}

/// A caller-supplied path, addressed through the current generation: the
/// leading account segment is replaced by that account's namespace, so a
/// retired generation's paths no longer resolve.
pub open spec fn resolve(s: StateV, p: Seq<char>) -> Seq<char> {
    namespace_of(s, first_seg(p)) + seg_rest(p)
}

impl State {
    /// The store's well-formedness: distinct keys in every keyspace and
    /// the global shape invariant over the views.
    pub open spec fn wf(&self) -> bool {
        &&& self.files.wf()
        &&& self.folders.wf()
        &&& self.gens.wf()
        &&& self.keys.wf()
        &&& state_wf(self@)
    }

    /// The identity's current namespace string.
    pub fn namespace_string(&self, id: &String) -> (r: String)
        requires
            self.wf(),
        ensures
            r@ == namespace_of(self@, id@),
    {
        let g: u32 = match self.gens.get(id) {
            Some(g) => *g,
            None => 0,
        };
        if g == 0 {
            id.clone()
        } else {
            id.clone().concat(u32_dec_string(g).as_str())
        }
    }

    /// Rewrites a caller-supplied path onto the live namespace of the
    /// account named by its first segment.
    pub fn resolve_path(&self, p: &String) -> (r: String)
        requires
            self.wf(),
        ensures
            r@ == resolve(self@, p@),
    {
        let (seg, rest) = split_first_seg(p);
        let ns = self.namespace_string(&seg);
        ns.concat(rest.as_str())
    }
}

} // verus!
