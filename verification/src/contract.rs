//! The message-level operations: account initialization, viewing-key
//! issue, the reset ("forget me"), the authenticated queries behind the
//! viewing-key gate, and the `handle`/`query` dispatchers that route every
//! operation name to its handler.

use vstd::prelude::*;
use vstd::utf8::encode_utf8;

use crate::backend::{make_file_entry, make_folder, new_file_v, FileV, FolderV};
use crate::error::FsError;
use crate::kv::KvTable;
use crate::msg::{
    FileResponse, FolderContentsResponse, HandleAnswer, HandleMsg, InitMsg, QueryAnswer, QueryMsg,
    ResponseStatus, WalletInfoResponse,
};
use crate::nodes::{get_node, get_node_size, push_node, push_node_model};
use crate::path::ends_slash;
use crate::perms::{acl_model, try_change_owner, try_update_acl, change_owner_model, AclOp};
use crate::state::{
    folder_ok, gen_of, namespace_of, resolve, state_wf, Node, NodeV, State, StateV,
};
use crate::tree::{
    create_model, create_multi_model, may_read, move_model, move_multi_model, remove_model,
    remove_multi_model, try_create_file, try_create_multi_files, try_move_file,
    try_move_multi_files, try_remove_file, try_remove_multi_files, authorized_read,
};
use crate::viewing_key::{sha256, base64_encode, sha256_of, viewing_key_chars, ViewingKey, VIEWING_KEY_SIZE};

verus! {

/// The stored seed: the digest of the base64 notation of the
/// instantiation entropy.
pub open spec fn init_seed_of(prng_seed: Seq<char>) -> Seq<u8> {
    sha256_of(encode_utf8(base64_of_chars(prng_seed)))
}

/// The base64 notation of a string's bytes.
pub open spec fn base64_of_chars(s: Seq<char>) -> Seq<char> {
    crate::viewing_key::base64_of(encode_utf8(s))
}

/// The freshly instantiated contract: the sender recorded as the
/// contract's owner, the derived seed stored, every keyspace empty.
pub open spec fn init_model(sender: Seq<char>, prng_seed: Seq<char>) -> StateV {
    StateV {
        owner: sender,
        seed: init_seed_of(prng_seed),
        files: Map::<Seq<char>, FileV>::empty(),
        folders: Map::<Seq<char>, FolderV>::empty(),
        gens: Map::<Seq<char>, u32>::empty(),
        keys: Map::<Seq<char>, Seq<u8>>::empty(),
        nodes: Seq::<NodeV>::empty(),
    }
}

/// Instantiates the contract.
pub fn init(sender: String, msg: InitMsg) -> (s: State)
    ensures
        s.wf(),
        s@ == init_model(sender@, msg.prng_seed@),
{
    let encoded = base64_encode(msg.prng_seed.as_str().as_bytes());
    let seed = sha256(encoded.as_str().as_bytes());
    let s = State {
        owner: sender,
        prng_seed: seed,
        files: KvTable::new(),
        folders: KvTable::new(),
        gens: KvTable::new(),
        keys: KvTable::new(),
        nodes: Vec::new(),
    };
    proof {
        assert(s.nodes.deep_view() =~= Seq::<NodeV>::empty());
        assert(s@ =~= init_model(sender@, msg.prng_seed@));
    }
    s
}

/// The characters of the key an account operation issues.
pub open spec fn issued_key(s: StateV, sender: Seq<char>, entropy: Seq<char>, height: u64, time: u64) -> Seq<char> {
    viewing_key_chars(s.seed, height, time, encode_utf8(sender), encode_utf8(entropy))
}

/// What issuing a viewing key does: derive the key and store its hash
/// under the sender's identity, replacing any earlier one.
pub open spec fn create_key_model(
    s: StateV,
    sender: Seq<char>,
    entropy: Seq<char>,
    height: u64,
    time: u64,
) -> (StateV, Seq<char>) {
    let k = issued_key(s, sender, entropy, height, time);
    (StateV { keys: s.keys.insert(sender, sha256_of(encode_utf8(k))), ..s }, k)
}

/// Storing a 32-byte key hash preserves the shape invariant.
proof fn lemma_keys_update_wf(s: StateV, id: Seq<char>, h: Seq<u8>)
    requires
        state_wf(s),
        h.len() == 32,
    ensures
        state_wf(StateV { keys: s.keys.insert(id, h), ..s }),
{
}

/// Issues a fresh viewing key for the sender and stores its hash.
pub fn try_create_viewing_key(
    state: &mut State,
    sender: &String,
    entropy: &String,
    height: u64,
    time: u64,
) -> (r: ViewingKey)
    requires
        old(state).wf(),
    ensures
        final(state).wf(),
        r@ == create_key_model(old(state)@, sender@, entropy@, height, time).1,
        final(state)@ == create_key_model(old(state)@, sender@, entropy@, height, time).0,
{
    let ghost s0 = state@;
    let key = ViewingKey::new_key(&state.prng_seed, height, time, sender, entropy);
    let hashed = key.to_hashed();
    proof {
        lemma_keys_update_wf(s0, sender@, hashed@);
    }
    state.keys.insert(sender.clone(), hashed);
    proof {
        assert(state@ =~= create_key_model(s0, sender@, entropy@, height, time).0);
    }
    key
}

/// What account initialization does, or the error it fails with: refuse a
/// live root, else create the root folder record under the current
/// namespace and issue the initial viewing key.
pub open spec fn init_address_model(
    s: StateV,
    sender: Seq<char>,
    contents: Seq<char>,
    entropy: Seq<char>,
    height: u64,
    time: u64,
) -> Result<(StateV, Seq<char>), FsError> {
    let root = namespace_of(s, sender).push('/');
    if s.files.contains_key(root) {
        Err(FsError::AlreadyExists)
    } else {
        let k = issued_key(s, sender, entropy, height, time);
        Ok(
            (
                StateV {
                    files: s.files.insert(
                        root,
                        new_file_v(sender, contents, Seq::<char>::empty(), Seq::<char>::empty()),
                    ),
                    folders: s.folders.insert(
                        root,
                        FolderV {
                            child_folders: Seq::<Seq<char>>::empty(),
                            child_files: Seq::<Seq<char>>::empty(),
                        },
                    ),
                    keys: s.keys.insert(sender, sha256_of(encode_utf8(k))),
                    ..s
                },
                k,
            ),
        )
    }
}

/// Creating an unlisted root folder record preserves the shape invariant.
proof fn lemma_root_create_wf(s: StateV, root: Seq<char>, e: FileV, id: Seq<char>, h: Seq<u8>)
    requires
        state_wf(s),
        ends_slash(root),
        e.allow_read == Seq::<Seq<char>>::empty(),
        e.allow_write == Seq::<Seq<char>>::empty(),
        h.len() == 32,
    ensures
        state_wf(
            StateV {
                files: s.files.insert(root, e),
                folders: s.folders.insert(
                    root,
                    FolderV {
                        child_folders: Seq::<Seq<char>>::empty(),
                        child_files: Seq::<Seq<char>>::empty(),
                    },
                ),
                keys: s.keys.insert(id, h),
                ..s
            },
        ),
{
    let m = StateV {
        files: s.files.insert(root, e),
        folders: s.folders.insert(
            root,
            FolderV {
                child_folders: Seq::<Seq<char>>::empty(),
                child_files: Seq::<Seq<char>>::empty(),
            },
        ),
        keys: s.keys.insert(id, h),
        ..s
    };
    assert forall|p: Seq<char>| #[trigger] m.folders.contains_key(p) implies folder_ok(
        m.files,
        p,
        m.folders[p],
    ) by {
        if p != root {
            assert(s.folders.contains_key(p));
            assert(folder_ok(s.files, p, s.folders[p]));
            let f = m.folders[p];
            assert forall|i: int| 0 <= i < f.child_folders.len() implies {
                let c = #[trigger] f.child_folders[i];
                ends_slash(c) && m.files.contains_key(c) && crate::path::parent_of(c) == p
            } by {
                assert(s.files.contains_key(f.child_folders[i]));
            }
            assert forall|i: int| 0 <= i < f.child_files.len() implies {
                let c = #[trigger] f.child_files[i];
                c.len() > 0 && !ends_slash(c) && m.files.contains_key(c)
                    && crate::path::parent_of(c) == p
            } by {
                assert(s.files.contains_key(f.child_files[i]));
            }
        }
    }
    assert forall|p: Seq<char>| #[trigger] m.files.contains_key(p) implies p.len() > 0
        && crate::backend::distinct_seqs(m.files[p].allow_read) && crate::backend::distinct_seqs(
        m.files[p].allow_write,
    ) by {
        if p != root {
            assert(s.files.contains_key(p));
        }
    }
}

/// Initializes the sender's account: creates the root folder record at
/// the current namespace and issues the initial viewing key.  Fails with
/// `AlreadyExists` while a live root exists.
pub fn try_init(
    state: &mut State,
    sender: &String,
    contents: String,
    entropy: &String,
    height: u64,
    time: u64,
) -> (r: Result<ViewingKey, FsError>)
    requires
        old(state).wf(),
    ensures
        final(state).wf(),
        match init_address_model(old(state)@, sender@, contents@, entropy@, height, time) {
            Ok((m, k)) => final(state)@ == m && (r matches Ok(key) && key@ == k),
            Err(e) => r matches Err(e2) && e2 == e && final(state)@ == old(state)@,
        },
{
    let ns = state.namespace_string(sender);
    let root = ns.concat("/");
    proof {
        reveal_strlit("/");
        assert(root@ =~= namespace_of(state@, sender@).push('/'));
    }
    if state.files.contains_key(&root) {
        return Err(FsError::AlreadyExists);
    }
    let ghost s0 = state@;
    let key = ViewingKey::new_key(&state.prng_seed, height, time, sender, entropy);
    let hashed = key.to_hashed();
    let entry = make_file_entry(sender, contents, String::new(), String::new());
    proof {
        lemma_root_create_wf(s0, root@, entry@, sender@, hashed@);
    }
    state.files.insert(root.clone(), entry);
    state.folders.insert(root, make_folder());
    state.keys.insert(sender.clone(), hashed);
    proof {
        let m = init_address_model(s0, sender@, contents@, entropy@, height, time).unwrap().0;
        assert(state@ =~= m);
    }
    Ok(key)
}

/// What the reset does: bump the sender's generation, making every path
/// under the old namespace unreachable.  The counter is finite; an
/// exhausted one is refused rather than wrapped around.
pub open spec fn forget_model(s: StateV, sender: Seq<char>) -> Result<StateV, FsError> {
    let g = gen_of(s, sender);
    if g + 1 < 0x8000_0000 {
        Ok(StateV { gens: s.gens.insert(sender, (g + 1) as u32), ..s })
    } else {
        Err(FsError::MalformedInput)
    }
}

/// Retires the sender's namespace by incrementing its generation.  The
/// stored records stay, orphaned; no new root is created.
pub fn try_forget_me(state: &mut State, sender: &String) -> (r: Result<(), FsError>)
    requires
        old(state).wf(),
    ensures
        final(state).wf(),
        match forget_model(old(state)@, sender@) {
            Ok(m) => r == Ok::<(), FsError>(()) && final(state)@ == m,
            Err(e) => r == Err::<(), FsError>(e) && final(state)@ == old(state)@,
        },
{
    let g: u32 = match state.gens.get(sender) {
        Some(g) => *g,
        None => 0,
    };
    if g >= 0x7fffffff {
        return Err(FsError::MalformedInput);
    }
    let ghost s0 = state@;
    state.gens.insert(sender.clone(), g + 1);
    proof {
        assert(state@ =~= forget_model(s0, sender@).unwrap());
    }
    Ok(())
}

/// What a wallet query reports: whether a live root exists under the
/// identity's current namespace, that namespace, and the generation.
pub open spec fn wallet_info_model(s: StateV, id: Seq<char>) -> (bool, Seq<char>, u32) {
    let ns = namespace_of(s, id);
    (s.files.contains_key(ns.push('/')), ns, gen_of(s, id))
}

/// Reports whether the identity's account is initialized, without
/// authentication: existence is public, contents are not.
pub fn try_you_up_bro(state: &State, address: &String) -> (r: WalletInfoResponse)
    requires
        state.wf(),
    ensures
        r.init == wallet_info_model(state@, address@).0,
        r.namespace@ == wallet_info_model(state@, address@).1,
        r.counter == wallet_info_model(state@, address@).2 as i32,
        0 <= r.counter,
{
    let ns = state.namespace_string(address);
    let root = ns.clone().concat("/");
    proof {
        reveal_strlit("/");
        assert(root@ =~= namespace_of(state@, address@).push('/'));
    }
    let g: u32 = match state.gens.get(address) {
        Some(g) => *g,
        None => 0,
    };
    WalletInfoResponse { init: state.files.contains_key(&root), namespace: ns, counter: g as i32 }
}

/// The authenticated form of the wallet query.
pub fn query_wallet_info(state: &State, behalf: &String) -> (r: WalletInfoResponse)
    requires
        state.wf(),
    ensures
        r.init == wallet_info_model(state@, behalf@).0,
        r.namespace@ == wallet_info_model(state@, behalf@).1,
        r.counter == wallet_info_model(state@, behalf@).2 as i32,
        0 <= r.counter,
{
    try_you_up_bro(state, behalf)
}

/// What a contents query returns, or the error it fails with: the record
/// at the resolved path, for its owner or a reader on its allow-list.
pub open spec fn query_file_model(s: StateV, path0: Seq<char>, behalf: Seq<char>) -> Result<
    FileV,
    FsError,
> {
    let path = resolve(s, path0);
    if !s.files.contains_key(path) {
        Err(FsError::NotFound)
    } else if !may_read(s.files[path], behalf) {
        Err(FsError::Unauthorized)
    } else {
        Ok(s.files[path])
    }
}

/// Returns the record at `path` to `behalf`, after the read check.
pub fn query_file(state: &State, path: &String, behalf: &String) -> (r: Result<
    FileResponse,
    FsError,
>)
    requires
        state.wf(),
    ensures
        match query_file_model(state@, path@, behalf@) {
            Ok(fv) => r matches Ok(resp) && resp.file@ == fv,
            Err(e) => r matches Err(e2) && e2 == e,
        },
{
    let rp = state.resolve_path(path);
    match state.files.get(&rp) {
        None => Err(FsError::NotFound),
        Some(e) => {
            if !authorized_read(e, behalf) {
                Err(FsError::Unauthorized)
            } else {
                Ok(FileResponse { file: e.duplicate() })
            }
        },
    }
}

/// What a folder-contents query returns, or the error it fails with.
pub open spec fn folder_contents_model(s: StateV, path0: Seq<char>, behalf: Seq<char>) -> Result<
    (Seq<char>, FolderV),
    FsError,
> {
    let path = resolve(s, path0);
    if !s.files.contains_key(path) || !s.folders.contains_key(path) {
        Err(FsError::NotFound)
    } else if !may_read(s.files[path], behalf) {
        Err(FsError::Unauthorized)
    } else {
        Ok((path, s.folders[path]))
    }
}

/// Lists the folder at `path` for `behalf`, after the read check.
pub fn query_folder_contents(state: &State, path: &String, behalf: &String) -> (r: Result<
    FolderContentsResponse,
    FsError,
>)
    requires
        state.wf(),
    ensures
        match folder_contents_model(state@, path@, behalf@) {
            Ok(m) => r matches Ok(resp) && resp.parent@ == m.0 && resp.folders.deep_view()
                == m.1.child_folders && resp.files.deep_view() == m.1.child_files,
            Err(e) => r matches Err(e2) && e2 == e,
        },
{
    let rp = state.resolve_path(path);
    let readable: bool = match state.files.get(&rp) {
        None => {
            return Err(FsError::NotFound);
        },
        Some(e) => authorized_read(e, behalf),
    };
    match state.folders.get(&rp) {
        None => Err(FsError::NotFound),
        Some(f) => {
            if !readable {
                Err(FsError::Unauthorized)
            } else {
                let folders = f.list_folders();
                let files = f.list_files();
                Ok(FolderContentsResponse { parent: rp, folders, files })
            }
        },
    }
}

/// The presented token authenticates `behalf`: a hash is stored for that
/// identity and the token's hash matches it byte for byte.
pub open spec fn auth_ok(s: StateV, behalf: Seq<char>, key: Seq<char>) -> bool {
    s.keys.contains_key(behalf) && s.keys[behalf] == sha256_of(encode_utf8(key))
}

/// Abstract value of a query's answer.
pub ghost enum QueryAnswerV {
    File(FileV),
    WalletInfo(bool, Seq<char>, u32),
    NodeIp(Seq<char>),
    NodeList(Seq<NodeV>),
    NodeListSize(int),
}

/// The abstraction an answer denotes.
pub open spec fn answer_abs(a: QueryAnswer) -> QueryAnswerV {
    match a {
        QueryAnswer::File(resp) => QueryAnswerV::File(resp.file@),
        QueryAnswer::WalletInfo(w) => QueryAnswerV::WalletInfo(w.init, w.namespace@, w.counter as u32),
        QueryAnswer::NodeIp(ip) => QueryAnswerV::NodeIp(ip@),
        QueryAnswer::NodeList(ns) => QueryAnswerV::NodeList(ns.deep_view()),
        QueryAnswer::NodeListSize(n) => QueryAnswerV::NodeListSize(n as int),
    }
}

/// What a query answers, or the error it fails with.  An authenticated
/// query fails with the one generic credential error whether the account
/// is missing or the token is wrong.
pub open spec fn query_model(s: StateV, msg: QueryMsg) -> Result<QueryAnswerV, FsError> {
    match msg {
        QueryMsg::YouUpBro { address } => {
            let w = wallet_info_model(s, address@);
            Ok(QueryAnswerV::WalletInfo(w.0, w.1, w.2))
        },
        QueryMsg::GetNodeIP { index } => if index < s.nodes.len() {
            Ok(QueryAnswerV::NodeIp(s.nodes[index as int].ip))
        } else {
            Err(FsError::NotFound)
        },
        QueryMsg::GetNodeListSize {  } => Ok(QueryAnswerV::NodeListSize(s.nodes.len() as int)),
        QueryMsg::GetNodeList { size } => {
            let k: int = if size <= s.nodes.len() {
                size as int
            } else {
                s.nodes.len() as int
            };
            if s.nodes.len() == 0 {
                Ok(QueryAnswerV::NodeList(Seq::<NodeV>::empty()))
            } else if k <= 1 {
                Ok(QueryAnswerV::NodeList(seq![s.nodes[0]]))
            } else {
                Ok(QueryAnswerV::NodeList(s.nodes.take(k)))
            }
        },
        QueryMsg::GetContents { behalf, path, key } => if auth_ok(s, behalf@, key@) {
            match query_file_model(s, path@, behalf@) {
                Ok(fv) => Ok(QueryAnswerV::File(fv)),
                Err(e) => Err(e),
            }
        } else {
            Err(FsError::InvalidCredential)
        },
        QueryMsg::GetWalletInfo { behalf, key } => if auth_ok(s, behalf@, key@) {
            let w = wallet_info_model(s, behalf@);
            Ok(QueryAnswerV::WalletInfo(w.0, w.1, w.2))
        } else {
            Err(FsError::InvalidCredential)
        },
    }
}

/// Runs an authenticated query: looks up the stored hash for the declared
/// identity and compares the presented token's hash against it.  When no
/// hash is stored, the same fixed-cost comparison still runs, against a
/// zero-filled buffer, so a missing account and a wrong token answer in
/// the same time and with the same error.
fn authenticated_queries(state: &State, msg: QueryMsg) -> (r: Result<QueryAnswer, FsError>)
    requires
        state.wf(),
        msg.is_authenticated(),
    ensures
        match query_model(state@, msg) {
            Ok(a) => r matches Ok(ans) && answer_abs(ans) == a,
            Err(e) => r matches Err(e2) && e2 == e,
        },
{
    let (addresses, key) = msg.get_validation_params();
    let address = &addresses[0];
    let granted: bool = match state.keys.get(address) {
        None => {
            // Checking the key still takes the same fixed-cost comparison,
            // so that a missing account cannot be told apart by timing.
            let zeros: Vec<u8> = vec![0u8; VIEWING_KEY_SIZE];
            let _ = key.check_viewing_key(&zeros);
            false
        },
        Some(stored) => key.check_viewing_key(stored),
    };
    if !granted {
        return Err(FsError::InvalidCredential);
    }
    match msg {
        QueryMsg::GetContents { path, behalf, .. } => match query_file(state, &path, &behalf) {
            Ok(resp) => Ok(QueryAnswer::File(resp)),
            Err(e) => Err(e),
        },
        QueryMsg::GetWalletInfo { behalf, .. } => {
            let w = query_wallet_info(state, &behalf);
            proof {
                assert(w.counter as u32 == wallet_info_model(state@, behalf@).2);
            }
            Ok(QueryAnswer::WalletInfo(w))
        },
        _ => {
            proof {
                assert(false);
            }
            Err(FsError::InvalidCredential)
        },
    }
}

/// Routes a query to its handler; reads pass the viewing-key gate first.
pub fn query(state: &State, msg: QueryMsg) -> (r: Result<QueryAnswer, FsError>)
    requires
        state.wf(),
    ensures
        match query_model(state@, msg) {
            Ok(a) => r matches Ok(ans) && answer_abs(ans) == a,
            Err(e) => r matches Err(e2) && e2 == e,
        },
{
    match msg {
        QueryMsg::YouUpBro { address } => {
            let w = try_you_up_bro(state, &address);
            proof {
                assert(w.counter as u32 == wallet_info_model(state@, address@).2);
            }
            Ok(QueryAnswer::WalletInfo(w))
        },
        QueryMsg::GetNodeIP { index } => match get_node(state, index) {
            Some(n) => Ok(QueryAnswer::NodeIp(n.ip.clone())),
            None => Err(FsError::NotFound),
        },
        QueryMsg::GetNodeListSize {  } => Ok(QueryAnswer::NodeListSize(get_node_size(state))),
        QueryMsg::GetNodeList { size } => {
            let total = get_node_size(state);
            let k: u64 = if size <= total {
                size
            } else {
                total
            };
            let mut nodes: Vec<Node> = Vec::new();
            if total == 0 {
                proof {
                    assert(nodes.deep_view() =~= Seq::<NodeV>::empty());
                }
                return Ok(QueryAnswer::NodeList(nodes));
            }
            let first = match get_node(state, 0) {
                Some(n) => Node { ip: n.ip.clone(), address: n.address.clone() },
                None => {
                    proof {
                        assert(false);
                    }
                    return Err(FsError::NotFound);
                },
            };
            nodes.push(first);
            if k <= 1 {
                proof {
                    assert(nodes.deep_view() =~= seq![state@.nodes[0]]);
                }
                return Ok(QueryAnswer::NodeList(nodes));
            }
            let mut x: u64 = 1;
            while x < k
                invariant
                    state.wf(),
                    1 <= x <= k,
                    k <= state@.nodes.len(),
                    nodes.deep_view() =~= state@.nodes.take(x as int),
                decreases k - x,
            {
                let n = match get_node(state, x) {
                    Some(n) => Node { ip: n.ip.clone(), address: n.address.clone() },
                    None => {
                        proof {
                            assert(false);
                        }
                        return Err(FsError::NotFound);
                    },
                };
                let ghost d = nodes.deep_view();
                proof {
                    assert(n@ == state@.nodes[x as int]);
                }
                nodes.push(n);
                proof {
                    assert(nodes.deep_view() =~= d.push(state@.nodes[x as int]));
                    assert(d.push(state@.nodes[x as int]) =~= state@.nodes.take(x + 1));
                }
                x = x + 1;
            }
            Ok(QueryAnswer::NodeList(nodes))
        },
        QueryMsg::GetContents { behalf, path, key } => authenticated_queries(
            state,
            QueryMsg::GetContents { behalf, path, key },
        ),
        QueryMsg::GetWalletInfo { behalf, key } => authenticated_queries(
            state,
            QueryMsg::GetWalletInfo { behalf, key },
        ),
    }
}

/// What `handle` does for each operation: the state reached, and either
/// the issued key's characters (for the two key-issuing operations), no
/// payload, or the error.
pub open spec fn handle_model(
    s: StateV,
    sender: Seq<char>,
    height: u64,
    time: u64,
    msg: HandleMsg,
) -> (StateV, Result<Option<Seq<char>>, FsError>) {
    match msg {
        HandleMsg::InitAddress { contents, entropy } => {
            match init_address_model(s, sender, contents@, entropy@, height, time) {
                Ok((m, k)) => (m, Ok(Some(k))),
                Err(e) => (s, Err(e)),
            }
        },
        HandleMsg::Create { contents, path, pkey, skey } => {
            match create_model(s, sender, path@, contents@, pkey@, skey@) {
                Ok(m) => (m, Ok(None)),
                Err(e) => (s, Err(e)),
            }
        },
        HandleMsg::CreateMulti { contents_list, path_list, pkey_list, skey_list } => {
            if contents_list@.len() == path_list@.len() && pkey_list@.len() == path_list@.len()
                && skey_list@.len() == path_list@.len() {
                let (m, res) = create_multi_model(
                    s,
                    sender,
                    contents_list.deep_view(),
                    path_list.deep_view(),
                    pkey_list.deep_view(),
                    skey_list.deep_view(),
                    0,
                );
                (m, match res {
                    Ok(()) => Ok(None),
                    Err(e) => Err(e),
                })
            } else {
                (s, Err(FsError::MalformedInput))
            }
        },
        HandleMsg::Remove { path } => {
            match remove_model(s, sender, path@) {
                Ok(m) => (m, Ok(None)),
                Err(e) => (s, Err(e)),
            }
        },
        HandleMsg::RemoveMulti { path_list } => {
            let (m, res) = remove_multi_model(s, sender, path_list.deep_view(), 0);
            (m, match res {
                Ok(()) => Ok(None),
                Err(e) => Err(e),
            })
        },
        HandleMsg::Move { old_path, new_path } => {
            match move_model(s, sender, old_path@, new_path@) {
                Ok(m) => (m, Ok(None)),
                Err(e) => (s, Err(e)),
            }
        },
        HandleMsg::MoveMulti { old_path_list, new_path_list } => {
            if old_path_list@.len() == new_path_list@.len() {
                let (m, res) = move_multi_model(
                    s,
                    sender,
                    old_path_list.deep_view(),
                    new_path_list.deep_view(),
                    0,
                );
                (m, match res {
                    Ok(()) => Ok(None),
                    Err(e) => Err(e),
                })
            } else {
                (s, Err(FsError::MalformedInput))
            }
        },
        HandleMsg::CreateViewingKey { entropy, .. } => {
            let (m, k) = create_key_model(s, sender, entropy@, height, time);
            (m, Ok(Some(k)))
        },
        HandleMsg::AllowRead { path, address_list } => {
            match acl_model(s, sender, path@, address_list.deep_view(), AclOp::AllowRead) {
                Ok(m) => (m, Ok(None)),
                Err(e) => (s, Err(e)),
            }
        },
        HandleMsg::DisallowRead { path, address_list } => {
            match acl_model(s, sender, path@, address_list.deep_view(), AclOp::DisallowRead) {
                Ok(m) => (m, Ok(None)),
                Err(e) => (s, Err(e)),
            }
        },
        HandleMsg::ResetRead { path } => {
            match acl_model(s, sender, path@, Seq::<Seq<char>>::empty(), AclOp::ResetRead) {
                Ok(m) => (m, Ok(None)),
                Err(e) => (s, Err(e)),
            }
        },
        HandleMsg::AllowWrite { path, address_list } => {
            match acl_model(s, sender, path@, address_list.deep_view(), AclOp::AllowWrite) {
                Ok(m) => (m, Ok(None)),
                Err(e) => (s, Err(e)),
            }
        },
        HandleMsg::DisallowWrite { path, address_list } => {
            match acl_model(s, sender, path@, address_list.deep_view(), AclOp::DisallowWrite) {
                Ok(m) => (m, Ok(None)),
                Err(e) => (s, Err(e)),
            }
        },
        HandleMsg::ResetWrite { path } => {
            match acl_model(s, sender, path@, Seq::<Seq<char>>::empty(), AclOp::ResetWrite) {
                Ok(m) => (m, Ok(None)),
                Err(e) => (s, Err(e)),
            }
        },
        HandleMsg::InitNode { ip, address } => (push_node_model(s, ip@, address@), Ok(None)),
        HandleMsg::ForgetMe {  } => {
            match forget_model(s, sender) {
                Ok(m) => (m, Ok(None)),
                Err(e) => (s, Err(e)),
            }
        },
        HandleMsg::ChangeOwner { path, new_owner } => {
            match change_owner_model(s, sender, path@, new_owner@) {
                Ok(m) => (m, Ok(None)),
                Err(e) => (s, Err(e)),
            }
        },
    }
}

/// Routes a mutating operation to its handler.  The two key-issuing
/// operations answer with the fresh key; every other success answers
/// `Success`.
pub fn handle(state: &mut State, sender: &String, height: u64, time: u64, msg: HandleMsg) -> (r:
    Result<HandleAnswer, FsError>)
    requires
        old(state).wf(),
    ensures
        final(state).wf(),
        ({
            let (m, ans) = handle_model(old(state)@, sender@, height, time, msg);
            final(state)@ == m && match r {
                Ok(HandleAnswer::DefaultAnswer { status }) => ans == Ok::<Option<Seq<char>>, FsError>(
                    None,
                ) && status == ResponseStatus::Success,
                Ok(HandleAnswer::CreateViewingKey { key }) => (ans matches Ok(k) && k matches Some(
                    kc,
                ) && key@ == kc),
                Err(e) => ans == Err::<Option<Seq<char>>, FsError>(e),
            }
        }),
{
    match msg {
        HandleMsg::InitAddress { contents, entropy } => {
            match try_init(state, sender, contents, &entropy, height, time) {
                Ok(key) => Ok(HandleAnswer::CreateViewingKey { key }),
                Err(e) => Err(e),
            }
        },
        HandleMsg::Create { contents, path, pkey, skey } => {
            match try_create_file(state, sender, contents, path, pkey, skey) {
                Ok(()) => Ok(HandleAnswer::DefaultAnswer { status: ResponseStatus::Success }),
                Err(e) => Err(e),
            }
        },
        HandleMsg::CreateMulti { contents_list, path_list, pkey_list, skey_list } => {
            match try_create_multi_files(
                state,
                sender,
                contents_list,
                path_list,
                pkey_list,
                skey_list,
            ) {
                Ok(()) => Ok(HandleAnswer::DefaultAnswer { status: ResponseStatus::Success }),
                Err(e) => Err(e),
            }
        },
        HandleMsg::Remove { path } => {
            match try_remove_file(state, sender, path) {
                Ok(()) => Ok(HandleAnswer::DefaultAnswer { status: ResponseStatus::Success }),
                Err(e) => Err(e),
            }
        },
        HandleMsg::RemoveMulti { path_list } => {
            match try_remove_multi_files(state, sender, path_list) {
                Ok(()) => Ok(HandleAnswer::DefaultAnswer { status: ResponseStatus::Success }),
                Err(e) => Err(e),
            }
        },
        HandleMsg::Move { old_path, new_path } => {
            match try_move_file(state, sender, old_path, new_path) {
                Ok(()) => Ok(HandleAnswer::DefaultAnswer { status: ResponseStatus::Success }),
                Err(e) => Err(e),
            }
        },
        HandleMsg::MoveMulti { old_path_list, new_path_list } => {
            match try_move_multi_files(state, sender, old_path_list, new_path_list) {
                Ok(()) => Ok(HandleAnswer::DefaultAnswer { status: ResponseStatus::Success }),
                Err(e) => Err(e),
            }
        },
        HandleMsg::CreateViewingKey { entropy, padding: _ } => {
            let key = try_create_viewing_key(state, sender, &entropy, height, time);
            Ok(HandleAnswer::CreateViewingKey { key })
        },
        HandleMsg::AllowRead { path, address_list } => {
            match try_update_acl(state, sender, path, &address_list, AclOp::AllowRead) {
                Ok(()) => Ok(HandleAnswer::DefaultAnswer { status: ResponseStatus::Success }),
                Err(e) => Err(e),
            }
        },
        HandleMsg::DisallowRead { path, address_list } => {
            match try_update_acl(state, sender, path, &address_list, AclOp::DisallowRead) {
                Ok(()) => Ok(HandleAnswer::DefaultAnswer { status: ResponseStatus::Success }),
                Err(e) => Err(e),
            }
        },
        HandleMsg::ResetRead { path } => {
            let empty: Vec<String> = Vec::new();
            proof {
                assert(empty.deep_view() =~= Seq::<Seq<char>>::empty());
            }
            match try_update_acl(state, sender, path, &empty, AclOp::ResetRead) {
                Ok(()) => Ok(HandleAnswer::DefaultAnswer { status: ResponseStatus::Success }),
                Err(e) => Err(e),
            }
        },
        HandleMsg::AllowWrite { path, address_list } => {
            match try_update_acl(state, sender, path, &address_list, AclOp::AllowWrite) {
                Ok(()) => Ok(HandleAnswer::DefaultAnswer { status: ResponseStatus::Success }),
                Err(e) => Err(e),
            }
        },
        HandleMsg::DisallowWrite { path, address_list } => {
            match try_update_acl(state, sender, path, &address_list, AclOp::DisallowWrite) {
                Ok(()) => Ok(HandleAnswer::DefaultAnswer { status: ResponseStatus::Success }),
                Err(e) => Err(e),
            }
        },
        HandleMsg::ResetWrite { path } => {
            let empty: Vec<String> = Vec::new();
            proof {
                assert(empty.deep_view() =~= Seq::<Seq<char>>::empty());
            }
            match try_update_acl(state, sender, path, &empty, AclOp::ResetWrite) {
                Ok(()) => Ok(HandleAnswer::DefaultAnswer { status: ResponseStatus::Success }),
                Err(e) => Err(e),
            }
        },
        HandleMsg::InitNode { ip, address } => {
            push_node(state, ip, address);
            Ok(HandleAnswer::DefaultAnswer { status: ResponseStatus::Success })
        },
        HandleMsg::ForgetMe {  } => {
            match try_forget_me(state, sender) {
                Ok(()) => Ok(HandleAnswer::DefaultAnswer { status: ResponseStatus::Success }),
                Err(e) => Err(e),
            }
        },
        HandleMsg::ChangeOwner { path, new_owner } => {
            match try_change_owner(state, sender, path, new_owner) {
                Ok(()) => Ok(HandleAnswer::DefaultAnswer { status: ResponseStatus::Success }),
                Err(e) => Err(e),
            }
        },
    }
}

} // verus!
