//! System-wide laws, proved over the operation models that the executable
//! functions' contracts are stated against: round-trip of a create, path
//! uniqueness, monotonicity of write grants, atomicity of a move, and the
//! isolation a generation reset gives.

use vstd::prelude::*;

use crate::backend::{new_file_v, FileV};
use crate::contract::{forget_model, query_file_model, wallet_info_model};
use crate::error::FsError;
use crate::path::{dec_str, first_seg, parent_of, seg_rest};
use crate::perms::{acl_model, AclOp};
use crate::state::{gen_of, namespace_of, resolve, StateV};
use crate::tree::{create_model, may_write, move_model};

verus! {

/// Round-trip: whatever a create writes, a contents query by its owner
/// returns: the payload, the key metadata, the ownership and the empty
/// allow-lists, exactly as written.
pub proof fn lemma_create_round_trip(
    s: StateV,
    sender: Seq<char>,
    path: Seq<char>,
    contents: Seq<char>,
    public_key: Seq<char>,
    secret_key: Seq<char>,
)
    requires
        create_model(s, sender, path, contents, public_key, secret_key) is Ok,
    ensures
        query_file_model(
            create_model(s, sender, path, contents, public_key, secret_key).unwrap(),
            path,
            sender,
        ) == Ok::<FileV, FsError>(new_file_v(sender, contents, public_key, secret_key)),
{
    let m = create_model(s, sender, path, contents, public_key, secret_key).unwrap();
    assert(resolve(m, path) == resolve(s, path));
}

/// Uniqueness: a path holds at most one live record — the store is a map
/// — so a second create aimed at the same resolved path can never
/// succeed, and fails with the name collision once the caller passes the
/// write check.
pub proof fn lemma_create_unique(
    s: StateV,
    sender: Seq<char>,
    sender2: Seq<char>,
    path: Seq<char>,
    c1: Seq<char>,
    pk1: Seq<char>,
    sk1: Seq<char>,
    c2: Seq<char>,
    pk2: Seq<char>,
    sk2: Seq<char>,
)
    requires
        create_model(s, sender, path, c1, pk1, sk1) is Ok,
    ensures
        !(create_model(
            create_model(s, sender, path, c1, pk1, sk1).unwrap(),
            sender2,
            path,
            c2,
            pk2,
            sk2,
        ) is Ok),
        may_write(
            create_model(s, sender, path, c1, pk1, sk1).unwrap().files[parent_of(resolve(s, path))],
            sender2,
        ) ==> create_model(
            create_model(s, sender, path, c1, pk1, sk1).unwrap(),
            sender2,
            path,
            c2,
            pk2,
            sk2,
        ) == Err::<StateV, FsError>(FsError::AlreadyExists),
{
    let m = create_model(s, sender, path, c1, pk1, sk1).unwrap();
    assert(resolve(m, path) == resolve(s, path));
    assert(m.files.contains_key(resolve(s, path)));
}

/// Authorization monotonicity, granting half: a create under folder `f`
/// that failed only the write check succeeds once the folder's owner
/// grants `u` write access, the target still being free.
pub proof fn lemma_allow_write_grants_create(
    s: StateV,
    folder_owner: Seq<char>,
    u: Seq<char>,
    folder_path: Seq<char>,
    path: Seq<char>,
    contents: Seq<char>,
    public_key: Seq<char>,
    secret_key: Seq<char>,
)
    requires
        create_model(s, u, path, contents, public_key, secret_key) == Err::<StateV, FsError>(
            FsError::Unauthorized,
        ),
        !s.files.contains_key(resolve(s, path)),
        resolve(s, folder_path) == parent_of(resolve(s, path)),
        acl_model(s, folder_owner, folder_path, seq![u], AclOp::AllowWrite) is Ok,
    ensures
        create_model(
            acl_model(s, folder_owner, folder_path, seq![u], AclOp::AllowWrite).unwrap(),
            u,
            path,
            contents,
            public_key,
            secret_key,
        ) is Ok,
{
    let s1 = acl_model(s, folder_owner, folder_path, seq![u], AclOp::AllowWrite).unwrap();
    let parent = parent_of(resolve(s, path));
    assert(resolve(s1, path) == resolve(s, path));
    let l0 = s.files[parent].allow_write;
    let l1 = crate::backend::push_unique_model(l0, u);
    crate::backend::lemma_push_unique(l0, u);
    assert(seq![u][0] == u);
    assert(seq![u].drop_first().len() == 0);
    assert(crate::perms::add_all_model(l1, seq![u].drop_first()) == l1);
    assert(crate::perms::add_all_model(l0, seq![u]) == l1);
    assert(s1.files[parent].allow_write.contains(u));
    assert(may_write(s1.files[parent], u));
}

/// Authorization monotonicity, revoking half: after the folder's owner
/// clears the write allow-list, a create under it by anyone but the
/// folder's owner fails the write check again.
pub proof fn lemma_reset_write_revokes_create(
    s: StateV,
    folder_owner: Seq<char>,
    u: Seq<char>,
    folder_path: Seq<char>,
    path: Seq<char>,
    contents: Seq<char>,
    public_key: Seq<char>,
    secret_key: Seq<char>,
)
    requires
        acl_model(s, folder_owner, folder_path, Seq::<Seq<char>>::empty(), AclOp::ResetWrite) is Ok,
        resolve(s, folder_path) == parent_of(resolve(s, path)),
        u != s.files[resolve(s, folder_path)].owner,
        crate::path::valid_target(resolve(s, path)),
    ensures
        create_model(
            acl_model(s, folder_owner, folder_path, Seq::<Seq<char>>::empty(), AclOp::ResetWrite).unwrap(),
            u,
            path,
            contents,
            public_key,
            secret_key,
        ) == Err::<StateV, FsError>(FsError::Unauthorized),
{
    let s1 = acl_model(
        s,
        folder_owner,
        folder_path,
        Seq::<Seq<char>>::empty(),
        AclOp::ResetWrite,
    ).unwrap();
    let parent = parent_of(resolve(s, path));
    assert(resolve(s1, path) == resolve(s, path));
    assert(s1.files.contains_key(parent));
    assert(s1.files[parent].owner == s.files[parent].owner);
    assert(s1.files[parent].allow_write =~= Seq::<Seq<char>>::empty());
    assert(!may_write(s1.files[parent], u));
}

/// Granting write access also lets `u` move a file it owns into the
/// folder, where the destination check alone stood in the way.
pub proof fn lemma_allow_write_grants_move(
    s: StateV,
    folder_owner: Seq<char>,
    u: Seq<char>,
    folder_path: Seq<char>,
    old0: Seq<char>,
    new0: Seq<char>,
)
    requires
        move_model(s, u, old0, new0) == Err::<StateV, FsError>(FsError::Unauthorized),
        s.files.contains_key(resolve(s, old0)),
        s.files[resolve(s, old0)].owner == u,
        !s.files.contains_key(resolve(s, new0)),
        resolve(s, folder_path) == parent_of(resolve(s, new0)),
        resolve(s, folder_path) != resolve(s, old0),
        acl_model(s, folder_owner, folder_path, seq![u], AclOp::AllowWrite) is Ok,
    ensures
        move_model(
            acl_model(s, folder_owner, folder_path, seq![u], AclOp::AllowWrite).unwrap(),
            u,
            old0,
            new0,
        ) is Ok,
{
    let s1 = acl_model(s, folder_owner, folder_path, seq![u], AclOp::AllowWrite).unwrap();
    let dest_parent = parent_of(resolve(s, new0));
    assert(resolve(s1, old0) == resolve(s, old0));
    assert(resolve(s1, new0) == resolve(s, new0));
    assert(s1.files[resolve(s, old0)] == s.files[resolve(s, old0)]);
    let l0 = s.files[dest_parent].allow_write;
    let l1 = crate::backend::push_unique_model(l0, u);
    crate::backend::lemma_push_unique(l0, u);
    assert(seq![u][0] == u);
    assert(seq![u].drop_first().len() == 0);
    assert(crate::perms::add_all_model(l1, seq![u].drop_first()) == l1);
    assert(crate::perms::add_all_model(l0, seq![u]) == l1);
    assert(s1.files[dest_parent].allow_write.contains(u));
    assert(may_write(s1.files[dest_parent], u));
}

/// Move atomicity: after a successful move the old path answers
/// `NotFound` to everyone, and the new path holds the original record —
/// payload, owner and allow-lists unchanged — readable by its owner.
pub proof fn lemma_move_atomic(
    s: StateV,
    sender: Seq<char>,
    old0: Seq<char>,
    new0: Seq<char>,
    behalf: Seq<char>,
)
    requires
        move_model(s, sender, old0, new0) is Ok,
    ensures
        ({
            let m = move_model(s, sender, old0, new0).unwrap();
            &&& query_file_model(m, old0, behalf) == Err::<FileV, FsError>(FsError::NotFound)
            &&& m.files[resolve(m, new0)] == s.files[resolve(s, old0)]
            &&& query_file_model(m, new0, sender) == Ok::<FileV, FsError>(
                s.files[resolve(s, old0)],
            )
        }),
{
    let m = move_model(s, sender, old0, new0).unwrap();
    assert(resolve(m, old0) == resolve(s, old0));
    assert(resolve(m, new0) == resolve(s, new0));
    assert(resolve(s, old0) != resolve(s, new0));
}

/// Reset isolation: bumping the generation from zero makes the namespace
/// `identity` followed by `1`, reports the account uninitialized while no
/// root exists there, and sends every path addressed through the identity
/// to the fresh namespace, where nothing is stored.
pub proof fn lemma_forget_isolates(s: StateV, id: Seq<char>, p: Seq<char>, behalf: Seq<char>)
    requires
        gen_of(s, id) == 0,
        forget_model(s, id) is Ok,
        first_seg(p) == id,
        !s.files.contains_key(id.push('1') + seg_rest(p)),
        !s.files.contains_key(id.push('1').push('/')),
    ensures
        ({
            let m = forget_model(s, id).unwrap();
            &&& gen_of(m, id) == 1
            &&& namespace_of(m, id) == id.push('1')
            &&& wallet_info_model(m, id).2 == 1
            &&& wallet_info_model(m, id).0 == false
            &&& resolve(m, p) == id.push('1') + seg_rest(p)
            &&& query_file_model(m, p, behalf) == Err::<FileV, FsError>(FsError::NotFound)
        }),
{
    let m = forget_model(s, id).unwrap();
    assert(gen_of(m, id) == 1);
    assert(dec_str(1) =~= seq!['1']);
    assert(namespace_of(m, id) =~= id.push('1'));
    assert(namespace_of(m, id).push('/') =~= id.push('1').push('/'));
    assert(resolve(m, p) =~= id.push('1') + seg_rest(p));
}

} // verus!
