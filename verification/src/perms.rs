//! The permission engine's mutating operations: granting, revoking and
//! clearing read/write allow-lists, and handing a record to a new owner.
//! Every one of them is owner-only and touches a single record in place.

use vstd::prelude::*;

use crate::backend::{
    distinct_seqs, drop_value, lemma_drop_value_props, lemma_push_unique, push_unique_model, File,
    FileV,
};
use crate::error::FsError;
use crate::state::{folder_ok, resolve, state_wf, State, StateV};

verus! {

/// Which allow-list operation to perform.
#[derive(Clone, Copy, Debug, PartialEq, Eq, Structural)]
pub enum AclOp {
    AllowRead,
    AllowWrite,
    DisallowRead,
    DisallowWrite,
    ResetRead,
    ResetWrite,
}

/// Each address of `xs` appended in order, duplicates ignored.
pub open spec fn add_all_model(l: Seq<Seq<char>>, xs: Seq<Seq<char>>) -> Seq<Seq<char>>
    decreases xs.len(),
{
    if xs.len() == 0 {
        l
    } else {
        add_all_model(push_unique_model(l, xs[0]), xs.drop_first())
    }
}

/// Each address of `xs` removed in order; absent ones are ignored.
pub open spec fn remove_all_model(l: Seq<Seq<char>>, xs: Seq<Seq<char>>) -> Seq<Seq<char>>
    decreases xs.len(),
{
    if xs.len() == 0 {
        l
    } else {
        remove_all_model(drop_value(l, xs[0]), xs.drop_first())
    }
}

pub proof fn lemma_add_all_distinct(l: Seq<Seq<char>>, xs: Seq<Seq<char>>)
    requires
        distinct_seqs(l),
    ensures
        distinct_seqs(add_all_model(l, xs)),
    decreases xs.len(),
{
    if xs.len() > 0 {
        lemma_push_unique(l, xs[0]);
        lemma_add_all_distinct(push_unique_model(l, xs[0]), xs.drop_first());
    }
}

pub proof fn lemma_remove_all_distinct(l: Seq<Seq<char>>, xs: Seq<Seq<char>>)
    requires
        distinct_seqs(l),
    ensures
        distinct_seqs(remove_all_model(l, xs)),
    decreases xs.len(),
{
    if xs.len() > 0 {
        lemma_drop_value_props(l, xs[0]);
        lemma_remove_all_distinct(drop_value(l, xs[0]), xs.drop_first());
    }
}

/// The record after the allow-list operation.
pub open spec fn apply_acl(e: FileV, op: AclOp, xs: Seq<Seq<char>>) -> FileV {
    match op {
        AclOp::AllowRead => FileV { allow_read: add_all_model(e.allow_read, xs), ..e },
        AclOp::AllowWrite => FileV { allow_write: add_all_model(e.allow_write, xs), ..e },
        AclOp::DisallowRead => FileV { allow_read: remove_all_model(e.allow_read, xs), ..e },
        AclOp::DisallowWrite => FileV { allow_write: remove_all_model(e.allow_write, xs), ..e },
        AclOp::ResetRead => FileV { allow_read: Seq::<Seq<char>>::empty(), ..e },
        AclOp::ResetWrite => FileV { allow_write: Seq::<Seq<char>>::empty(), ..e },
    }
}

/// What an allow-list operation does, or the error it fails with: only
/// the record's owner may change its lists.
pub open spec fn acl_model(
    s: StateV,
    sender: Seq<char>,
    path0: Seq<char>,
    xs: Seq<Seq<char>>,
    op: AclOp,
) -> Result<StateV, FsError> {
    let path = resolve(s, path0);
    if !s.files.contains_key(path) {
        Err(FsError::NotFound)
    } else if sender != s.files[path].owner {
        Err(FsError::Unauthorized)
    } else {
        Ok(StateV { files: s.files.insert(path, apply_acl(s.files[path], op, xs)), ..s })
    }
}

/// What an ownership transfer does, or the error it fails with: the sole
/// mechanism by which ownership becomes decoupled from the namespace.
pub open spec fn change_owner_model(
    s: StateV,
    sender: Seq<char>,
    path0: Seq<char>,
    new_owner: Seq<char>,
) -> Result<StateV, FsError> {
    let path = resolve(s, path0);
    if !s.files.contains_key(path) {
        Err(FsError::NotFound)
    } else if sender != s.files[path].owner {
        Err(FsError::Unauthorized)
    } else {
        Ok(StateV { files: s.files.insert(path, FileV { owner: new_owner, ..s.files[path] }), ..s })
    }
}

/// Replacing a record's value in place (same path, allow-lists kept
/// duplicate-free) preserves the global shape invariant.
proof fn lemma_value_update_wf(s: StateV, path: Seq<char>, e1: FileV)
    requires
        state_wf(s),
        s.files.contains_key(path),
        distinct_seqs(e1.allow_read),
        distinct_seqs(e1.allow_write),
    ensures
        state_wf(StateV { files: s.files.insert(path, e1), ..s }),
{
    let m = StateV { files: s.files.insert(path, e1), ..s };
    assert forall|p: Seq<char>| #[trigger] m.folders.contains_key(p) implies folder_ok(
        m.files,
        p,
        m.folders[p],
    ) by {
        assert(folder_ok(s.files, p, s.folders[p]));
        let f = m.folders[p];
        assert forall|i: int| 0 <= i < f.child_folders.len() implies {
            let c = #[trigger] f.child_folders[i];
            crate::path::ends_slash(c) && m.files.contains_key(c) && crate::path::parent_of(c) == p
        } by {
            assert(s.files.contains_key(f.child_folders[i]));
        }
        assert forall|i: int| 0 <= i < f.child_files.len() implies {
            let c = #[trigger] f.child_files[i];
            c.len() > 0 && !crate::path::ends_slash(c) && m.files.contains_key(c)
                && crate::path::parent_of(c) == p
        } by {
            assert(s.files.contains_key(f.child_files[i]));
        }
    }
    assert forall|p: Seq<char>| #[trigger] m.files.contains_key(p) implies p.len() > 0
        && distinct_seqs(m.files[p].allow_read) && distinct_seqs(m.files[p].allow_write) by {
        assert(s.files.contains_key(p));
    }
}

/// Runs the allow-list operation on the record in place.
fn apply_acl_exec(e: &mut File, op: AclOp, addresses: &Vec<String>)
    ensures
        final(e)@ == apply_acl(old(e)@, op, addresses.deep_view()),
{
    let ghost xs = addresses.deep_view();
    let n = addresses.len();
    proof {
        assert(xs.skip(0) =~= xs);
    }
    match op {
        AclOp::AllowRead => {
            let mut i: usize = 0;
            while i < n
                invariant
                    n == addresses@.len(),
                    i <= n,
                    xs == addresses.deep_view(),
                    e@ == (FileV { allow_read: e@.allow_read, ..old(e)@ }),
                    add_all_model(e@.allow_read, xs.skip(i as int)) == add_all_model(
                        old(e)@.allow_read,
                        xs,
                    ),
                decreases n - i,
            {
                proof {
                    assert(xs.skip(i as int)[0] == xs[i as int]);
                    assert(xs.skip(i as int).drop_first() =~= xs.skip(i + 1));
                }
                e.add_allow_read(addresses[i].clone());
                i = i + 1;
            }
            proof {
                assert(xs.skip(n as int) =~= Seq::<Seq<char>>::empty());
            }
        },
        AclOp::AllowWrite => {
            let mut i: usize = 0;
            while i < n
                invariant
                    n == addresses@.len(),
                    i <= n,
                    xs == addresses.deep_view(),
                    e@ == (FileV { allow_write: e@.allow_write, ..old(e)@ }),
                    add_all_model(e@.allow_write, xs.skip(i as int)) == add_all_model(
                        old(e)@.allow_write,
                        xs,
                    ),
                decreases n - i,
            {
                proof {
                    assert(xs.skip(i as int)[0] == xs[i as int]);
                    assert(xs.skip(i as int).drop_first() =~= xs.skip(i + 1));
                }
                e.add_allow_write(addresses[i].clone());
                i = i + 1;
            }
            proof {
                assert(xs.skip(n as int) =~= Seq::<Seq<char>>::empty());
            }
        },
        AclOp::DisallowRead => {
            let mut i: usize = 0;
            while i < n
                invariant
                    n == addresses@.len(),
                    i <= n,
                    xs == addresses.deep_view(),
                    e@ == (FileV { allow_read: e@.allow_read, ..old(e)@ }),
                    remove_all_model(e@.allow_read, xs.skip(i as int)) == remove_all_model(
                        old(e)@.allow_read,
                        xs,
                    ),
                decreases n - i,
            {
                proof {
                    assert(xs.skip(i as int)[0] == xs[i as int]);
                    assert(xs.skip(i as int).drop_first() =~= xs.skip(i + 1));
                }
                e.remove_allow_read(&addresses[i]);
                i = i + 1;
            }
            proof {
                assert(xs.skip(n as int) =~= Seq::<Seq<char>>::empty());
            }
        },
        AclOp::DisallowWrite => {
            let mut i: usize = 0;
            while i < n
                invariant
                    n == addresses@.len(),
                    i <= n,
                    xs == addresses.deep_view(),
                    e@ == (FileV { allow_write: e@.allow_write, ..old(e)@ }),
                    remove_all_model(e@.allow_write, xs.skip(i as int)) == remove_all_model(
                        old(e)@.allow_write,
                        xs,
                    ),
                decreases n - i,
            {
                proof {
                    assert(xs.skip(i as int)[0] == xs[i as int]);
                    assert(xs.skip(i as int).drop_first() =~= xs.skip(i + 1));
                }
                e.remove_allow_write(&addresses[i]);
                i = i + 1;
            }
            proof {
                assert(xs.skip(n as int) =~= Seq::<Seq<char>>::empty());
            }
        },
        AclOp::ResetRead => {
            e.clear_allow_read();
        },
        AclOp::ResetWrite => {
            e.clear_allow_write();
        },
    }
}

/// Changes the allow-lists of the record at `path`; owner-only.  Clearing
/// a list is independent of its prior contents.
pub fn try_update_acl(
    state: &mut State,
    sender: &String,
    path: String,
    addresses: &Vec<String>,
    op: AclOp,
) -> (r: Result<(), FsError>)
    requires
        old(state).wf(),
    ensures
        final(state).wf(),
        match acl_model(old(state)@, sender@, path@, addresses.deep_view(), op) {
            Ok(m) => r == Ok::<(), FsError>(()) && final(state)@ == m,
            Err(e) => r == Err::<(), FsError>(e) && final(state)@ == old(state)@,
        },
{
    let rp = state.resolve_path(&path);
    let mut entry: File = match state.files.get(&rp) {
        None => {
            return Err(FsError::NotFound);
        },
        Some(e) => {
            if !(*e.owner() == *sender) {
                return Err(FsError::Unauthorized);
            }
            e.duplicate()
        },
    };
    let ghost s0 = state@;
    apply_acl_exec(&mut entry, op, addresses);
    proof {
        lemma_add_all_distinct(s0.files[rp@].allow_read, addresses.deep_view());
        lemma_add_all_distinct(s0.files[rp@].allow_write, addresses.deep_view());
        lemma_remove_all_distinct(s0.files[rp@].allow_read, addresses.deep_view());
        lemma_remove_all_distinct(s0.files[rp@].allow_write, addresses.deep_view());
        lemma_value_update_wf(s0, rp@, entry@);
    }
    state.files.insert(rp, entry);
    proof {
        let m = acl_model(s0, sender@, path@, addresses.deep_view(), op).unwrap();
        assert(state@ =~= m);
    }
    Ok(())
}

/// Hands the record at `path` to `new_owner`; owner-only.
pub fn try_change_owner(
    state: &mut State,
    sender: &String,
    path: String,
    new_owner: String,
) -> (r: Result<(), FsError>)
    requires
        old(state).wf(),
    ensures
        final(state).wf(),
        match change_owner_model(old(state)@, sender@, path@, new_owner@) {
            Ok(m) => r == Ok::<(), FsError>(()) && final(state)@ == m,
            Err(e) => r == Err::<(), FsError>(e) && final(state)@ == old(state)@,
        },
{
    let rp = state.resolve_path(&path);
    let mut entry: File = match state.files.get(&rp) {
        None => {
            return Err(FsError::NotFound);
        },
        Some(e) => {
            if !(*e.owner() == *sender) {
                return Err(FsError::Unauthorized);
            }
            e.duplicate()
        },
    };
    let ghost s0 = state@;
    entry.set_owner(new_owner);
    proof {
        lemma_value_update_wf(s0, rp@, entry@);
    }
    state.files.insert(rp, entry);
    proof {
        let m = change_owner_model(s0, sender@, path@, new_owner@).unwrap();
        assert(state@ =~= m);
    }
    Ok(())
}

} // verus!
