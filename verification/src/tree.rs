//! The flattened tree over the flat store: creating, removing and moving
//! records addressed by path, with the owner/allow-list permission check
//! in front of every mutation.  Each operation's contract equates the
//! final store with a functional model of the operation, and every
//! operation preserves the global shape invariant.

use vstd::prelude::*;

use crate::backend::{
    distinct_seqs, drop_value, make_file_entry, make_folder, new_file_v, push_unique_model,
    lemma_drop_value_props, lemma_push_unique, str_vec_contains, File, FileV, Folder, FolderV,
};
use crate::error::FsError;
use crate::path::{ends_slash, is_folder_path, lemma_split, parent_of, path_len, split_path, valid_target};
use crate::state::{folder_ok, resolve, state_wf, State, StateV};

verus! {

/// The caller may mutate under this record: it is the owner or stands in
/// the write allow-list.
pub open spec fn may_write(e: FileV, caller: Seq<char>) -> bool {
    caller == e.owner || e.allow_write.contains(caller)
}

/// The caller may read this record: it is the owner or stands in the read
/// allow-list.
pub open spec fn may_read(e: FileV, caller: Seq<char>) -> bool {
    caller == e.owner || e.allow_read.contains(caller)
}

/// Owner or write allow-list membership.
pub fn authorized_write(e: &File, caller: &String) -> (b: bool)
    ensures
        b == may_write(e@, caller@),
{
    if *e.owner() == *caller {
        true
    } else {
        str_vec_contains(e.allow_write_list(), caller)
    }
}

/// Owner or read allow-list membership.
pub fn authorized_read(e: &File, caller: &String) -> (b: bool)
    ensures
        b == may_read(e@, caller@),
{
    if *e.owner() == *caller {
        true
    } else {
        str_vec_contains(e.allow_read_list(), caller)
    }
}

/// The parent listing with child `c` registered in the appropriate list.
pub open spec fn folder_with_child(f: FolderV, c: Seq<char>) -> FolderV {
    if ends_slash(c) {
        FolderV { child_folders: push_unique_model(f.child_folders, c), ..f }
    } else {
        FolderV { child_files: push_unique_model(f.child_files, c), ..f }
    }
}

/// The parent listing with child `c` unregistered.
pub open spec fn folder_without_child(f: FolderV, c: Seq<char>) -> FolderV {
    if ends_slash(c) {
        FolderV { child_folders: drop_value(f.child_folders, c), ..f }
    } else {
        FolderV { child_files: drop_value(f.child_files, c), ..f }
    }
}

/// Whether a record lives at the resolved path, file or folder alike:
/// the check that decides a name collision, made against the store
/// itself, not against a parent's listing.
pub fn file_exists(state: &State, path: &String) -> (b: bool)
    requires
        state.wf(),
    ensures
        b == state@.files.contains_key(resolve(state@, path@)),
{
    let rp = state.resolve_path(path);
    state.files.contains_key(&rp)
}

/// Whether a folder's listing lives at the resolved path.
pub fn folder_exists(state: &State, path: &String) -> (b: bool)
    requires
        state.wf(),
    ensures
        b == state@.folders.contains_key(resolve(state@, path@)),
{
    let rp = state.resolve_path(path);
    state.folders.contains_key(&rp)
}

/// The record at the resolved path, if any.
pub fn load_file<'a>(state: &'a State, path: &String) -> (r: Option<&'a File>)
    requires
        state.wf(),
    ensures
        match r {
            Some(f) => state@.files.contains_key(resolve(state@, path@)) && f@ == state@.files[resolve(
                state@,
                path@,
            )],
            None => !state@.files.contains_key(resolve(state@, path@)),
        },
{
    let rp = state.resolve_path(path);
    state.files.get(&rp)
}

/// The folder listing at the resolved path, if any.
pub fn load_folder<'a>(state: &'a State, path: &String) -> (r: Option<&'a Folder>)
    requires
        state.wf(),
    ensures
        match r {
            Some(f) => state@.folders.contains_key(resolve(state@, path@)) && f@
                == state@.folders[resolve(state@, path@)],
            None => !state@.folders.contains_key(resolve(state@, path@)),
        },
{
    let rp = state.resolve_path(path);
    state.folders.get(&rp)
}

/// What a create does, or the error it fails with: resolve the path onto
/// the live namespace, require the enclosing folder to exist and be
/// writable by the sender, refuse a taken path, then write the child
/// record (owned by the sender, not the folder owner) and register it in
/// the parent's listing.
pub open spec fn create_model(
    s: StateV,
    sender: Seq<char>,
    path0: Seq<char>,
    contents: Seq<char>,
    public_key: Seq<char>,
    secret_key: Seq<char>,
) -> Result<StateV, FsError> {
    let path = resolve(s, path0);
    let parent = parent_of(path);
    if !valid_target(path) {
        Err(FsError::MalformedInput)
    } else if !s.files.contains_key(parent) {
        Err(FsError::NotFound)
    } else if !may_write(s.files[parent], sender) {
        Err(FsError::Unauthorized)
    } else if s.files.contains_key(path) {
        Err(FsError::AlreadyExists)
    } else {
        let files1 = s.files.insert(path, new_file_v(sender, contents, public_key, secret_key));
        let folders1 = s.folders.insert(parent, folder_with_child(s.folders[parent], path));
        let folders2 = if ends_slash(path) {
            folders1.insert(
                path,
                FolderV {
                    child_folders: Seq::<Seq<char>>::empty(),
                    child_files: Seq::<Seq<char>>::empty(),
                },
            )
        } else {
            folders1
        };
        Ok(StateV { files: files1, folders: folders2, ..s })
    }
}

/// Creates a file or folder record at `path` (a folder when the path ends
/// in `/`), after the permission checks of `create_model`.  On any error
/// the store is untouched.
pub fn try_create_file(
    state: &mut State,
    sender: &String,
    contents: String,
    path: String,
    public_key: String,
    secret_key: String,
) -> (r: Result<(), FsError>)
    requires
        old(state).wf(),
    ensures
        final(state).wf(),
        match create_model(old(state)@, sender@, path@, contents@, public_key@, secret_key@) {
            Ok(m) => r == Ok::<(), FsError>(()) && final(state)@ == m,
            Err(e) => r == Err::<(), FsError>(e) && final(state)@ == old(state)@,
        },
{
    let rp = state.resolve_path(&path);
    let folder = is_folder_path(&rp);
    let (parent, name) = split_path(&rp);
    proof {
        lemma_split(rp@);
    }
    let ok_target: bool = if folder {
        path_len(&name) >= 2
    } else {
        path_len(&rp) > 0
    };
    if !ok_target {
        return Err(FsError::MalformedInput);
    }
    let authorized: bool = match state.files.get(&parent) {
        None => {
            return Err(FsError::NotFound);
        },
        Some(parent_entry) => authorized_write(parent_entry, sender),
    };
    if !authorized {
        return Err(FsError::Unauthorized);
    }
    if state.files.contains_key(&rp) {
        return Err(FsError::AlreadyExists);
    }

    let ghost s0 = state@;
    let ghost parentv = parent@;
    let child = make_file_entry(sender, contents, public_key, secret_key);
    let rp2 = rp.clone();
    state.files.insert(rp, child);
    let mut listing: Folder = match state.folders.get(&parent) {
        Some(f) => f.duplicate(),
        None => {
            proof {
                assert(ends_slash(parentv));
                assert(false);
            }
            make_folder()
        },
    };
    if folder {
        listing.add_child_folder(rp2.clone());
    } else {
        listing.add_child_file(rp2.clone());
    }
    state.folders.insert(parent, listing);
    if folder {
        state.folders.insert(rp2, make_folder());
    }

    proof {
        let m = create_model(s0, sender@, path@, contents@, public_key@, secret_key@).unwrap();
        assert(state@ =~= m);
        lemma_create_wf(s0, sender@, path@, contents@, public_key@, secret_key@);
    }
    Ok(())
}

/// A successful create preserves the global shape invariant.
proof fn lemma_create_wf(
    s: StateV,
    sender: Seq<char>,
    path0: Seq<char>,
    contents: Seq<char>,
    public_key: Seq<char>,
    secret_key: Seq<char>,
)
    requires
        state_wf(s),
        create_model(s, sender, path0, contents, public_key, secret_key) is Ok,
    ensures
        state_wf(create_model(s, sender, path0, contents, public_key, secret_key).unwrap()),
{
    let path = resolve(s, path0);
    let parent = parent_of(path);
    let m = create_model(s, sender, path0, contents, public_key, secret_key).unwrap();
    lemma_split(path);
    lemma_push_unique(s.folders[parent].child_folders, path);
    lemma_push_unique(s.folders[parent].child_files, path);
    assert(s.folders.contains_key(parent));
    assert(folder_ok(s.files, parent, s.folders[parent]));
    assert forall|p: Seq<char>| #[trigger] m.folders.contains_key(p) implies m.files.contains_key(p) by {
        if p != path && p != parent {
            assert(s.folders.contains_key(p));
        }
    }
    assert forall|p: Seq<char>| #[trigger] m.files.contains_key(p) implies (ends_slash(p)
        <==> m.folders.contains_key(p)) by {
        if p != path && p != parent {
            assert(s.files.contains_key(p));
        }
    }
    assert forall|p: Seq<char>| #[trigger] m.folders.contains_key(p) implies folder_ok(
        m.files,
        p,
        m.folders[p],
    ) by {
        if p == path {
        } else if p == parent {
            let f0 = s.folders[parent];
            let f1 = m.folders[parent];
            assert(folder_ok(s.files, parent, f0));
            if ends_slash(path) {
                assert(f1.child_folders == push_unique_model(f0.child_folders, path));
                assert forall|i: int| 0 <= i < f1.child_folders.len() implies {
                    let c = #[trigger] f1.child_folders[i];
                    ends_slash(c) && m.files.contains_key(c) && parent_of(c) == parent
                } by {
                    if i < f0.child_folders.len() {
                        assert(f1.child_folders[i] == f0.child_folders[i]);
                    } else {
                        assert(f1.child_folders[i] == path);
                    }
                }
            } else {
                assert(f1.child_files == push_unique_model(f0.child_files, path));
                assert forall|i: int| 0 <= i < f1.child_files.len() implies {
                    let c = #[trigger] f1.child_files[i];
                    c.len() > 0 && !ends_slash(c) && m.files.contains_key(c) && parent_of(c)
                        == parent
                } by {
                    if i < f0.child_files.len() {
                        assert(f1.child_files[i] == f0.child_files[i]);
                    } else {
                        assert(f1.child_files[i] == path);
                    }
                }
            }
        } else {
            assert(s.folders.contains_key(p));
            assert(folder_ok(s.files, p, s.folders[p]));
            assert(m.folders[p] == s.folders[p]);
            let f = m.folders[p];
            assert forall|i: int| 0 <= i < f.child_folders.len() implies {
                let c = #[trigger] f.child_folders[i];
                ends_slash(c) && m.files.contains_key(c) && parent_of(c) == p
            } by {
                assert(s.files.contains_key(f.child_folders[i]));
            }
            assert forall|i: int| 0 <= i < f.child_files.len() implies {
                let c = #[trigger] f.child_files[i];
                c.len() > 0 && !ends_slash(c) && m.files.contains_key(c) && parent_of(c) == p
            } by {
                assert(s.files.contains_key(f.child_files[i]));
            }
        }
    }
    assert forall|p: Seq<char>| #[trigger] m.files.contains_key(p) implies p.len() > 0
        && distinct_seqs(m.files[p].allow_read) && distinct_seqs(m.files[p].allow_write) by {
        if p != path {
            assert(s.files.contains_key(p));
        }
    }
}

/// What a remove does, or the error it fails with: only the record's
/// owner may remove it; the path is unregistered from its parent's
/// listing and the record (with its own listing, for a folder) deleted.
/// Descendants of a removed folder are orphaned, not deleted.
pub open spec fn remove_model(s: StateV, sender: Seq<char>, path0: Seq<char>) -> Result<
    StateV,
    FsError,
> {
    let path = resolve(s, path0);
    let parent = parent_of(path);
    if !s.files.contains_key(path) {
        Err(FsError::NotFound)
    } else if sender != s.files[path].owner {
        Err(FsError::Unauthorized)
    } else {
        let files1 = s.files.remove(path);
        let folders1 = if s.folders.contains_key(parent) {
            s.folders.insert(parent, folder_without_child(s.folders[parent], path))
        } else {
            s.folders
        };
        let folders2 = if ends_slash(path) {
            folders1.remove(path)
        } else {
            folders1
        };
        Ok(StateV { files: files1, folders: folders2, ..s })
    }
}

/// Removes the record at `path`; owner-only, non-recursive.
pub fn try_remove_file(state: &mut State, sender: &String, path: String) -> (r: Result<
    (),
    FsError,
>)
    requires
        old(state).wf(),
    ensures
        final(state).wf(),
        match remove_model(old(state)@, sender@, path@) {
            Ok(m) => r == Ok::<(), FsError>(()) && final(state)@ == m,
            Err(e) => r == Err::<(), FsError>(e) && final(state)@ == old(state)@,
        },
{
    let rp = state.resolve_path(&path);
    let folder = is_folder_path(&rp);
    let owner_ok: bool = match state.files.get(&rp) {
        None => {
            return Err(FsError::NotFound);
        },
        Some(e) => *e.owner() == *sender,
    };
    if !owner_ok {
        return Err(FsError::Unauthorized);
    }

    let ghost s0 = state@;
    let (parent, _name) = split_path(&rp);
    proof {
        lemma_split(rp@);
    }
    state.files.remove(&rp);
    match state.folders.get(&parent) {
        Some(f) => {
            let mut listing = f.duplicate();
            listing.remove_child(&rp, folder);
            state.folders.insert(parent, listing);
        },
        None => {},
    }
    if folder {
        state.folders.remove(&rp);
    }

    proof {
        let m = remove_model(s0, sender@, path@).unwrap();
        assert(state@ =~= m);
        lemma_remove_wf(s0, sender@, path@);
    }
    Ok(())
}

/// A successful remove preserves the global shape invariant.
proof fn lemma_remove_wf(s: StateV, sender: Seq<char>, path0: Seq<char>)
    requires
        state_wf(s),
        remove_model(s, sender, path0) is Ok,
    ensures
        state_wf(remove_model(s, sender, path0).unwrap()),
{
    let path = resolve(s, path0);
    let parent = parent_of(path);
    let m = remove_model(s, sender, path0).unwrap();
    if s.folders.contains_key(parent) {
        lemma_drop_value_props(s.folders[parent].child_folders, path);
        lemma_drop_value_props(s.folders[parent].child_files, path);
    }
    assert forall|p: Seq<char>| #[trigger] m.folders.contains_key(p) implies m.files.contains_key(p) by {
        assert(s.folders.contains_key(p));
        assert(s.files.contains_key(p));
    }
    assert forall|p: Seq<char>| #[trigger] m.files.contains_key(p) implies (ends_slash(p)
        <==> m.folders.contains_key(p)) by {
        assert(s.files.contains_key(p));
    }
    assert forall|p: Seq<char>| #[trigger] m.folders.contains_key(p) implies folder_ok(
        m.files,
        p,
        m.folders[p],
    ) by {
        assert(s.folders.contains_key(p));
        assert(folder_ok(s.files, p, s.folders[p]));
        let f0 = s.folders[p];
        let f1 = m.folders[p];
        if p == parent {
            assert(f1 == folder_without_child(f0, path));
            assert forall|i: int| 0 <= i < f1.child_folders.len() implies {
                let c = #[trigger] f1.child_folders[i];
                ends_slash(c) && m.files.contains_key(c) && parent_of(c) == p
            } by {
                let c = f1.child_folders[i];
                assert(f1.child_folders.contains(c));
                if ends_slash(path) {
                    assert(c != path);
                    assert(f0.child_folders.contains(c));
                    let j = choose|j: int|
                        0 <= j < f0.child_folders.len() && f0.child_folders[j] == c;
                    assert(s.files.contains_key(c));
                } else {
                    assert(f1.child_folders == f0.child_folders);
                    assert(s.files.contains_key(c));
                    assert(c != path);
                }
            }
            assert forall|i: int| 0 <= i < f1.child_files.len() implies {
                let c = #[trigger] f1.child_files[i];
                c.len() > 0 && !ends_slash(c) && m.files.contains_key(c) && parent_of(c) == p
            } by {
                let c = f1.child_files[i];
                assert(f1.child_files.contains(c));
                if !ends_slash(path) {
                    assert(c != path);
                    assert(f0.child_files.contains(c));
                    let j = choose|j: int| 0 <= j < f0.child_files.len() && f0.child_files[j] == c;
                    assert(s.files.contains_key(c));
                } else {
                    assert(f1.child_files == f0.child_files);
                    assert(s.files.contains_key(c));
                    assert(c != path);
                }
            }
        } else {
            assert(f1 == f0);
            assert forall|i: int| 0 <= i < f1.child_folders.len() implies {
                let c = #[trigger] f1.child_folders[i];
                ends_slash(c) && m.files.contains_key(c) && parent_of(c) == p
            } by {
                assert(s.files.contains_key(f1.child_folders[i]));
                assert(parent_of(f1.child_folders[i]) == p);
            }
            assert forall|i: int| 0 <= i < f1.child_files.len() implies {
                let c = #[trigger] f1.child_files[i];
                c.len() > 0 && !ends_slash(c) && m.files.contains_key(c) && parent_of(c) == p
            } by {
                assert(s.files.contains_key(f1.child_files[i]));
                assert(parent_of(f1.child_files[i]) == p);
            }
        }
    }
    assert forall|p: Seq<char>| #[trigger] m.files.contains_key(p) implies p.len() > 0
        && distinct_seqs(m.files[p].allow_read) && distinct_seqs(m.files[p].allow_write) by {
        assert(s.files.contains_key(p));
    }
}

/// What a move does, or the error it fails with: only single records (not
/// folders) move; the caller must own the record and have write access to
/// the destination folder; the record keeps its owner, allow-lists and
/// payload under the new path.
pub open spec fn move_model(s: StateV, sender: Seq<char>, old0: Seq<char>, new0: Seq<char>) -> Result<
    StateV,
    FsError,
> {
    let oldp = resolve(s, old0);
    let newp = resolve(s, new0);
    let dest_parent = parent_of(newp);
    if ends_slash(oldp) || ends_slash(newp) || newp.len() == 0 {
        Err(FsError::MalformedInput)
    } else if !s.files.contains_key(oldp) {
        Err(FsError::NotFound)
    } else if sender != s.files[oldp].owner {
        Err(FsError::Unauthorized)
    } else if !s.files.contains_key(dest_parent) {
        Err(FsError::NotFound)
    } else if !may_write(s.files[dest_parent], sender) {
        Err(FsError::Unauthorized)
    } else if s.files.contains_key(newp) {
        Err(FsError::AlreadyExists)
    } else {
        let e = s.files[oldp];
        let files1 = s.files.remove(oldp).insert(newp, e);
        let src_parent = parent_of(oldp);
        let folders1 = if s.folders.contains_key(src_parent) {
            s.folders.insert(src_parent, folder_without_child(s.folders[src_parent], oldp))
        } else {
            s.folders
        };
        let folders2 = folders1.insert(dest_parent, folder_with_child(folders1[dest_parent], newp));
        Ok(StateV { files: files1, folders: folders2, ..s })
    }
}

/// Moves the file record at `old_path` to `new_path`: a delete and a
/// recreate with identical owner, allow-lists and payload.
pub fn try_move_file(state: &mut State, sender: &String, old_path: String, new_path: String) -> (r:
    Result<(), FsError>)
    requires
        old(state).wf(),
    ensures
        final(state).wf(),
        match move_model(old(state)@, sender@, old_path@, new_path@) {
            Ok(m) => r == Ok::<(), FsError>(()) && final(state)@ == m,
            Err(e) => r == Err::<(), FsError>(e) && final(state)@ == old(state)@,
        },
{
    let oldp = state.resolve_path(&old_path);
    let newp = state.resolve_path(&new_path);
    if is_folder_path(&oldp) || is_folder_path(&newp) || path_len(&newp) == 0 {
        return Err(FsError::MalformedInput);
    }
    let owner_ok: bool = match state.files.get(&oldp) {
        None => {
            return Err(FsError::NotFound);
        },
        Some(e) => *e.owner() == *sender,
    };
    if !owner_ok {
        return Err(FsError::Unauthorized);
    }
    let (dest_parent, _new_name) = split_path(&newp);
    proof {
        lemma_split(newp@);
    }
    let dest_ok: bool = match state.files.get(&dest_parent) {
        None => {
            return Err(FsError::NotFound);
        },
        Some(pe) => authorized_write(pe, sender),
    };
    if !dest_ok {
        return Err(FsError::Unauthorized);
    }
    if state.files.contains_key(&newp) {
        return Err(FsError::AlreadyExists);
    }

    let ghost s0 = state@;
    let moved: File = match state.files.get(&oldp) {
        Some(e) => e.duplicate(),
        None => {
            proof {
                assert(false);
            }
            return Err(FsError::NotFound);
        },
    };
    state.files.remove(&oldp);
    state.files.insert(newp.clone(), moved);
    let (src_parent, _old_name) = split_path(&oldp);
    proof {
        lemma_split(oldp@);
    }
    match state.folders.get(&src_parent) {
        Some(f) => {
            let mut listing = f.duplicate();
            listing.remove_child(&oldp, false);
            state.folders.insert(src_parent, listing);
        },
        None => {},
    }
    match state.folders.get(&dest_parent) {
        Some(f) => {
            let mut listing = f.duplicate();
            listing.add_child_file(newp);
            state.folders.insert(dest_parent, listing);
        },
        None => {
            proof {
                assert(ends_slash(dest_parent@));
                assert(false);
            }
        },
    }

    proof {
        let m = move_model(s0, sender@, old_path@, new_path@).unwrap();
        assert(state@ =~= m);
        lemma_move_wf(s0, sender@, old_path@, new_path@);
    }
    Ok(())
}

/// A successful move preserves the global shape invariant.
proof fn lemma_move_wf(s: StateV, sender: Seq<char>, old0: Seq<char>, new0: Seq<char>)
    requires
        state_wf(s),
        move_model(s, sender, old0, new0) is Ok,
    ensures
        state_wf(move_model(s, sender, old0, new0).unwrap()),
{
    let oldp = resolve(s, old0);
    let newp = resolve(s, new0);
    let src_parent = parent_of(oldp);
    let dest_parent = parent_of(newp);
    let m = move_model(s, sender, old0, new0).unwrap();
    lemma_split(newp);
    lemma_split(oldp);
    if s.folders.contains_key(src_parent) {
        lemma_drop_value_props(s.folders[src_parent].child_folders, oldp);
        lemma_drop_value_props(s.folders[src_parent].child_files, oldp);
    }
    let folders1 = if s.folders.contains_key(src_parent) {
        s.folders.insert(src_parent, folder_without_child(s.folders[src_parent], oldp))
    } else {
        s.folders
    };
    lemma_push_unique(folders1[dest_parent].child_files, newp);
    assert forall|p: Seq<char>| #[trigger] m.folders.contains_key(p) implies m.files.contains_key(p) by {
        assert(s.folders.contains_key(p));
        assert(s.files.contains_key(p));
        assert(p != oldp && p != newp);
    }
    assert forall|p: Seq<char>| #[trigger] m.files.contains_key(p) implies (ends_slash(p)
        <==> m.folders.contains_key(p)) by {
        if p == newp {
            assert(!s.folders.contains_key(newp));
        } else {
            assert(s.files.contains_key(p));
        }
    }
    assert forall|p: Seq<char>| #[trigger] m.folders.contains_key(p) implies folder_ok(
        m.files,
        p,
        m.folders[p],
    ) by {
        assert(s.folders.contains_key(p));
        assert(folder_ok(s.files, p, s.folders[p]));
        let f0 = s.folders[p];
        let fmid = folders1[p];
        let f1 = m.folders[p];
        assert forall|i: int| 0 <= i < f1.child_folders.len() implies {
            let c = #[trigger] f1.child_folders[i];
            ends_slash(c) && m.files.contains_key(c) && parent_of(c) == p
        } by {
            let c = f1.child_folders[i];
            assert(f1.child_folders == f0.child_folders);
            assert(s.files.contains_key(c));
            assert(c != oldp && c != newp);
        }
        assert forall|i: int| 0 <= i < f1.child_files.len() implies {
            let c = #[trigger] f1.child_files[i];
            c.len() > 0 && !ends_slash(c) && m.files.contains_key(c) && parent_of(c) == p
        } by {
            let c = f1.child_files[i];
            if p == dest_parent && c == newp {
                assert(m.files.contains_key(newp));
            } else {
                assert(f1.child_files.contains(c));
                if p == dest_parent {
                    assert(fmid.child_files.contains(c));
                }
                if p == src_parent {
                    assert(c != oldp);
                    assert(f0.child_files.contains(c));
                    let j = choose|j: int| 0 <= j < f0.child_files.len() && f0.child_files[j] == c;
                    assert(s.files.contains_key(c));
                } else {
                    assert(f0.child_files.contains(c));
                    let j = choose|j: int| 0 <= j < f0.child_files.len() && f0.child_files[j] == c;
                    assert(s.files.contains_key(c));
                    assert(parent_of(c) == p);
                    assert(c != oldp);
                }
                assert(c != newp ==> m.files.contains_key(c));
                assert(c != newp);
            }
        }
        assert(distinct_seqs(f1.child_folders));
        assert(distinct_seqs(f1.child_files));
    }
    assert forall|p: Seq<char>| #[trigger] m.files.contains_key(p) implies p.len() > 0
        && distinct_seqs(m.files[p].allow_read) && distinct_seqs(m.files[p].allow_write) by {
        if p != newp {
            assert(s.files.contains_key(p));
        } else {
            assert(m.files[newp] == s.files[oldp]);
        }
    }
}

/// The fold of single creates from index `i` on: the state reached and
/// the first error, if any.  A failing batch reports that error; the host
/// call-atomicity guarantee, not this sequencer, discards the writes of
/// the successful prefix.
pub open spec fn create_multi_model(
    s: StateV,
    sender: Seq<char>,
    cs: Seq<Seq<char>>,
    ps: Seq<Seq<char>>,
    pks: Seq<Seq<char>>,
    sks: Seq<Seq<char>>,
    i: int,
) -> (StateV, Result<(), FsError>)
    decreases ps.len() - i,
{
    if i < 0 || i >= ps.len() {
        (s, Ok(()))
    } else {
        match create_model(s, sender, ps[i], cs[i], pks[i], sks[i]) {
            Ok(m) => create_multi_model(m, sender, cs, ps, pks, sks, i + 1),
            Err(e) => (s, Err(e)),
        }
    }
}

/// The fold of single removes from index `i` on.
pub open spec fn remove_multi_model(s: StateV, sender: Seq<char>, ps: Seq<Seq<char>>, i: int) -> (
    StateV,
    Result<(), FsError>,
)
    decreases ps.len() - i,
{
    if i < 0 || i >= ps.len() {
        (s, Ok(()))
    } else {
        match remove_model(s, sender, ps[i]) {
            Ok(m) => remove_multi_model(m, sender, ps, i + 1),
            Err(e) => (s, Err(e)),
        }
    }
}

/// The fold of single moves from index `i` on.
pub open spec fn move_multi_model(
    s: StateV,
    sender: Seq<char>,
    olds: Seq<Seq<char>>,
    news: Seq<Seq<char>>,
    i: int,
) -> (StateV, Result<(), FsError>)
    decreases olds.len() - i,
{
    if i < 0 || i >= olds.len() {
        (s, Ok(()))
    } else {
        match move_model(s, sender, olds[i], news[i]) {
            Ok(m) => move_multi_model(m, sender, olds, news, i + 1),
            Err(e) => (s, Err(e)),
        }
    }
}

/// Applies one create per index, in list order, stopping at the first
/// error.  Mismatched list lengths are refused before any write.
pub fn try_create_multi_files(
    state: &mut State,
    sender: &String,
    contents_list: Vec<String>,
    path_list: Vec<String>,
    pkey_list: Vec<String>,
    skey_list: Vec<String>,
) -> (r: Result<(), FsError>)
    requires
        old(state).wf(),
    ensures
        final(state).wf(),
        if contents_list@.len() == path_list@.len() && pkey_list@.len() == path_list@.len()
            && skey_list@.len() == path_list@.len() {
            {
                let (m, res) = create_multi_model(
                    old(state)@,
                    sender@,
                    contents_list.deep_view(),
                    path_list.deep_view(),
                    pkey_list.deep_view(),
                    skey_list.deep_view(),
                    0,
                );
                final(state)@ == m && r == res
            }
        } else {
            r == Err::<(), FsError>(FsError::MalformedInput) && final(state)@ == old(state)@
        },
{
    let n = path_list.len();
    if contents_list.len() != n || pkey_list.len() != n || skey_list.len() != n {
        return Err(FsError::MalformedInput);
    }
    let ghost s0 = state@;
    let ghost cs = contents_list.deep_view();
    let ghost ps = path_list.deep_view();
    let ghost pks = pkey_list.deep_view();
    let ghost sks = skey_list.deep_view();
    let mut i: usize = 0;
    while i < n
        invariant
            state.wf(),
            s0 == old(state)@,
            i <= n,
            n == path_list@.len() && n == contents_list@.len() && n == pkey_list@.len() && n
                == skey_list@.len(),
            cs == contents_list.deep_view(),
            ps == path_list.deep_view(),
            pks == pkey_list.deep_view(),
            sks == skey_list.deep_view(),
            create_multi_model(s0, sender@, cs, ps, pks, sks, 0) == create_multi_model(
                state@,
                sender@,
                cs,
                ps,
                pks,
                sks,
                i as int,
            ),
        decreases n - i,
    {
        proof {
            assert(ps[i as int] == path_list@[i as int]@);
            assert(cs[i as int] == contents_list@[i as int]@);
            assert(pks[i as int] == pkey_list@[i as int]@);
            assert(sks[i as int] == skey_list@[i as int]@);
        }
        let res = try_create_file(
            state,
            sender,
            contents_list[i].clone(),
            path_list[i].clone(),
            pkey_list[i].clone(),
            skey_list[i].clone(),
        );
        match res {
            Ok(()) => {
                i = i + 1;
            },
            Err(e) => {
                proof {
                    assert(create_multi_model(state@, sender@, cs, ps, pks, sks, i as int) == (
                        state@,
                        Err::<(), FsError>(e),
                    ));
                }
                return Err(e);
            },
        }
    }
    Ok(())
}

/// Applies one remove per index, in list order, stopping at the first
/// error.
pub fn try_remove_multi_files(state: &mut State, sender: &String, path_list: Vec<String>) -> (r:
    Result<(), FsError>)
    requires
        old(state).wf(),
    ensures
        final(state).wf(),
        ({
            let (m, res) = remove_multi_model(old(state)@, sender@, path_list.deep_view(), 0);
            final(state)@ == m && r == res
        }),
{
    let n = path_list.len();
    let ghost s0 = state@;
    let ghost ps = path_list.deep_view();
    let mut i: usize = 0;
    while i < n
        invariant
            state.wf(),
            s0 == old(state)@,
            i <= n,
            n == path_list@.len(),
            ps == path_list.deep_view(),
            remove_multi_model(s0, sender@, ps, 0) == remove_multi_model(state@, sender@, ps, i as int),
        decreases n - i,
    {
        proof {
            assert(ps[i as int] == path_list@[i as int]@);
        }
        let res = try_remove_file(state, sender, path_list[i].clone());
        match res {
            Ok(()) => {
                i = i + 1;
            },
            Err(e) => {
                proof {
                    assert(remove_multi_model(state@, sender@, ps, i as int) == (
                        state@,
                        Err::<(), FsError>(e),
                    ));
                }
                return Err(e);
            },
        }
    }
    Ok(())
}

/// Applies one move per index, in list order, stopping at the first
/// error.  Mismatched list lengths are refused before any write.
pub fn try_move_multi_files(
    state: &mut State,
    sender: &String,
    old_path_list: Vec<String>,
    new_path_list: Vec<String>,
) -> (r: Result<(), FsError>)
    requires
        old(state).wf(),
    ensures
        final(state).wf(),
        if old_path_list@.len() == new_path_list@.len() {
            {
                let (m, res) = move_multi_model(
                    old(state)@,
                    sender@,
                    old_path_list.deep_view(),
                    new_path_list.deep_view(),
                    0,
                );
                final(state)@ == m && r == res
            }
        } else {
            r == Err::<(), FsError>(FsError::MalformedInput) && final(state)@ == old(state)@
        },
{
    let n = old_path_list.len();
    if new_path_list.len() != n {
        return Err(FsError::MalformedInput);
    }
    let ghost s0 = state@;
    let ghost olds = old_path_list.deep_view();
    let ghost news = new_path_list.deep_view();
    let mut i: usize = 0;
    while i < n
        invariant
            state.wf(),
            s0 == old(state)@,
            i <= n,
            n == old_path_list@.len() && n == new_path_list@.len(),
            olds == old_path_list.deep_view(),
            news == new_path_list.deep_view(),
            move_multi_model(s0, sender@, olds, news, 0) == move_multi_model(
                state@,
                sender@,
                olds,
                news,
                i as int,
            ),
        decreases n - i,
    {
        proof {
            assert(olds[i as int] == old_path_list@[i as int]@);
            assert(news[i as int] == new_path_list@[i as int]@);
        }
        let res = try_move_file(state, sender, old_path_list[i].clone(), new_path_list[i].clone());
        match res {
            Ok(()) => {
                i = i + 1;
            },
            Err(e) => {
                proof {
                    assert(move_multi_model(state@, sender@, olds, news, i as int) == (
                        state@,
                        Err::<(), FsError>(e),
                    ));
                }
                return Err(e);
            },
        }
    }
    Ok(())
}

} // verus!
