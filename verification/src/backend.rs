//! The stored record types.  Every path maps to one `File` record holding
//! the payload, its owner and its allow-lists; a folder path additionally
//! maps to a `Folder` record listing the full paths of its children.

use vstd::prelude::*;

verus! {

/// Abstract value of a stored record.
#[verifier::ext_equal]
pub ghost struct FileV {
    pub contents: Seq<char>,
    pub owner: Seq<char>,
    pub public_key: Seq<char>,
    pub secret_key: Seq<char>,
    pub allow_read: Seq<Seq<char>>,
    pub allow_write: Seq<Seq<char>>,
}

/// Abstract value of a folder's child listing.
#[verifier::ext_equal]
pub ghost struct FolderV {
    pub child_folders: Seq<Seq<char>>,
    pub child_files: Seq<Seq<char>>,
}

/// One stored record: payload, opaque client-side encryption metadata,
/// the owning identity, and the per-record allow-lists.
#[derive(Debug)]
pub struct File {
    contents: String,
    owner: String,
    public_key: String,
    secret_key: String,
    allow_read: Vec<String>,
    allow_write: Vec<String>,
}

/// The child listing of a folder record: full paths, in insertion order.
#[derive(Debug)]
pub struct Folder {
    child_folders: Vec<String>,
    child_files: Vec<String>,
}

impl View for File {
    type V = FileV;

    closed spec fn view(&self) -> FileV {
        FileV {
            contents: self.contents@,
            owner: self.owner@,
            public_key: self.public_key@,
            secret_key: self.secret_key@,
            allow_read: self.allow_read.deep_view(),
            allow_write: self.allow_write.deep_view(),
        }
    }
}

impl DeepView for File {
    type V = FileV;

    open spec fn deep_view(&self) -> FileV {
        self.view()
    }
}

impl View for Folder {
    type V = FolderV;

    closed spec fn view(&self) -> FolderV {
        FolderV {
            child_folders: self.child_folders.deep_view(),
            child_files: self.child_files.deep_view(),
        }
    }
}

impl DeepView for Folder {
    type V = FolderV;

    open spec fn deep_view(&self) -> FolderV {
        self.view()
    }
}

/// A fresh record owned by `owner` with the given payload, no encryption
/// metadata and empty allow-lists.
pub fn make_file(owner: &str, contents: &str) -> (r: File)
    ensures
        r@ == (FileV {
            contents: contents@,
            owner: owner@,
            public_key: Seq::<char>::empty(),
            secret_key: Seq::<char>::empty(),
            allow_read: Seq::<Seq<char>>::empty(),
            allow_write: Seq::<Seq<char>>::empty(),
        }),
{
    let r = File {
        contents: contents.to_owned(),
        owner: owner.to_owned(),
        public_key: String::new(),
        secret_key: String::new(),
        allow_read: Vec::new(),
        allow_write: Vec::new(),
    };
    proof {
        assert(r.allow_read.deep_view() =~= Seq::<Seq<char>>::empty());
        assert(r.allow_write.deep_view() =~= Seq::<Seq<char>>::empty());
    }
    r
}

/// The abstract value of a freshly created record.
pub open spec fn new_file_v(
    owner: Seq<char>,
    contents: Seq<char>,
    public_key: Seq<char>,
    secret_key: Seq<char>,
) -> FileV {
    FileV {
        contents,
        owner,
        public_key,
        secret_key,
        allow_read: Seq::<Seq<char>>::empty(),
        allow_write: Seq::<Seq<char>>::empty(),
    }
}

/// A fresh record owned by `owner`, with client-side key metadata.
pub fn make_file_entry(owner: &String, contents: String, public_key: String, secret_key: String) -> (r:
    File)
    ensures
        r@ == new_file_v(owner@, contents@, public_key@, secret_key@),
{
    let r = File {
        contents,
        owner: owner.clone(),
        public_key,
        secret_key,
        allow_read: Vec::new(),
        allow_write: Vec::new(),
    };
    proof {
        assert(r.allow_read.deep_view() =~= Seq::<Seq<char>>::empty());
        assert(r.allow_write.deep_view() =~= Seq::<Seq<char>>::empty());
    }
    r
}

/// An empty folder listing.
pub fn make_folder() -> (r: Folder)
    ensures
        r@ == (FolderV {
            child_folders: Seq::<Seq<char>>::empty(),
            child_files: Seq::<Seq<char>>::empty(),
        }),
{
    let r = Folder { child_folders: Vec::new(), child_files: Vec::new() };
    proof {
        assert(r.child_folders.deep_view() =~= Seq::<Seq<char>>::empty());
        assert(r.child_files.deep_view() =~= Seq::<Seq<char>>::empty());
    }
    r
}

/// Copies a vector of strings; the copy denotes the same sequence.
pub fn clone_string_vec(v: &Vec<String>) -> (r: Vec<String>)
    ensures
        r.deep_view() == v.deep_view(),
{
    let r = v.clone();
    proof {
        assert forall|i: int| 0 <= i < v@.len() implies r@[i] == v@[i] by {
            assert(cloned::<String>(v@[i], r@[i]));
        }
        assert(r.deep_view() =~= v.deep_view());
    }
    r
}

/// Whether some element of `v` denotes the string `x`.
pub fn str_vec_contains(v: &Vec<String>, x: &String) -> (b: bool)
    ensures
        b == v.deep_view().contains(x@),
{
    let n = v.len();
    let mut i: usize = 0;
    while i < n
        invariant
            n == v@.len(),
            i <= n,
            forall|j: int| 0 <= j < i ==> v.deep_view()[j] != x@,
        decreases n - i,
    {
        if v[i] == *x {
            proof {
                assert(v.deep_view()[i as int] == x@);
            }
            return true;
        }
        i = i + 1;
    }
    false
}

/// Element-wise equality of two string vectors.
pub fn str_vec_eq(a: &Vec<String>, b: &Vec<String>) -> (r: bool)
    ensures
        r == (a.deep_view() == b.deep_view()),
{
    let n = a.len();
    if n != b.len() {
        proof {
            assert(a.deep_view().len() != b.deep_view().len());
        }
        return false;
    }
    let mut i: usize = 0;
    while i < n
        invariant
            n == a@.len() == b@.len(),
            i <= n,
            forall|j: int| 0 <= j < i ==> a.deep_view()[j] == b.deep_view()[j],
        decreases n - i,
    {
        if !(a[i] == b[i]) {
            proof {
                assert(a.deep_view()[i as int] != b.deep_view()[i as int]);
            }
            return false;
        }
        i = i + 1;
    }
    proof {
        assert(a.deep_view() =~= b.deep_view());
    }
    true
}

/// The list unchanged if it already holds `x`, else with `x` appended:
/// allow-lists and child listings grow append-only and stay duplicate-free.
pub open spec fn push_unique_model(l: Seq<Seq<char>>, x: Seq<char>) -> Seq<Seq<char>> {
    if l.contains(x) {
        l
    } else {
        l.push(x)
    }
}

/// The list without its first occurrence of `x` (unchanged if absent).
pub open spec fn drop_value(l: Seq<Seq<char>>, x: Seq<char>) -> Seq<Seq<char>>
    decreases l.len(),
{
    if l.len() == 0 {
        l
    } else if l[0] == x {
        l.drop_first()
    } else {
        seq![l[0]] + drop_value(l.drop_first(), x)
    }
}

/// No two elements denote the same string.
pub open spec fn distinct_seqs(l: Seq<Seq<char>>) -> bool {
    forall|i: int, j: int| 0 <= i < j < l.len() ==> l[i] != l[j]
}

pub proof fn lemma_push_unique(l: Seq<Seq<char>>, x: Seq<char>)
    ensures
        distinct_seqs(l) ==> distinct_seqs(push_unique_model(l, x)),
        push_unique_model(l, x).contains(x),
        forall|y: Seq<char>| push_unique_model(l, x).contains(y) <==> (l.contains(y) || y == x),
{
    let r = push_unique_model(l, x);
    if !l.contains(x) {
        assert(r[l.len() as int] == x);
        assert forall|y: Seq<char>| r.contains(y) implies (l.contains(y) || y == x) by {
            let i = choose|i: int| 0 <= i < r.len() && r[i] == y;
            if i < l.len() {
                assert(l[i] == y);
            }
        }
        assert forall|y: Seq<char>| (l.contains(y) || y == x) implies r.contains(y) by {
            if l.contains(y) {
                let i = choose|i: int| 0 <= i < l.len() && l[i] == y;
                assert(r[i] == y);
            } else {
                assert(r[l.len() as int] == y);
            }
        }
    }
}

pub proof fn lemma_drop_value_at(l: Seq<Seq<char>>, x: Seq<char>, i: int)
    requires
        0 <= i < l.len(),
        l[i] == x,
        forall|j: int| 0 <= j < i ==> l[j] != x,
    ensures
        drop_value(l, x) == l.remove(i),
    decreases l.len(),
{
    if i == 0 {
        assert(drop_value(l, x) =~= l.remove(0));
    } else {
        let t = l.drop_first();
        assert(t[i - 1] == x);
        assert(forall|j: int| 0 <= j < i - 1 ==> t[j] != x);
        lemma_drop_value_at(t, x, i - 1);
        assert(seq![l[0]] + t.remove(i - 1) =~= l.remove(i));
    }
}

pub proof fn lemma_drop_value_absent(l: Seq<Seq<char>>, x: Seq<char>)
    requires
        !l.contains(x),
    ensures
        drop_value(l, x) == l,
    decreases l.len(),
{
    if l.len() > 0 {
        assert(l[0] != x);
        assert(!l.drop_first().contains(x)) by {
            if l.drop_first().contains(x) {
                let i = choose|i: int| 0 <= i < l.drop_first().len() && l.drop_first()[i] == x;
                assert(l[i + 1] == x);
            }
        }
        lemma_drop_value_absent(l.drop_first(), x);
        assert(seq![l[0]] + l.drop_first() =~= l);
    }
}

pub proof fn lemma_drop_value_props(l: Seq<Seq<char>>, x: Seq<char>)
    requires
        distinct_seqs(l),
    ensures
        distinct_seqs(drop_value(l, x)),
        !drop_value(l, x).contains(x),
        forall|y: Seq<char>| drop_value(l, x).contains(y) ==> l.contains(y),
        forall|y: Seq<char>| l.contains(y) && y != x ==> drop_value(l, x).contains(y),
{
    if l.contains(x) {
        let i = choose|i: int| 0 <= i < l.len() && l[i] == x;
        assert forall|j: int| 0 <= j < i implies l[j] != x by {}
        lemma_drop_value_at(l, x, i);
        let r = l.remove(i);
        assert forall|a: int, b: int| 0 <= a < b < r.len() implies r[a] != r[b] by {
            let sa: int = if a < i { a } else { a + 1 };
            let sb: int = if b < i { b } else { b + 1 };
            assert(r[a] == l[sa]);
            assert(r[b] == l[sb]);
        }
        assert forall|k: int| 0 <= k < r.len() implies r[k] != x by {
            let sk: int = if k < i { k } else { k + 1 };
            assert(r[k] == l[sk]);
        }
        assert forall|y: Seq<char>| r.contains(y) implies l.contains(y) by {
            let k = choose|k: int| 0 <= k < r.len() && r[k] == y;
            let sk: int = if k < i { k } else { k + 1 };
            assert(l[sk] == y);
        }
        assert forall|y: Seq<char>| l.contains(y) && y != x implies r.contains(y) by {
            let k = choose|k: int| 0 <= k < l.len() && l[k] == y;
            if k < i {
                assert(r[k] == y);
            } else {
                assert(k > i);
                assert(r[k - 1] == y);
            }
        }
    } else {
        lemma_drop_value_absent(l, x);
    }
}

/// Appends `x` unless some element already denotes it.
pub fn push_unique(v: &mut Vec<String>, x: String)
    ensures
        final(v).deep_view() == push_unique_model(old(v).deep_view(), x@),
{
    if !str_vec_contains(v, &x) {
        let ghost d = v.deep_view();
        v.push(x);
        proof {
            assert(v.deep_view() =~= d.push(x@));
        }
    }
}

/// Removes the first element denoting `x`, if any.
pub fn remove_value_str(v: &mut Vec<String>, x: &String)
    ensures
        final(v).deep_view() == drop_value(old(v).deep_view(), x@),
{
    let n = v.len();
    let mut i: usize = 0;
    while i < n
        invariant
            n == v@.len(),
            i <= n,
            *v == *old(v),
            forall|j: int| 0 <= j < i ==> v.deep_view()[j] != x@,
        decreases n - i,
    {
        if v[i] == *x {
            proof {
                assert(v.deep_view()[i as int] == x@);
                lemma_drop_value_at(v.deep_view(), x@, i as int);
            }
            let ghost d = v.deep_view();
            v.remove(i);
            proof {
                assert(v.deep_view() =~= d.remove(i as int));
            }
            return;
        }
        i = i + 1;
    }
    proof {
        assert(!old(v).deep_view().contains(x@));
        lemma_drop_value_absent(old(v).deep_view(), x@);
    }
}

impl File {
    /// The stored payload.
    pub fn get_contents(&self) -> (r: &str)
        ensures
            r@ == self@.contents,
    {
        self.contents.as_str()
    }

    /// The owning identity.
    pub fn owner(&self) -> (r: &String)
        ensures
            r@ == self@.owner,
    {
        &self.owner
    }

    /// The identities allowed to read besides the owner, in insertion order.
    pub fn allow_read_list(&self) -> (r: &Vec<String>)
        ensures
            r.deep_view() == self@.allow_read,
    {
        &self.allow_read
    }

    /// The identities allowed to write besides the owner, in insertion order.
    pub fn allow_write_list(&self) -> (r: &Vec<String>)
        ensures
            r.deep_view() == self@.allow_write,
    {
        &self.allow_write
    }

    /// The client-side public key metadata.
    pub fn public_key(&self) -> (r: &String)
        ensures
            r@ == self@.public_key,
    {
        &self.public_key
    }

    /// The client-side secret key metadata.
    pub fn secret_key(&self) -> (r: &String)
        ensures
            r@ == self@.secret_key,
    {
        &self.secret_key
    }

    /// An identical copy of the record.
    pub fn duplicate(&self) -> (r: File)
        ensures
            r@ == self@,
    {
        File {
            contents: self.contents.clone(),
            owner: self.owner.clone(),
            public_key: self.public_key.clone(),
            secret_key: self.secret_key.clone(),
            allow_read: clone_string_vec(&self.allow_read),
            allow_write: clone_string_vec(&self.allow_write),
        }
    }
}

impl Folder {
    /// The full paths of the files listed in this folder.
    pub fn list_files(&self) -> (r: Vec<String>)
        ensures
            r.deep_view() == self@.child_files,
    {
        clone_string_vec(&self.child_files)
    }

    /// The full paths of the subfolders listed in this folder.
    pub fn list_folders(&self) -> (r: Vec<String>)
        ensures
            r.deep_view() == self@.child_folders,
    {
        clone_string_vec(&self.child_folders)
    }

    /// An identical copy of the listing.
    pub fn duplicate(&self) -> (r: Folder)
        ensures
            r@ == self@,
    {
        Folder {
            child_folders: clone_string_vec(&self.child_folders),
            child_files: clone_string_vec(&self.child_files),
        }
    }

    /// Registers a child folder path, ignoring a duplicate registration.
    pub fn add_child_folder(&mut self, p: String)
        ensures
            final(self)@.child_folders == push_unique_model(old(self)@.child_folders, p@),
            final(self)@.child_files == old(self)@.child_files,
    {
        push_unique(&mut self.child_folders, p);
    }

    /// Registers a child file path, ignoring a duplicate registration.
    pub fn add_child_file(&mut self, p: String)
        ensures
            final(self)@.child_files == push_unique_model(old(self)@.child_files, p@),
            final(self)@.child_folders == old(self)@.child_folders,
    {
        push_unique(&mut self.child_files, p);
    }

    /// Unregisters a child path from the appropriate listing.
    pub fn remove_child(&mut self, p: &String, folder: bool)
        ensures
            folder ==> final(self)@.child_folders == drop_value(old(self)@.child_folders, p@)
                && final(self)@.child_files == old(self)@.child_files,
            !folder ==> final(self)@.child_files == drop_value(old(self)@.child_files, p@)
                && final(self)@.child_folders == old(self)@.child_folders,
    {
        if folder {
            remove_value_str(&mut self.child_folders, p);
        } else {
            remove_value_str(&mut self.child_files, p);
        }
    }
}

impl File {
    /// Grants or revokes read or write access; the four allow-list
    /// operations differ only in which list they touch and in direction.
    pub fn add_allow_read(&mut self, x: String)
        ensures
            final(self)@ == (FileV { allow_read: push_unique_model(old(self)@.allow_read, x@), ..old(self)@ }),
    {
        push_unique(&mut self.allow_read, x);
    }

    pub fn add_allow_write(&mut self, x: String)
        ensures
            final(self)@ == (FileV { allow_write: push_unique_model(old(self)@.allow_write, x@), ..old(self)@ }),
    {
        push_unique(&mut self.allow_write, x);
    }

    pub fn remove_allow_read(&mut self, x: &String)
        ensures
            final(self)@ == (FileV { allow_read: drop_value(old(self)@.allow_read, x@), ..old(self)@ }),
    {
        remove_value_str(&mut self.allow_read, x);
    }

    pub fn remove_allow_write(&mut self, x: &String)
        ensures
            final(self)@ == (FileV { allow_write: drop_value(old(self)@.allow_write, x@), ..old(self)@ }),
    {
        remove_value_str(&mut self.allow_write, x);
    }

    /// Clears the read allow-list.
    pub fn clear_allow_read(&mut self)
        ensures
            final(self)@ == (FileV { allow_read: Seq::<Seq<char>>::empty(), ..old(self)@ }),
    {
        self.allow_read.clear();
        proof {
            assert(self.allow_read.deep_view() =~= Seq::<Seq<char>>::empty());
        }
    }

    /// Clears the write allow-list.
    pub fn clear_allow_write(&mut self)
        ensures
            final(self)@ == (FileV { allow_write: Seq::<Seq<char>>::empty(), ..old(self)@ }),
    {
        self.allow_write.clear();
        proof {
            assert(self.allow_write.deep_view() =~= Seq::<Seq<char>>::empty());
        }
    }

    /// Hands the record to a new owner.
    pub fn set_owner(&mut self, new_owner: String)
        ensures
            final(self)@ == (FileV { owner: new_owner@, ..old(self)@ }),
    {
        self.owner = new_owner;
    }
}

impl PartialEq for File {
    /// Records are compared by payload, owner and allow-lists; the opaque
    /// client-side encryption metadata never takes part in equality.
    fn eq(&self, other: &File) -> (r: bool) {
        self.contents == other.contents && self.owner == other.owner
            && str_vec_eq(&self.allow_read, &other.allow_read)
            && str_vec_eq(&self.allow_write, &other.allow_write)
    }
}

impl vstd::std_specs::cmp::PartialEqSpecImpl for File {
    open spec fn obeys_eq_spec() -> bool {
        true
    }

    open spec fn eq_spec(&self, other: &File) -> bool {
        self@.contents == other@.contents && self@.owner == other@.owner
            && self@.allow_read == other@.allow_read && self@.allow_write == other@.allow_write
    }
}

} // verus!
