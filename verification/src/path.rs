//! Paths address every stored record: `/`-delimited segments, where a
//! folder path ends with `/` and a file path does not.  The first segment
//! names an account; the parent of a path is everything up to and
//! including its last interior `/`.

use vstd::prelude::*;

verus! {

/// A folder path: nonempty and ending in `/`.
pub open spec fn ends_slash(p: Seq<char>) -> bool {
    p.len() > 0 && p.last() == '/'
}

/// Index of the last `/` in `s`, or -1 if there is none.
pub open spec fn last_slash(s: Seq<char>) -> int
    decreases s.len(),
{
    if s.len() == 0 {
        -1
    } else if s.last() == '/' {
        s.len() - 1
    } else {
        last_slash(s.drop_last())
    }
}

pub proof fn lemma_last_slash(s: Seq<char>)
    ensures
        -1 <= last_slash(s) < s.len(),
        last_slash(s) >= 0 ==> s[last_slash(s)] == '/',
        forall|j: int| last_slash(s) < j < s.len() ==> s[j] != '/',
    decreases s.len(),
{
    if s.len() > 0 && s.last() != '/' {
        lemma_last_slash(s.drop_last());
        assert(forall|j: int| last_slash(s) < j < s.len() - 1 ==> s.drop_last()[j] == s[j]);
    }
}

/// The path with a trailing folder slash stripped, so that the split of a
/// folder path finds the `/` before its name rather than its own.
pub open spec fn split_core(p: Seq<char>) -> Seq<char> {
    if ends_slash(p) {
        p.drop_last()
    } else {
        p
    }
}

/// Index of the `/` separating the parent from the final segment, or -1.
pub open spec fn cut_of(p: Seq<char>) -> int {
    last_slash(split_core(p))
}

/// The enclosing folder's path: empty for a root or slash-free path.
pub open spec fn parent_of(p: Seq<char>) -> Seq<char> {
    p.subrange(0, cut_of(p) + 1)
}

/// The final segment, keeping a folder's trailing slash.
pub open spec fn name_of(p: Seq<char>) -> Seq<char> {
    p.subrange(cut_of(p) + 1, p.len() as int)
}

/// A path that a create or move may target: its final segment is nonempty
/// (a folder name carries its trailing slash, hence length two or more).
pub open spec fn valid_target(p: Seq<char>) -> bool {
    if ends_slash(p) {
        name_of(p).len() >= 2
    } else {
        p.len() > 0
    }
}

pub proof fn lemma_split(p: Seq<char>)
    ensures
        p =~= parent_of(p) + name_of(p),
        parent_of(p).len() > 0 ==> ends_slash(parent_of(p)),
        !ends_slash(p) && p.len() > 0 ==> name_of(p).len() > 0,
{
    lemma_last_slash(split_core(p));
    if ends_slash(p) {
        assert(cut_of(p) < p.len() - 1);
    }
    if parent_of(p).len() > 0 {
        assert(cut_of(p) >= 0);
        assert(split_core(p)[cut_of(p)] == '/');
        assert(p[cut_of(p)] == '/');
        assert(parent_of(p).last() == '/');
    }
}

/// End of the first segment: index of the first `/`, or the length.
pub open spec fn first_slash_from(p: Seq<char>, i: int) -> int
    decreases p.len() - i,
{
    if i < 0 || i >= p.len() {
        p.len() as int
    } else if p[i] == '/' {
        i
    } else {
        first_slash_from(p, i + 1)
    }
}

pub open spec fn seg_end(p: Seq<char>) -> int {
    first_slash_from(p, 0)
}

/// The account segment that starts the path.
pub open spec fn first_seg(p: Seq<char>) -> Seq<char> {
    p.subrange(0, seg_end(p))
}

/// Everything after the account segment, including the `/` itself.
pub open spec fn seg_rest(p: Seq<char>) -> Seq<char> {
    p.subrange(seg_end(p), p.len() as int)
}

pub proof fn lemma_first_slash_from(p: Seq<char>, i: int)
    requires
        0 <= i <= p.len(),
    ensures
        i <= first_slash_from(p, i) <= p.len(),
        first_slash_from(p, i) < p.len() ==> p[first_slash_from(p, i)] == '/',
        forall|j: int| i <= j < first_slash_from(p, i) ==> p[j] != '/',
    decreases p.len() - i,
{
    if i < p.len() && p[i] != '/' {
        lemma_first_slash_from(p, i + 1);
    }
}

pub proof fn lemma_seg_split(p: Seq<char>)
    ensures
        p =~= first_seg(p) + seg_rest(p),
        forall|j: int| 0 <= j < first_seg(p).len() ==> first_seg(p)[j] != '/',
{
    lemma_first_slash_from(p, 0);
}

/// The decimal digit `d` as a character.
pub open spec fn digit_char(d: int) -> char {
    if d == 0 {
        '0'
    } else if d == 1 {
        '1'
    } else if d == 2 {
        '2'
    } else if d == 3 {
        '3'
    } else if d == 4 {
        '4'
    } else if d == 5 {
        '5'
    } else if d == 6 {
        '6'
    } else if d == 7 {
        '7'
    } else if d == 8 {
        '8'
    } else {
        '9'
    }
}

/// Decimal notation of a nonnegative number, most significant digit first.
pub open spec fn dec_str(n: int) -> Seq<char>
    decreases n,
{
    if n < 10 {
        seq![digit_char(n)]
    } else {
        dec_str(n / 10).push(digit_char(n % 10))
    }
}

/// Length of a path string in characters.
pub fn path_len(p: &String) -> (n: usize)
    ensures
        n == p@.len(),
{
    p.as_str().unicode_len()
}

/// Whether the path names a folder (ends with `/`).
pub fn is_folder_path(p: &String) -> (b: bool)
    ensures
        b == ends_slash(p@),
{
    let n = p.as_str().unicode_len();
    if n == 0 {
        false
    } else {
        p.as_str().get_char(n - 1) == '/'
    }
}

/// Splits a path into its enclosing folder's path and its final segment.
pub fn split_path(p: &String) -> (r: (String, String))
    ensures
        r.0@ == parent_of(p@),
        r.1@ == name_of(p@),
{
    let n = p.as_str().unicode_len();
    let core_end: usize = if is_folder_path(p) { n - 1 } else { n };
    proof {
        assert(split_core(p@) =~= p@.subrange(0, core_end as int));
        lemma_last_slash(split_core(p@));
        assert forall|k: int| cut_of(p@) < k < core_end implies p@[k] != '/' by {
            assert(split_core(p@)[k] != '/');
        }
    }
    let mut j: usize = core_end;
    while j > 0
        invariant
            j <= core_end,
            core_end <= n == p@.len(),
            split_core(p@) =~= p@.subrange(0, core_end as int),
            -1 <= cut_of(p@) < core_end,
            cut_of(p@) >= 0 ==> p@[cut_of(p@)] == '/',
            forall|k: int| cut_of(p@) < k < core_end ==> p@[k] != '/',
            forall|k: int| j <= k < core_end ==> p@[k] != '/',
        decreases j,
    {
        if p.as_str().get_char(j - 1) == '/' {
            proof {
                assert(cut_of(p@) == j - 1);
            }
            let parent = p.as_str().substring_char(0, j).to_owned();
            let name = p.as_str().substring_char(j, n).to_owned();
            proof {
                assert(parent@ =~= parent_of(p@));
                assert(name@ =~= name_of(p@));
            }
            return (parent, name);
        }
        j = j - 1;
    }
    proof {
        assert(cut_of(p@) == -1);
    }
    let parent = String::new();
    let name = p.as_str().substring_char(0, n).to_owned();
    proof {
        assert(parent@ =~= parent_of(p@));
        assert(name@ =~= name_of(p@));
    }
    (parent, name)
}

/// Splits a path into its account segment and the remainder.
pub fn split_first_seg(p: &String) -> (r: (String, String))
    ensures
        r.0@ == first_seg(p@),
        r.1@ == seg_rest(p@),
{
    let n = p.as_str().unicode_len();
    proof {
        lemma_first_slash_from(p@, 0);
    }
    let mut i: usize = 0;
    while i < n
        invariant
            i <= n == p@.len(),
            0 <= seg_end(p@) <= n,
            seg_end(p@) < n ==> p@[seg_end(p@)] == '/',
            forall|k: int| 0 <= k < seg_end(p@) ==> p@[k] != '/',
            forall|k: int| 0 <= k < i ==> p@[k] != '/',
        decreases n - i,
    {
        if p.as_str().get_char(i) == '/' {
            proof {
                assert(seg_end(p@) == i);
            }
            let seg = p.as_str().substring_char(0, i).to_owned();
            let rest = p.as_str().substring_char(i, n).to_owned();
            proof {
                assert(seg@ =~= first_seg(p@));
                assert(rest@ =~= seg_rest(p@));
            }
            return (seg, rest);
        }
        i = i + 1;
    }
    proof {
        assert(seg_end(p@) == n);
    }
    let seg = p.as_str().substring_char(0, n).to_owned();
    let rest = String::new();
    proof {
        assert(seg@ =~= first_seg(p@));
        assert(rest@ =~= seg_rest(p@));
    }
    (seg, rest)
}

/// Appends the character of decimal digit `d` to `s`.
fn push_digit(s: &mut String, d: u32)
    requires
        d < 10,
    ensures
        final(s)@ == old(s)@.push(digit_char(d as int)),
{
    proof {
        reveal_strlit("0");
        reveal_strlit("1");
        reveal_strlit("2");
        reveal_strlit("3");
        reveal_strlit("4");
        reveal_strlit("5");
        reveal_strlit("6");
        reveal_strlit("7");
        reveal_strlit("8");
        reveal_strlit("9");
    }
    match d {
        0 => s.append("0"),
        1 => s.append("1"),
        2 => s.append("2"),
        3 => s.append("3"),
        4 => s.append("4"),
        5 => s.append("5"),
        6 => s.append("6"),
        7 => s.append("7"),
        8 => s.append("8"),
        _ => s.append("9"),
    }
    proof {
        assert(s@ =~= old(s)@.push(digit_char(d as int)));
    }
}

/// The decimal notation of `n`.
pub fn u32_dec_string(n: u32) -> (r: String)
    ensures
        r@ == dec_str(n as int),
    decreases n,
{
    if n < 10 {
        let mut s = String::new();
        push_digit(&mut s, n);
        proof {
            assert(s@ =~= dec_str(n as int));
        }
        s
    } else {
        let mut s = u32_dec_string(n / 10);
        push_digit(&mut s, n % 10);
        s
    }
}

} // verus!
