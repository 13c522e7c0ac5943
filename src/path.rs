//! Paths are handled as `/`-separated strings.
use vstd::prelude::*;

verus! {

/// Index of the last occurrence of `c` in `s`, or -1.
pub open spec fn last_index_of(s: Seq<char>, c: char) -> int
    decreases s.len(),
{
    if s.len() == 0 {
        -1
    } else if s.last() == c {
        s.len() - 1
    } else {
        last_index_of(s.drop_last(), c)
    }
}

/// The last component of a path: what follows its last `/`.
pub open spec fn file_name_of(p: Seq<char>) -> Seq<char> {
    p.subrange(last_index_of(p, '/') + 1, p.len() as int)
}

/// The file name without its extension; a leading dot starts no extension.
pub open spec fn file_stem_of(p: Seq<char>) -> Seq<char> {
    let f = file_name_of(p);
    let d = last_index_of(f, '.');
    if d > 0 {
        f.subrange(0, d)
    } else {
        f
    }
}

/// The extension of the file name, if it has one.
pub open spec fn extension_of(p: Seq<char>) -> Option<Seq<char>> {
    let f = file_name_of(p);
    let d = last_index_of(f, '.');
    if d > 0 {
        Some(f.subrange(d + 1, f.len() as int))
    } else {
        None
    }
}

/// `rel` taken relative to `root`.
pub open spec fn join_of(root: Seq<char>, rel: Seq<char>) -> Seq<char> {
    if root.len() == 0 {
        rel
    } else if root.last() == '/' {
        root + rel
    } else {
        root + seq!['/'] + rel
    }
}

proof fn lemma_last_index_bounds(s: Seq<char>, c: char)
    ensures
        -1 <= last_index_of(s, c) < s.len(),
        last_index_of(s, c) >= 0 ==> s[last_index_of(s, c)] == c,
    decreases s.len(),
{
    if s.len() > 0 && s.last() != c {
        lemma_last_index_bounds(s.drop_last(), c);
    }
}

fn last_index(s: &str, c: char) -> (r: Option<usize>)
    ensures
        match r {
            Some(k) => k == last_index_of(s@, c),
            None => last_index_of(s@, c) == -1,
        },
{
    let n = s.unicode_len();
    let mut i: usize = n;
    assert(s@.subrange(0, n as int) =~= s@);
    while i > 0
        invariant
            i <= n == s@.len(),
            last_index_of(s@, c) == last_index_of(s@.subrange(0, i as int), c),
        decreases i,
    {
        let ch = s.get_char(i - 1);
        assert(s@.subrange(0, i as int).drop_last() =~= s@.subrange(0, i - 1));
        if ch == c {
            return Some(i - 1);
        }
        i = i - 1;
    }
    assert(s@.subrange(0, 0).len() == 0);
    None
}

/// The last component of `p`.
pub fn file_name(p: &str) -> (r: String)
    ensures
        r@ == file_name_of(p@),
        r@.len() <= p@.len(),
{
    let n = p.unicode_len();
    proof { lemma_last_index_bounds(p@, '/'); }
    match last_index(p, '/') {
        Some(k) => String::from_str(p.substring_char(k + 1, n)),
        None => String::from_str(p.substring_char(0, n)),
    }
}

/// The file name of `p` without its extension.
pub fn file_stem(p: &str) -> (r: String)
    ensures
        r@ == file_stem_of(p@),
{
    let f = file_name(p);
    let fs = f.as_str();
    proof { lemma_last_index_bounds(f@, '.'); }
    match last_index(fs, '.') {
        Some(d) if d > 0 => String::from_str(fs.substring_char(0, d)),
        _ => f,
    }
}

/// Whether the extension of `p` is exactly `ext`.
pub fn has_extension(p: &str, ext: &str) -> (r: bool)
    ensures
        r == (extension_of(p@) == Some(ext@)),
{
    let f = file_name(p);
    let fs = f.as_str();
    let n = fs.unicode_len();
    proof { lemma_last_index_bounds(f@, '.'); }
    match last_index(fs, '.') {
        Some(d) if d > 0 => str_eq(fs.substring_char(d + 1, n), ext),
        _ => false,
    }
}

/// Character-wise equality of two strings.
pub fn str_eq(a: &str, b: &str) -> (r: bool)
    ensures
        r == (a@ == b@),
{
    let n = a.unicode_len();
    if n != b.unicode_len() {
        return false;
    }
    let mut i: usize = 0;
    while i < n
        invariant
            n == a@.len() == b@.len(),
            i <= n,
            forall|j: int| 0 <= j < i ==> a@[j] == b@[j],
        decreases n - i,
    {
        if a.get_char(i) != b.get_char(i) {
            return false;
        }
        i = i + 1;
    }
    assert(a@ =~= b@);
    true
}

/// `rel` taken relative to `root`.
pub fn join(root: &str, rel: &str) -> (r: String)
    ensures
        r@ == join_of(root@, rel@),
{
    let n = root.unicode_len();
    if n == 0 {
        String::from_str(rel)
    } else if root.get_char(n - 1) == '/' {
        String::from_str(root).concat(rel)
    } else {
        let s = String::from_str(root).concat("/");
        proof { reveal_strlit("/"); }
        let r = s.concat(rel);
        assert(r@ =~= root@ + seq!['/'] + rel@);
        r
    }
}

} // verus!
