//! Small string utilities with exact contracts over character sequences.
use vstd::prelude::*;

verus! {

/// The character sequences of a list of strings.
pub open spec fn strs(v: Seq<String>) -> Seq<Seq<char>> {
    v.map_values(|s: String| s@)
}

/// The character sequence of an optional string.
pub open spec fn opt_view(o: Option<String>) -> Option<Seq<char>> {
    match o {
        Some(s) => Some(s@),
        None => None,
    }
}

/// `parts` joined by `sep`: the parts in order, with `sep` between neighbours.
pub open spec fn join_with(parts: Seq<Seq<char>>, sep: Seq<char>) -> Seq<char>
    decreases parts.len(),
{
    if parts.len() == 0 {
        Seq::empty()
    } else if parts.len() == 1 {
        parts[0]
    } else {
        join_with(parts.drop_last(), sep) + sep + parts.last()
    }
}

/// `s` without one leading slash, if it has one.
pub open spec fn strip_slash(s: Seq<char>) -> Seq<char> {
    if s.len() > 0 && s[0] == '/' {
        s.skip(1)
    } else {
        s
    }
}

/// An owned copy of `s`.
pub fn owned(s: &str) -> (res: String)
    ensures
        res@ == s@,
{
    String::from_str(s)
}

/// `a` followed by `b`.
pub fn concat(a: &str, b: &str) -> (res: String)
    ensures
        res@ == a@ + b@,
{
    let mut r = String::from_str(a);
    r.append(b);
    r
}

/// Whether `p` is a prefix of `s`, character by character.
pub fn has_prefix(s: &str, p: &str) -> (res: bool)
    ensures
        res == p@.is_prefix_of(s@),
{
    let n = s.unicode_len();
    let m = p.unicode_len();
    if m > n {
        return false;
    }
    let mut i: usize = 0;
    while i < m
        invariant
            m == p@.len(),
            n == s@.len(),
            m <= n,
            i <= m,
            forall|j: int| 0 <= j < i ==> p@[j] == s@[j],
        decreases m - i,
    {
        if p.get_char(i) != s.get_char(i) {
            return false;
        }
        i = i + 1;
    }
    true
}

/// The characters of `s` from index `from` (counted in characters) to the end.
pub fn suffix_from(s: &str, from: usize) -> (res: String)
    requires
        from <= s@.len(),
    ensures
        res@ == s@.skip(from as int),
{
    let n = s.unicode_len();
    let sub = s.substring_char(from, n);
    String::from_str(sub)
}

/// `s` without one leading slash, if it has one.
pub fn without_leading_slash(s: &str) -> (res: String)
    ensures
        res@ == strip_slash(s@),
{
    let n = s.unicode_len();
    if n > 0 && s.get_char(0) == '/' {
        suffix_from(s, 1)
    } else {
        String::from_str(s)
    }
}

/// The strings of `parts` joined by `sep`.
pub fn join_strings(parts: &Vec<String>, sep: &str) -> (res: String)
    ensures
        res@ == join_with(strs(parts@), sep@),
{
    let mut res = String::new();
    let n = parts.len();
    let mut i: usize = 0;
    while i < n
        invariant
            n == parts@.len(),
            i <= n,
            res@ == join_with(strs(parts@.take(i as int)), sep@),
        decreases n - i,
    {
        let ghost before = strs(parts@.take(i as int));
        assert(strs(parts@.take(i + 1)).drop_last() =~= before);
        assert(strs(parts@.take(i + 1)).last() == parts@[i as int]@);
        if i > 0 {
            res.append(sep);
        }
        res.append(parts[i].as_str());
        i = i + 1;
    }
    assert(parts@.take(n as int) =~= parts@);
    res
}

/// `p` begins `s` and ends at a boundary between path components: `s` ends
/// there, goes on with a slash, or `p` itself ends in one.
pub open spec fn dir_prefix(s: Seq<char>, p: Seq<char>) -> bool {
    &&& p.is_prefix_of(s)
    &&& (s.len() == p.len() || s[p.len() as int] == '/' || (p.len() > 0 && p.last() == '/'))
}

/// Whether `p` begins `s` and ends at a boundary between path components.
pub fn has_dir_prefix(s: &str, p: &str) -> (res: bool)
    ensures
        res == dir_prefix(s@, p@),
{
    if !has_prefix(s, p) {
        return false;
    }
    let n = s.unicode_len();
    let m = p.unicode_len();
    m == n || s.get_char(m) == '/' || (m > 0 && p.get_char(m - 1) == '/')
}

} // verus!
