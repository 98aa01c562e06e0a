//! Lexical (Unix) path handling on strings: splitting at `/`, components as
//! `Path::components` yields them, joining as `PathBuf::push` does, and the
//! normalisation that resolves `.` and `..` without leaving a base directory.
//!
//! A component is kept as a character sequence: the root is `"/"`, the current
//! directory `"."`, the parent `".."`, and a normal component is its name, which
//! never contains `/` and is never `.` or `..`; so equal components are equal
//! sequences.
use vstd::prelude::*;
use crate::text::{join_with, strs};

verus! {

/// The pieces of `s` between slashes: `"a//b"` gives `a`, the empty piece, `b`;
/// the empty string gives one empty piece.
pub open spec fn split_slash(s: Seq<char>) -> Seq<Seq<char>>
    decreases s.len(),
{
    if s.len() == 0 {
        seq![Seq::empty()]
    } else {
        let prev = split_slash(s.drop_last());
        if s.last() == '/' {
            prev.push(Seq::empty())
        } else {
            prev.update(prev.len() - 1, prev.last().push(s.last()))
        }
    }
}

/// A piece that names the current directory.
pub open spec fn is_cur(seg: Seq<char>) -> bool {
    seg.len() == 1 && seg[0] == '.'
}

/// A piece that names the parent directory.
pub open spec fn is_parent(seg: Seq<char>) -> bool {
    seg.len() == 2 && seg[0] == '.' && seg[1] == '.'
}

/// A piece that names an entry: not empty, no slash, neither `.` nor `..`.
pub open spec fn is_normal(seg: Seq<char>) -> bool {
    &&& seg.len() > 0
    &&& !is_cur(seg)
    &&& !is_parent(seg)
    &&& forall|j: int| 0 <= j < seg.len() ==> seg[j] != '/'
}

/// Whether `s` starts at the root.
pub open spec fn is_absolute(s: Seq<char>) -> bool {
    s.len() > 0 && s[0] == '/'
}

/// The pieces that stand as components: empty pieces and `.` are dropped,
/// except a `.` that is the very first piece.
pub open spec fn kept_pieces(segs: Seq<Seq<char>>) -> Seq<Seq<char>>
    decreases segs.len(),
{
    if segs.len() == 0 {
        Seq::empty()
    } else {
        let prev = kept_pieces(segs.drop_last());
        let seg = segs.last();
        if seg.len() == 0 || (is_cur(seg) && segs.len() > 1) {
            prev
        } else {
            prev.push(seg)
        }
    }
}

/// The components of the path `s`, as `Path::components` yields them on Unix.
pub open spec fn components(s: Seq<char>) -> Seq<Seq<char>> {
    if is_absolute(s) {
        seq![seq!['/']] + kept_pieces(split_slash(s))
    } else {
        kept_pieces(split_slash(s))
    }
}

/// `Path::starts_with`: the components of `base` begin the components of `path`.
pub open spec fn path_starts_with_spec(path: Seq<char>, base: Seq<char>) -> bool {
    components(base).is_prefix_of(components(path))
}

/// `PathBuf::join`: an absolute `p` replaces `base`; otherwise `p` follows
/// `base`, with a slash between them unless `base` is empty or ends in one.
pub open spec fn join_path(base: Seq<char>, p: Seq<char>) -> Seq<char> {
    if is_absolute(p) {
        p
    } else if base.len() > 0 && base.last() != '/' {
        base + seq!['/'] + p
    } else {
        base + p
    }
}

/// The outcome of normalising a relative path.
pub enum Lexed {
    /// The names of the normalised path, in order.
    Inside(Seq<Seq<char>>),
    /// A `..` would leave the base directory.
    Escapes,
}

/// Resolves the pieces in order: empty pieces and `.` are skipped, `..`
/// drops the last name kept so far (and fails where none is left), and any
/// other piece is kept.
pub open spec fn normalize_pieces(segs: Seq<Seq<char>>) -> Lexed
    decreases segs.len(),
{
    if segs.len() == 0 {
        Lexed::Inside(Seq::empty())
    } else {
        match normalize_pieces(segs.drop_last()) {
            Lexed::Escapes => Lexed::Escapes,
            Lexed::Inside(st) => {
                let seg = segs.last();
                if seg.len() == 0 || is_cur(seg) {
                    Lexed::Inside(st)
                } else if is_parent(seg) {
                    if st.len() == 0 {
                        Lexed::Escapes
                    } else {
                        Lexed::Inside(st.drop_last())
                    }
                } else {
                    Lexed::Inside(st.push(seg))
                }
            },
        }
    }
}

/// The pieces of a path between slashes are never none.
pub proof fn lemma_split_nonempty(s: Seq<char>)
    ensures
        split_slash(s).len() >= 1,
    decreases s.len(),
{
    if s.len() > 0 {
        lemma_split_nonempty(s.drop_last());
    }
}

/// No piece contains a slash.
pub proof fn lemma_split_slash_free(s: Seq<char>)
    ensures
        forall|i: int, j: int|
            0 <= i < split_slash(s).len() && 0 <= j < split_slash(s)[i].len() ==> split_slash(
                s,
            )[i][j] != '/',
    decreases s.len(),
{
    if s.len() > 0 {
        lemma_split_nonempty(s.drop_last());
        lemma_split_slash_free(s.drop_last());
        let prev = split_slash(s.drop_last());
        let cur = split_slash(s);
        if s.last() != '/' {
            assert forall|i: int, j: int|
                0 <= i < cur.len() && 0 <= j < cur[i].len() implies cur[i][j] != '/' by {
                if i == prev.len() - 1 {
                    if j < prev.last().len() {
                        assert(cur[i][j] == prev[i][j]);
                    }
                } else {
                    assert(cur[i] == prev[i]);
                }
            }
        } else {
            assert forall|i: int, j: int|
                0 <= i < cur.len() && 0 <= j < cur[i].len() implies cur[i][j] != '/' by {
                if i < prev.len() {
                    assert(cur[i] == prev[i]);
                }
            }
        }
    }
}

/// A piece without slashes splits into itself.
pub proof fn lemma_split_plain(s: Seq<char>)
    requires
        forall|j: int| 0 <= j < s.len() ==> s[j] != '/',
    ensures
        split_slash(s) == seq![s],
    decreases s.len(),
{
    if s.len() > 0 {
        lemma_split_plain(s.drop_last());
        assert(s.drop_last().push(s.last()) =~= s);
        assert(split_slash(s) =~= seq![s]);
    } else {
        assert(s =~= Seq::<char>::empty());
    }
}

/// Splitting `x/y` gives the pieces of `x` followed by those of `y`.
pub proof fn lemma_split_concat(x: Seq<char>, y: Seq<char>)
    ensures
        split_slash(x + seq!['/'] + y) == split_slash(x) + split_slash(y),
    decreases y.len(),
{
    lemma_split_nonempty(x);
    if y.len() == 0 {
        assert(x + seq!['/'] + y =~= x.push('/'));
        assert(x.push('/').drop_last() =~= x);
        assert(split_slash(x) + split_slash(y) =~= split_slash(x).push(Seq::empty()));
    } else {
        let z = x + seq!['/'] + y;
        assert(z.drop_last() =~= x + seq!['/'] + y.drop_last());
        lemma_split_concat(x, y.drop_last());
        lemma_split_nonempty(y.drop_last());
        let a = split_slash(x);
        let b = split_slash(y.drop_last());
        if y.last() == '/' {
            assert(split_slash(z) =~= a + split_slash(y));
        } else {
            assert(split_slash(z) =~= a + split_slash(y));
        }
    }
}

/// The pieces of names joined by slashes are those names.
pub proof fn lemma_split_join(st: Seq<Seq<char>>)
    requires
        st.len() > 0,
        forall|i: int| 0 <= i < st.len() ==> is_normal(#[trigger] st[i]),
    ensures
        split_slash(join_with(st, seq!['/'])) == st,
    decreases st.len(),
{
    if st.len() == 1 {
        lemma_split_plain(st[0]);
        assert(st =~= seq![st[0]]);
    } else {
        let init = st.drop_last();
        assert forall|i: int| 0 <= i < init.len() implies is_normal(#[trigger] init[i]) by {
            assert(init[i] == st[i]);
        }
        lemma_split_join(init);
        assert(is_normal(st[st.len() - 1]));
        lemma_split_plain(st.last());
        lemma_split_concat(join_with(init, seq!['/']), st.last());
        assert(init + seq![st.last()] =~= st);
    }
}

/// Names that follow other pieces are all kept.
pub proof fn lemma_kept_append(a: Seq<Seq<char>>, b: Seq<Seq<char>>)
    requires
        forall|i: int| 0 <= i < b.len() ==> is_normal(#[trigger] b[i]),
    ensures
        kept_pieces(a + b) == kept_pieces(a) + b,
    decreases b.len(),
{
    if b.len() == 0 {
        assert(a + b =~= a);
        assert(kept_pieces(a) + b =~= kept_pieces(a));
    } else {
        let b0 = b.drop_last();
        assert forall|i: int| 0 <= i < b0.len() implies is_normal(#[trigger] b0[i]) by {
            assert(b0[i] == b[i]);
        }
        lemma_kept_append(a, b0);
        assert((a + b).drop_last() =~= a + b0);
        assert(is_normal(b[b.len() - 1]));
        assert(kept_pieces(a) + b =~= (kept_pieces(a) + b0).push(b.last()));
    }
}

/// Joining names onto a base extends its components by exactly those names.
pub proof fn lemma_components_join(base: Seq<char>, st: Seq<Seq<char>>)
    requires
        forall|i: int| 0 <= i < st.len() ==> is_normal(#[trigger] st[i]),
    ensures
        components(join_path(base, join_with(st, seq!['/']))) == components(base) + st,
{
    let j = join_with(st, seq!['/']);
    if st.len() > 0 {
        lemma_split_join(st);
        assert(is_normal(st[0]));
        lemma_join_first(st);
    }
    if st.len() == 0 {
        assert(j =~= Seq::<char>::empty());
    }
    assert(!is_absolute(j)) by {
        if st.len() > 0 {
            lemma_join_first(st);
        }
    }
    let t = join_path(base, j);
    let empty_split = split_slash(Seq::<char>::empty());
    assert(empty_split =~= seq![Seq::<char>::empty()]);
    assert(empty_split.drop_last() =~= Seq::<Seq<char>>::empty());
    assert(empty_split.last().len() == 0);
    assert(kept_pieces(Seq::<Seq<char>>::empty()) =~= Seq::<Seq<char>>::empty());
    assert(kept_pieces(empty_split) =~= Seq::<Seq<char>>::empty());
    if base.len() == 0 {
        assert(t =~= j);
        if st.len() == 0 {
            assert(kept_pieces(split_slash(t)) =~= Seq::<Seq<char>>::empty());
        } else {
            lemma_kept_append(Seq::empty(), st);
            assert(Seq::<Seq<char>>::empty() + st =~= st);
        }
        assert(components(base) =~= Seq::<Seq<char>>::empty());
        assert(components(base) + st =~= st);
    } else {
        // base is x, or x followed by a slash; either way t is x, a slash, j
        let x = if base.last() == '/' {
            base.drop_last()
        } else {
            base
        };
        assert(t =~= x + seq!['/'] + j);
        lemma_split_concat(x, j);
        lemma_split_nonempty(x);
        let a = split_slash(x);
        // the base keeps the pieces of x: a trailing slash adds an empty piece
        if base.last() == '/' {
            assert(base =~= x + seq!['/'] + Seq::<char>::empty());
            lemma_split_concat(x, Seq::<char>::empty());
            assert(split_slash(base) =~= a.push(Seq::<char>::empty()));
            assert(a.push(Seq::<char>::empty()).drop_last() =~= a);
        }
        assert(kept_pieces(split_slash(base)) == kept_pieces(a));
        assert(t[0] == base[0]);
        if st.len() == 0 {
            // the pieces of t end in an empty piece, which is dropped
            assert(split_slash(t) =~= a.push(Seq::<char>::empty()));
            assert(a.push(Seq::<char>::empty()).drop_last() =~= a);
            assert(kept_pieces(split_slash(t)) == kept_pieces(a));
            assert(st =~= Seq::<Seq<char>>::empty());
        } else {
            lemma_kept_append(a, st);
        }
        assert(components(t) =~= components(base) + st);
    }
}

/// Names joined by slashes do not start with one.
pub proof fn lemma_join_first(st: Seq<Seq<char>>)
    requires
        st.len() > 0,
        forall|i: int| 0 <= i < st.len() ==> is_normal(#[trigger] st[i]),
    ensures
        join_with(st, seq!['/']).len() > 0,
        join_with(st, seq!['/'])[0] == st[0][0],
    decreases st.len(),
{
    assert(is_normal(st[0]));
    if st.len() > 1 {
        let init = st.drop_last();
        assert forall|i: int| 0 <= i < init.len() implies is_normal(#[trigger] init[i]) by {
            assert(init[i] == st[i]);
        }
        lemma_join_first(init);
    }
}

/// Once a `..` has left the base, later pieces cannot bring the path back.
pub proof fn lemma_escape_persists(segs: Seq<Seq<char>>, i: int)
    requires
        0 <= i <= segs.len(),
        normalize_pieces(segs.take(i)) is Escapes,
    ensures
        normalize_pieces(segs) is Escapes,
    decreases segs.len() - i,
{
    if i < segs.len() {
        assert(segs.take(i + 1).drop_last() =~= segs.take(i));
        lemma_escape_persists(segs, i + 1);
    } else {
        assert(segs.take(i) =~= segs);
    }
}

/// What normalisation keeps are names.
pub proof fn lemma_normalized_are_names(segs: Seq<Seq<char>>)
    requires
        forall|i: int, j: int|
            0 <= i < segs.len() && 0 <= j < segs[i].len() ==> segs[i][j] != '/',
    ensures
        normalize_pieces(segs) matches Lexed::Inside(st) ==> forall|k: int|
            0 <= k < st.len() ==> is_normal(#[trigger] st[k]),
    decreases segs.len(),
{
    if segs.len() > 0 {
        let init = segs.drop_last();
        assert forall|i: int, j: int|
            0 <= i < init.len() && 0 <= j < init[i].len() implies init[i][j] != '/' by {
            assert(init[i] == segs[i]);
        }
        lemma_normalized_are_names(init);
        let last = segs.last();
        assert forall|j: int| 0 <= j < last.len() implies last[j] != '/' by {
            assert(last == segs[segs.len() - 1]);
        }
    }
}

/// Splits `s` at every slash.
pub fn split_segments(s: &str) -> (res: Vec<String>)
    ensures
        strs(res@) == split_slash(s@),
{
    let n = s.unicode_len();
    let mut segs: Vec<String> = Vec::new();
    let mut start: usize = 0;
    let mut i: usize = 0;
    proof {
        assert(s@.take(0) =~= Seq::<char>::empty());
    }
    while i < n
        invariant
            n == s@.len(),
            start <= i <= n,
            strs(segs@) == split_slash(s@.take(i as int)).drop_last(),
            split_slash(s@.take(i as int)).last() == s@.subrange(start as int, i as int),
            split_slash(s@.take(i as int)).len() >= 1,
        decreases n - i,
    {
        let ghost prev = split_slash(s@.take(i as int));
        assert(s@.take(i + 1).drop_last() =~= s@.take(i as int));
        assert(s@.take(i + 1).last() == s@[i as int]);
        let c = s.get_char(i);
        if c == '/' {
            let piece = String::from_str(s.substring_char(start, i));
            let ghost old_segs = strs(segs@);
            segs.push(piece);
            assert(strs(segs@) =~= old_segs.push(piece@));
            assert(prev.drop_last().push(prev.last()) =~= prev);
            assert(strs(segs@) =~= prev);
            assert(split_slash(s@.take(i + 1)) == prev.push(Seq::empty()));
            assert(prev.push(Seq::<char>::empty()).drop_last() =~= prev);
            assert(s@.subrange(i + 1, i + 1) =~= Seq::<char>::empty());
            start = i + 1;
        } else {
            assert(s@.subrange(start as int, i + 1) =~= s@.subrange(start as int, i as int).push(c));
            assert(split_slash(s@.take(i + 1)).drop_last() =~= prev.drop_last());
        }
        i = i + 1;
    }
    let last = String::from_str(s.substring_char(start, n));
    let ghost before = split_slash(s@.take(n as int));
    let ghost old_segs = strs(segs@);
    segs.push(last);
    assert(strs(segs@) =~= old_segs.push(last@));
    assert(before.drop_last().push(before.last()) =~= before);
    assert(s@.take(n as int) =~= s@);
    assert(strs(segs@) =~= before);
    segs
}

/// Resolves `.` and `..` among the pieces of a relative path; `None` where a
/// `..` would leave the base.
pub fn normalize_segments(segs: &Vec<String>) -> (res: Option<Vec<String>>)
    ensures
        match normalize_pieces(strs(segs@)) {
            Lexed::Inside(st) => res matches Some(v) && strs(v@) == st,
            Lexed::Escapes => res is None,
        },
{
    let n = segs.len();
    let mut st: Vec<String> = Vec::new();
    let mut i: usize = 0;
    proof {
        assert(strs(segs@).take(0) =~= Seq::<Seq<char>>::empty());
        assert(strs(st@) =~= Seq::<Seq<char>>::empty());
    }
    while i < n
        invariant
            n == segs@.len(),
            i <= n,
            normalize_pieces(strs(segs@).take(i as int)) == Lexed::Inside(strs(st@)),
        decreases n - i,
    {
        let ghost all = strs(segs@);
        assert(all.take(i + 1).drop_last() =~= all.take(i as int));
        assert(all.take(i + 1).last() == segs@[i as int]@);
        let seg = &segs[i];
        let len = seg.as_str().unicode_len();
        let dot0 = len > 0 && seg.as_str().get_char(0) == '.';
        if len == 0 || (len == 1 && dot0) {
        } else if len == 2 && dot0 && seg.as_str().get_char(1) == '.' {
            if st.len() == 0 {
                proof {
                    lemma_escape_persists(all, i + 1);
                }
                return None;
            }
            let ghost kept = strs(st@);
            st.pop();
            assert(strs(st@) =~= kept.drop_last());
        } else {
            let ghost kept = strs(st@);
            st.push(seg.clone());
            assert(strs(st@) =~= kept.push(all[i as int]));
        }
        i = i + 1;
    }
    assert(strs(segs@).take(n as int) =~= strs(segs@));
    Some(st)
}

/// Whether `seg` is `.`.
fn is_cur_piece(seg: &String) -> (res: bool)
    ensures
        res == is_cur(seg@),
{
    let t = seg.as_str();
    t.unicode_len() == 1 && t.get_char(0) == '.'
}

/// The components of the path `s`, as `Path::components` yields them.
pub fn components_of(s: &str) -> (res: Vec<String>)
    ensures
        strs(res@) == components(s@),
{
    let segs = split_segments(s);
    let n = segs.len();
    let mut res: Vec<String> = Vec::new();
    let absolute = s.unicode_len() > 0 && s.get_char(0) == '/';
    proof {
        reveal_strlit("/");
        assert("/"@ =~= seq!['/']);
    }
    if absolute {
        res.push(String::from_str("/"));
    }
    let ghost head: Seq<Seq<char>> = if absolute { seq![seq!['/']] } else { Seq::empty() };
    proof {
        assert(strs(res@) =~= head);
        assert(strs(segs@).take(0) =~= Seq::<Seq<char>>::empty());
        assert(head + kept_pieces(Seq::<Seq<char>>::empty()) =~= head);
    }
    let mut i: usize = 0;
    while i < n
        invariant
            n == segs@.len(),
            i <= n,
            strs(res@) == head + kept_pieces(strs(segs@).take(i as int)),
        decreases n - i,
    {
        let ghost all = strs(segs@);
        let ghost before = strs(res@);
        assert(all.take(i + 1).drop_last() =~= all.take(i as int));
        assert(all.take(i + 1).last() == segs@[i as int]@);
        let seg = &segs[i];
        let empty = seg.as_str().unicode_len() == 0;
        if empty || (is_cur_piece(seg) && i > 0) {
        } else {
            res.push(seg.clone());
            assert(strs(res@) =~= before.push(seg@));
        }
        i = i + 1;
    }
    assert(strs(segs@).take(n as int) =~= strs(segs@));
    res
}

/// `Path::starts_with`: whether the components of `base` begin those of `path`.
pub fn path_starts_with(path: &str, base: &str) -> (res: bool)
    ensures
        res == path_starts_with_spec(path@, base@),
{
    let p = components_of(path);
    let b = components_of(base);
    if b.len() > p.len() {
        return false;
    }
    let mut i: usize = 0;
    while i < b.len()
        invariant
            strs(p@) == components(path@),
            strs(b@) == components(base@),
            b.len() <= p.len(),
            i <= b.len(),
            forall|j: int| 0 <= j < i ==> components(base@)[j] == components(path@)[j],
        decreases b.len() - i,
    {
        assert(strs(b@)[i as int] == b@[i as int]@);
        assert(strs(p@)[i as int] == p@[i as int]@);
        if b[i] != p[i] {
            return false;
        }
        i = i + 1;
    }
    true
}

/// `PathBuf::join`: `p` after `base`, as `join_path` states.
pub fn join_paths(base: &str, p: &str) -> (res: String)
    ensures
        res@ == join_path(base@, p@),
{
    let pn = p.unicode_len();
    if pn > 0 && p.get_char(0) == '/' {
        return String::from_str(p);
    }
    let bn = base.unicode_len();
    let mut r = String::from_str(base);
    if bn > 0 && base.get_char(bn - 1) != '/' {
        r.append("/");
        proof {
            reveal_strlit("/");
        }
    }
    r.append(p);
    r
}

/// Normalising names that are already normal changes nothing.
pub proof fn lemma_normalize_names(st: Seq<Seq<char>>)
    requires
        forall|i: int| 0 <= i < st.len() ==> is_normal(#[trigger] st[i]),
    ensures
        normalize_pieces(st) == Lexed::Inside(st),
    decreases st.len(),
{
    if st.len() > 0 {
        let init = st.drop_last();
        assert forall|i: int| 0 <= i < init.len() implies is_normal(#[trigger] init[i]) by {
            assert(init[i] == st[i]);
        }
        lemma_normalize_names(init);
        assert(is_normal(st[st.len() - 1]));
        assert(init.push(st.last()) =~= st);
    } else {
        assert(st =~= Seq::<Seq<char>>::empty());
    }
}

/// The pieces of names joined by slashes normalise back to those names.
pub proof fn lemma_normalize_joined(st: Seq<Seq<char>>)
    requires
        forall|i: int| 0 <= i < st.len() ==> is_normal(#[trigger] st[i]),
    ensures
        normalize_pieces(split_slash(join_with(st, seq!['/']))) == Lexed::Inside(st),
        !is_absolute(join_with(st, seq!['/'])),
{
    if st.len() > 0 {
        lemma_split_join(st);
        lemma_normalize_names(st);
        lemma_join_first(st);
        assert(is_normal(st[0]));
    } else {
        let e = Seq::<char>::empty();
        assert(join_with(st, seq!['/']) =~= e);
        assert(split_slash(e) =~= seq![e]);
        assert(seq![e].drop_last() =~= Seq::<Seq<char>>::empty());
        assert(seq![e].last().len() == 0);
        assert(normalize_pieces(Seq::<Seq<char>>::empty()) == Lexed::Inside(Seq::<Seq<char>>::empty()));
        assert(st =~= Seq::<Seq<char>>::empty());
    }
}

/// Joining the pieces of a path with slashes gives the path back.
pub proof fn lemma_join_split(s: Seq<char>)
    ensures
        join_with(split_slash(s), seq!['/']) == s,
    decreases s.len(),
{
    if s.len() == 0 {
        assert(split_slash(s) =~= seq![Seq::<char>::empty()]);
        assert(s =~= Seq::<char>::empty());
    } else {
        let init = s.drop_last();
        lemma_join_split(init);
        lemma_split_nonempty(init);
        let prev = split_slash(init);
        let cur = split_slash(s);
        if s.last() == '/' {
            assert(cur.drop_last() =~= prev);
            assert(join_with(cur, seq!['/']) =~= init + seq!['/'] + Seq::<char>::empty());
            assert(init.push('/') =~= s);
        } else {
            if prev.len() == 1 {
                assert(cur.len() == 1);
                assert(cur[0] == prev[0].push(s.last()));
                assert(join_with(cur, seq!['/']) =~= join_with(prev, seq!['/']).push(s.last()));
            } else {
                assert(cur.drop_last() =~= prev.drop_last());
                assert(cur.last() == prev.last().push(s.last()));
                assert(join_with(cur, seq!['/']) =~= join_with(prev, seq!['/']).push(s.last()));
            }
            assert(init.push(s.last()) =~= s);
        }
    }
}

} // verus!
