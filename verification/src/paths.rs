//! Unix paths as strings: the few operations the server applies to the paths
//! that clients send.
//!
//! A path is reasoned about through its characters. Separators are `/`; a path
//! is in clean form when it came out of [`clean`].
use vstd::prelude::*;
use crate::text::{chars_of, string_of, string_of_range, push_chars, push_str};

verus! {

/// Index of the last `c` in `p`, or -1.
pub open spec fn last_index_of(p: Seq<char>, c: char) -> int
    decreases p.len(),
{
    if p.len() == 0 {
        -1
    } else if p.last() == c {
        p.len() - 1
    } else {
        last_index_of(p.drop_last(), c)
    }
}

/// Index of the first `c` in `p`, or -1.
pub open spec fn first_index_of(p: Seq<char>, c: char) -> int
    decreases p.len(),
{
    if p.len() == 0 {
        -1
    } else if p[0] == c {
        0
    } else {
        let r = first_index_of(p.drop_first(), c);
        if r < 0 {
            -1
        } else {
            r + 1
        }
    }
}

/// Number of `c` at the start of `p`.
pub open spec fn leading_count(p: Seq<char>, c: char) -> nat
    decreases p.len(),
{
    if p.len() > 0 && p[0] == c {
        1 + leading_count(p.drop_first(), c)
    } else {
        0
    }
}

pub proof fn lemma_last_index_of(p: Seq<char>, c: char, k: int)
    requires
        -1 <= k < p.len(),
        k >= 0 ==> p[k] == c,
        forall|j: int| k < j < p.len() ==> p[j] != c,
    ensures
        last_index_of(p, c) == k,
    decreases p.len(),
{
    if p.len() > 0 && p.last() != c {
        let q = p.drop_last();
        assert forall|j: int| k < j < q.len() implies q[j] != c by {
            assert(q[j] == p[j]);
        }
        lemma_last_index_of(q, c, k);
    }
}

pub proof fn lemma_last_index_of_bounds(p: Seq<char>, c: char)
    ensures
        -1 <= last_index_of(p, c) < p.len(),
        last_index_of(p, c) >= 0 ==> p[last_index_of(p, c)] == c,
        forall|j: int| last_index_of(p, c) < j < p.len() ==> p[j] != c,
    decreases p.len(),
{
    if p.len() > 0 && p.last() != c {
        let q = p.drop_last();
        lemma_last_index_of_bounds(q, c);
        assert forall|j: int| last_index_of(p, c) < j < p.len() implies p[j] != c by {
            if j < q.len() {
                assert(q[j] == p[j]);
            }
        }
        if last_index_of(q, c) >= 0 {
            assert(q[last_index_of(q, c)] == p[last_index_of(q, c)]);
        }
    }
}

pub proof fn lemma_first_index_of_bounds(p: Seq<char>, c: char)
    ensures
        -1 <= first_index_of(p, c) < p.len(),
        first_index_of(p, c) >= 0 ==> p[first_index_of(p, c)] == c,
        forall|j: int| 0 <= j < (if first_index_of(p, c) < 0 { p.len() as int } else { first_index_of(p, c) }) ==> p[j] != c,
    decreases p.len(),
{
    if p.len() > 0 && p[0] != c {
        let q = p.drop_first();
        lemma_first_index_of_bounds(q, c);
        assert forall|j: int| 0 <= j < (if first_index_of(p, c) < 0 { p.len() as int } else { first_index_of(p, c) }) implies p[j] != c by {
            if j > 0 {
                assert(p[j] == q[j - 1]);
            }
        }
        if first_index_of(q, c) >= 0 {
            assert(p[first_index_of(q, c) + 1] == q[first_index_of(q, c)]);
        }
    }
}

pub proof fn lemma_first_index_of(p: Seq<char>, c: char, k: int)
    requires
        -1 <= k < p.len(),
        k >= 0 ==> p[k] == c,
        forall|j: int| 0 <= j < (if k < 0 { p.len() as int } else { k }) ==> p[j] != c,
    ensures
        first_index_of(p, c) == k,
    decreases p.len(),
{
    if p.len() > 0 && p[0] != c {
        let q = p.drop_first();
        let k2 = if k < 0 { -1 } else { k - 1 };
        assert forall|j: int| 0 <= j < (if k2 < 0 { q.len() as int } else { k2 }) implies q[j] != c by {
            assert(q[j] == p[j + 1]);
        }
        if k2 >= 0 {
            assert(q[k2] == p[k]);
        }
        lemma_first_index_of(q, c, k2);
    }
}

pub proof fn lemma_leading_count(p: Seq<char>, c: char, i: int)
    requires
        0 <= i <= p.len(),
        forall|j: int| 0 <= j < i ==> p[j] == c,
        i == p.len() || p[i] != c,
    ensures
        leading_count(p, c) == i,
    decreases i,
{
    if i > 0 {
        let q = p.drop_first();
        assert forall|j: int| 0 <= j < i - 1 implies q[j] == c by {
            assert(q[j] == p[j + 1]);
        }
        assert(i - 1 == q.len() || q[i - 1] == p[i]);
        lemma_leading_count(q, c, i - 1);
    }
}

/// `..`
pub open spec fn dot_dot() -> Seq<char> {
    seq!['.', '.']
}

/// `git`, the extension of a bare repository's directory.
pub open spec fn git_ext() -> Seq<char> {
    seq!['g', 'i', 't']
}

/// The path is absolute: it begins at the root.
pub open spec fn is_absolute(p: Seq<char>) -> bool {
    p.len() > 0 && p[0] == '/'
}

/// `p` without the root it may begin with (`Path::strip_prefix("/")`, up to
/// the `.` components that cleaning removes anyway).
pub open spec fn root_stripped(p: Seq<char>) -> Seq<char> {
    p.skip(leading_count(p, '/') as int)
}

/// The first component of `p` is `..`.
pub open spec fn first_is_parent(p: Seq<char>) -> bool {
    p == dot_dot() || (p.len() >= 3 && p.take(3) == dot_dot().push('/'))
}

/// Some component of `p` is `..`.
pub open spec fn has_parent_component(p: Seq<char>) -> bool {
    exists|i: int|
        0 <= i && i + 2 <= p.len() && #[trigger] p[i] == '.' && p[i + 1] == '.' && (i == 0 || p[i
            - 1] == '/') && (i + 2 == p.len() || p[i + 2] == '/')
}

/// The first component of a relative path in clean form.
pub open spec fn first_component(p: Seq<char>) -> Seq<char> {
    let k = first_index_of(p, '/');
    if k < 0 {
        p
    } else {
        p.take(k)
    }
}

/// Where the last component of `p` begins.
pub open spec fn last_component_start(p: Seq<char>) -> int {
    last_index_of(p, '/') + 1
}

/// The file name of a path in clean form: its last component, unless that is
/// empty (the root), `.` or `..`.
pub open spec fn file_name(p: Seq<char>) -> Option<Seq<char>> {
    let n = p.skip(last_component_start(p));
    if n.len() == 0 || n == seq!['.'] || n == dot_dot() {
        None
    } else {
        Some(n)
    }
}

/// The extension of a file name: what follows its last `.`, unless that dot
/// begins the name.
pub open spec fn extension(n: Seq<char>) -> Option<Seq<char>> {
    let k = last_index_of(n, '.');
    if k <= 0 {
        None
    } else {
        Some(n.skip(k + 1))
    }
}

/// A file name without its extension and the dot before it.
pub open spec fn stem(n: Seq<char>) -> Seq<char> {
    if extension(n) is Some {
        n.take(last_index_of(n, '.'))
    } else {
        n
    }
}

/// The path of a bare repository: `p` itself when its extension is already
/// `git`, else `p` with its extension replaced by `git`; none when `p` has no
/// file name.
pub open spec fn with_git_extension(p: Seq<char>) -> Option<Seq<char>> {
    match file_name(p) {
        None => None,
        Some(n) => if extension(n) == Some(git_ext()) {
            Some(p)
        } else {
            Some(p.take(last_component_start(p)) + stem(n) + seq!['.'] + git_ext())
        },
    }
}

/// The `.git` extension is given once: the path of a bare repository is its
/// own bare repository path.
pub proof fn law_git_extension_once(p: Seq<char>)
    ensures
        with_git_extension(p) matches Some(g) ==> with_git_extension(g) == Some(g),
{
    if let Some(n) = file_name(p) {
        if extension(n) != Some(git_ext()) {
            let start = last_component_start(p);
            let l = start - 1;
            lemma_last_index_of_bounds(p, '/');
            assert(n == p.skip(start));
            let st = stem(n);
            let m = st + seq!['.'] + git_ext();
            let g = p.take(start) + m;
            assert(g == p.take(start) + st + seq!['.'] + git_ext());
            lemma_last_index_of_bounds(n, '.');
            let k = last_index_of(n, '.');
            if extension(n) is Some {
                assert(st == n.take(k));
                assert(st.len() == k && k > 0);
            } else {
                assert(st == n);
            }
            assert(st.len() > 0);
            assert forall|i: int| 0 <= i < st.len() implies st[i] != '/' by {
                assert(st[i] == n[i]);
                assert(n[i] == p[start + i]);
            }
            assert forall|j: int| l < j < g.len() implies g[j] != '/' by {
                assert(g[j] == m[j - start]);
                if j - start < st.len() {
                    assert(m[j - start] == st[j - start]);
                }
            }
            if l >= 0 {
                assert(g[l] == p[l]);
            }
            lemma_last_index_of(g, '/', l);
            assert(g.skip(start) =~= m);
            assert(m.len() >= 4);
            assert(m != seq!['.']);
            assert(m != dot_dot());
            assert(file_name(g) == Some(m));
            let kd = st.len() as int;
            assert(m[kd] == '.');
            assert forall|j: int| kd < j < m.len() implies m[j] != '.' by {
                assert(m[j] == git_ext()[j - kd - 1]);
            }
            lemma_last_index_of(m, '.', kd);
            assert(m.skip(kd + 1) =~= git_ext());
            assert(extension(m) == Some(git_ext()));
        }
    }
}

/// `p` with the extension of its file name removed (`set_extension("")`).
pub open spec fn without_extension(p: Seq<char>) -> Seq<char> {
    match file_name(p) {
        None => p,
        Some(n) => p.take(last_component_start(p)) + stem(n),
    }
}

/// `b` relative to `a` (`Path::join`): `b` itself when it is absolute.
pub open spec fn joined(a: Seq<char>, b: Seq<char>) -> Seq<char> {
    if is_absolute(b) {
        b
    } else if a.len() == 0 || a.last() == '/' {
        a + b
    } else {
        a + seq!['/'] + b
    }
}

/// For paths in clean form: `t` is `w` or lies below it (`Path::starts_with`).
pub open spec fn within(t: Seq<char>, w: Seq<char>) -> bool {
    t == w || (w.len() < t.len() && t.take(w.len() as int) == w && (t[w.len() as int] == '/' || (
    w.len() > 0 && w.last() == '/')))
}

/// What `clean_path::clean` makes of a path: multiple slashes reduced to one,
/// `.` components removed, `..` components removed with the component before
/// them (or at the root), `.` for an empty result.
pub uninterp spec fn cleaned(p: Seq<char>) -> Seq<char>;

/// `clean_path::clean`, read back as a string. Nothing about its result is
/// claimed but that it is the function of the path named [`cleaned`]; the input
/// is valid UTF-8 and the result only drops and rejoins its components.
#[verifier::external_body]
pub(crate) fn clean(p: &str) -> (r: String)
    ensures
        r@ == cleaned(p@),
{
    clean_path::clean(p).to_string_lossy().into_owned()
}

/// Position just after the last `c` in `v` (0 when there is none).
fn after_last(v: &Vec<char>, c: char) -> (k: usize)
    ensures
        k == last_index_of(v@, c) + 1,
        k <= v@.len(),
{
    let mut k = v.len();
    while k > 0 && v[k - 1] != c
        invariant
            k <= v.len(),
            forall|j: int| k <= j < v.len() ==> v@[j] != c,
        decreases k,
    {
        k = k - 1;
    }
    proof {
        lemma_last_index_of(v@, c, k - 1);
    }
    k
}

/// Position of the first `c` in `v`, or its length.
fn first_or_len(v: &Vec<char>, c: char) -> (k: usize)
    ensures
        k <= v.len(),
        k < v.len() ==> first_index_of(v@, c) == k,
        k == v.len() ==> first_index_of(v@, c) == -1,
{
    let mut k: usize = 0;
    while k < v.len() && v[k] != c
        invariant
            k <= v.len(),
            forall|j: int| 0 <= j < k ==> v@[j] != c,
        decreases v.len() - k,
    {
        k = k + 1;
    }
    proof {
        if k < v.len() {
            lemma_first_index_of(v@, c, k as int);
        } else {
            lemma_first_index_of(v@, c, -1);
        }
    }
    k
}

/// Whether the path begins at the root.
pub fn absolute(p: &str) -> (r: bool)
    ensures
        r == is_absolute(p@),
{
    let v = chars_of(p);
    v.len() > 0 && v[0] == '/'
}

/// `p` without the slashes it begins with.
pub fn strip_root(p: &str) -> (r: String)
    ensures
        r@ == root_stripped(p@),
{
    let v = chars_of(p);
    let mut i: usize = 0;
    while i < v.len() && v[i] == '/'
        invariant
            i <= v.len(),
            forall|j: int| 0 <= j < i ==> v@[j] == '/',
        decreases v.len() - i,
    {
        i = i + 1;
    }
    proof {
        lemma_leading_count(v@, '/', i as int);
    }
    string_of_range(&v, i, v.len())
}

/// Whether the first component of `p` is `..`.
pub fn starts_with_parent(p: &str) -> (r: bool)
    ensures
        r == first_is_parent(p@),
{
    let v = chars_of(p);
    if v.len() == 2 {
        let r = v[0] == '.' && v[1] == '.';
        proof {
            if r {
                assert(p@ =~= dot_dot());
            } else {
                assert(p@ != dot_dot()) by {
                    if p@ == dot_dot() {
                        assert(p@[0] == '.' && p@[1] == '.');
                    }
                }
            }
        }
        r
    } else if v.len() >= 3 {
        let r = v[0] == '.' && v[1] == '.' && v[2] == '/';
        proof {
            assert(p@ != dot_dot());
            if r {
                assert(p@.take(3) =~= dot_dot().push('/'));
            } else if p@.take(3) == dot_dot().push('/') {
                assert(p@.take(3)[0] == v@[0]);
                assert(p@.take(3)[1] == v@[1]);
                assert(p@.take(3)[2] == v@[2]);
            }
        }
        r
    } else {
        assert(p@ != dot_dot());
        false
    }
}

/// Whether some component of `p` is `..`.
pub fn mentions_parent(p: &str) -> (r: bool)
    ensures
        r == has_parent_component(p@),
{
    let v = chars_of(p);
    let n = v.len();
    if n < 2 {
        return false;
    }
    let mut i: usize = 0;
    while i <= n - 2
        invariant
            n >= 2,
            n == v@.len(),
            v@ == p@,
            forall|j: int|
                0 <= j < i && j + 2 <= n ==> !(#[trigger] v@[j] == '.' && v@[j + 1] == '.' && (j == 0
                    || v@[j - 1] == '/') && (j + 2 == n || v@[j + 2] == '/')),
        decreases n - i,
    {
        if v[i] == '.' && v[i + 1] == '.' && (i == 0 || v[i - 1] == '/') && (i + 2 == n || v[i + 2]
            == '/') {
            return true;
        }
        i = i + 1;
    }
    false
}

/// The first component of a relative path in clean form.
pub fn first_component_of(p: &str) -> (r: String)
    ensures
        r@ == first_component(p@),
{
    let v = chars_of(p);
    let k = first_or_len(&v, '/');
    if k == v.len() {
        assert(v@.take(k as int) =~= v@);
    }
    string_of_range(&v, 0, k)
}

/// Where the file name of `v` begins, and where its stem ends.
fn name_parts(v: &Vec<char>) -> (r: (usize, Option<usize>))
    ensures
        r.0 == last_component_start(v@),
        r.0 <= v@.len(),
        file_name(v@) is None ==> r.1 is None,
        file_name(v@) matches Some(n) ==> (r.1 matches Some(d) && r.0 <= d <= v@.len() && v@.subrange(
            0,
            d as int,
        ) == v@.take(r.0 as int) + stem(n) && (extension(n) is Some <==> d < v@.len()) && (d
            < v@.len() ==> v@[d as int] == '.' && extension(n) == Some(v@.skip(d + 1)))),
{
    let start = after_last(v, '/');
    let name = string_of_range(v, start, v.len());
    let nv = chars_of(name.as_str());
    let ghost n = v@.skip(start as int);
    assert(nv@ =~= n);
    let is_name = !(nv.len() == 0 || (nv.len() == 1 && nv[0] == '.') || (nv.len() == 2 && nv[0]
        == '.' && nv[1] == '.'));
    proof {
        if nv.len() == 1 && nv[0] == '.' {
            assert(nv@ =~= seq!['.']);
        }
        if nv.len() == 2 && nv[0] == '.' && nv[1] == '.' {
            assert(nv@ =~= dot_dot());
        }
        if nv.len() == 1 && nv[0] != '.' {
            assert(nv@ != seq!['.']) by {
                if nv@ == seq!['.'] {
                    assert(nv@[0] == '.');
                }
            }
        }
        if nv.len() == 2 && !(nv[0] == '.' && nv[1] == '.') {
            assert(nv@ != dot_dot()) by {
                if nv@ == dot_dot() {
                    assert(nv@[0] == '.' && nv@[1] == '.');
                }
            }
        }
        assert(is_name == (file_name(v@) is Some));
    }
    if !is_name {
        return (start, None);
    }
    let dot = after_last(&nv, '.');
    proof {
        lemma_last_index_of_bounds(n, '.');
    }
    if dot <= 1 {
        assert(v@.subrange(0, v@.len() as int) =~= v@.take(start as int) + n);
        (start, Some(v.len()))
    } else {
        let d = start + dot - 1;
        proof {
            let k = dot - 1;
            assert(v@.subrange(0, d as int) =~= v@.take(start as int) + n.take(k as int));
            assert(v@[d as int] == n[k as int]);
            assert(v@.skip(d + 1) =~= n.skip(k + 1));
        }
        (start, Some(d))
    }
}

/// The path of a bare repository for `p` (see [`with_git_extension`]).
pub fn git_extended(p: &str) -> (r: Option<String>)
    ensures
        r matches Some(s) ==> with_git_extension(p@) == Some(s@),
        r is None ==> with_git_extension(p@) is None,
{
    let v = chars_of(p);
    let (start, d) = name_parts(&v);
    match d {
        None => None,
        Some(d) => {
            let ghost n = v@.skip(start as int);
            let tail = string_of_range(&v, d, v.len());
            let tv = chars_of(tail.as_str());
            let is_git = d < v.len() && tv.len() == 4 && tv[1] == 'g' && tv[2] == 'i' && tv[3] == 't';
            proof {
                if d < v.len() {
                    assert(tv@.skip(1) =~= v@.skip(d + 1));
                }
                if is_git {
                    assert(tv@.skip(1) =~= git_ext());
                } else if extension(n) == Some(git_ext()) {
                    assert(tv@.skip(1).len() == 3);
                    assert(tv@.skip(1)[0] == tv@[1]);
                    assert(tv@.skip(1)[1] == tv@[2]);
                    assert(tv@.skip(1)[2] == tv@[3]);
                }
            }
            if is_git {
                Some(String::from_str(p))
            } else {
                let mut s = string_of_range(&v, 0, d);
                s.push('.');
                push_str(&mut s, "git");
                proof {
                    reveal_strlit("git");
                    assert("git"@ =~= git_ext());
                }
                Some(s)
            }
        },
    }
}

/// `p` with the extension of its file name removed (see [`without_extension`]).
pub fn drop_extension(p: &str) -> (r: String)
    ensures
        r@ == without_extension(p@),
{
    let v = chars_of(p);
    let (start, d) = name_parts(&v);
    match d {
        None => {
            assert(v@.subrange(0, v@.len() as int) =~= v@);
            string_of(&v)
        },
        Some(d) => string_of_range(&v, 0, d),
    }
}

/// `p` with the extension of its file name replaced by `ext`
/// (`set_extension(ext)`); `p` itself when it has no file name.
pub open spec fn with_extension(p: Seq<char>, ext: Seq<char>) -> Seq<char> {
    match file_name(p) {
        None => p,
        Some(n) => p.take(last_component_start(p)) + stem(n) + (if ext.len() > 0 {
            seq!['.'] + ext
        } else {
            seq![]
        }),
    }
}

/// `p` with the extension of its file name replaced by `ext` (see
/// [`with_extension`]).
pub fn set_extension_to(p: &str, ext: &str) -> (r: String)
    ensures
        r@ == with_extension(p@, ext@),
{
    let v = chars_of(p);
    let (start, d) = name_parts(&v);
    match d {
        None => {
            assert(v@.subrange(0, v@.len() as int) =~= v@);
            string_of(&v)
        },
        Some(d) => {
            let mut s = string_of_range(&v, 0, d);
            if !ext.is_empty() {
                s.push('.');
                push_str(&mut s, ext);
            } else {
                assert(s@ + Seq::<char>::empty() =~= s@);
            }
            s
        },
    }
}

/// `b` relative to `a` (see [`joined`]).
pub fn join(a: &str, b: &str) -> (r: String)
    ensures
        r@ == joined(a@, b@),
{
    if absolute(b) {
        return String::from_str(b);
    }
    let av = chars_of(a);
    let bv = chars_of(b);
    let mut s = string_of(&av);
    if !(av.len() == 0 || av[av.len() - 1] == '/') {
        s.push('/');
    }
    push_chars(&mut s, &bv);
    s
}

/// For paths in clean form: whether `t` is `w` or lies below it.
pub fn is_within(t: &str, w: &str) -> (r: bool)
    ensures
        r == within(t@, w@),
{
    let tv = chars_of(t);
    let wv = chars_of(w);
    if wv.len() > tv.len() {
        return false;
    }
    let mut i: usize = 0;
    while i < wv.len()
        invariant
            tv@ == t@,
            wv@ == w@,
            wv.len() <= tv.len(),
            i <= wv.len(),
            forall|j: int| 0 <= j < i ==> tv@[j] == wv@[j],
        decreases wv.len() - i,
    {
        if tv[i] != wv[i] {
            assert(t@.take(w@.len() as int)[i as int] != w@[i as int]);
            assert(t@ != w@);
            return false;
        }
        i = i + 1;
    }
    assert(t@.take(w@.len() as int) =~= w@);
    if tv.len() == wv.len() {
        assert(t@ =~= w@);
        true
    } else {
        tv[wv.len()] == '/' || (wv.len() > 0 && wv[wv.len() - 1] == '/')
    }
}

/// The file name of any path (`Path::file_name`): its last component when
/// that is a normal one. Trailing separators, and `.` components after a
/// separator, are passed over; a final `..`, a lone `.`, the root and the
/// empty path have none.
pub open spec fn file_name_of(p: Seq<char>) -> Option<Seq<char>>
    decreases p.len(),
{
    if p.len() == 0 {
        None
    } else if p.last() == '/' {
        file_name_of(p.drop_last())
    } else {
        let k = last_index_of(p, '/');
        let seg = p.skip(k + 1);
        if seg == seq!['.'] && k >= 0 {
            proof {
                lemma_last_index_of_bounds(p, '/');
            }
            file_name_of(p.take(k))
        } else if seg == seq!['.'] || seg == dot_dot() {
            None
        } else {
            Some(seg)
        }
    }
}

/// Position just after the last `c` among `v[..end]` (0 when there is none).
fn after_last_in(v: &Vec<char>, c: char, end: usize) -> (k: usize)
    requires
        end <= v@.len(),
    ensures
        k == last_index_of(v@.take(end as int), c) + 1,
        k <= end,
{
    let mut k = end;
    while k > 0 && v[k - 1] != c
        invariant
            k <= end <= v@.len(),
            forall|j: int| k <= j < end ==> v@[j] != c,
        decreases k,
    {
        k = k - 1;
    }
    proof {
        let t = v@.take(end as int);
        assert forall|j: int| k - 1 < j < t.len() implies t[j] != c by {
            assert(t[j] == v@[j]);
        }
        if k > 0 {
            assert(t[k - 1] == v@[k - 1]);
        }
        lemma_last_index_of(t, c, k - 1);
    }
    k
}

/// The file name of any path (see [`file_name_of`]).
pub fn final_name(p: &str) -> (r: Option<String>)
    ensures
        r matches Some(n) ==> file_name_of(p@) == Some(n@),
        r is None ==> file_name_of(p@) is None,
{
    let v = chars_of(p);
    let mut end = v.len();
    assert(v@.take(end as int) =~= v@);
    loop
        invariant
            v@ == p@,
            end <= v@.len(),
            file_name_of(v@.take(end as int)) == file_name_of(v@),
        decreases end,
    {
        if end == 0 {
            return None;
        }
        let ghost t = v@.take(end as int);
        assert(t.last() == v@[end - 1]);
        if v[end - 1] == '/' {
            assert(t.drop_last() =~= v@.take(end - 1));
            end = end - 1;
        } else {
            let k = after_last_in(&v, '/', end);
            proof {
                lemma_last_index_of_bounds(t, '/');
            }
            let is_dot = end - k == 1 && v[k] == '.';
            let is_dot_dot = end - k == 2 && v[k] == '.' && v[k + 1] == '.';
            let ghost seg = t.skip(k as int);
            assert(seg =~= v@.subrange(k as int, end as int));
            proof {
                if is_dot {
                    assert(seg =~= seq!['.']);
                } else {
                    assert(seg != seq!['.']) by {
                        if seg == seq!['.'] {
                            assert(seg[0] == v@[k as int]);
                        }
                    }
                }
                if is_dot_dot {
                    assert(seg =~= dot_dot());
                } else {
                    assert(seg != dot_dot()) by {
                        if seg == dot_dot() {
                            assert(seg[0] == v@[k as int]);
                            assert(seg[1] == v@[k + 1]);
                        }
                    }
                }
            }
            if is_dot && k > 0 {
                assert(t.take(k - 1) =~= v@.take(k - 1));
                end = k - 1;
            } else if is_dot || is_dot_dot {
                return None;
            } else {
                return Some(string_of_range(&v, k, end));
            }
        }
    }
}


/// A string without `c` has none to find.
pub proof fn lemma_last_index_of_absent(q: Seq<char>, c: char)
    requires
        forall|i: int| 0 <= i < q.len() ==> q[i] != c,
    ensures
        last_index_of(q, c) == -1,
    decreases q.len(),
{
    if q.len() > 0 {
        lemma_last_index_of_absent(q.drop_last(), c);
    }
}

/// The last `c` of `a`, `c` and a tail without `c` is the one between them.
pub proof fn lemma_last_index_of_split(a: Seq<char>, c: char, q: Seq<char>)
    requires
        forall|i: int| 0 <= i < q.len() ==> q[i] != c,
    ensures
        last_index_of(a.push(c) + q, c) == a.len(),
    decreases q.len(),
{
    if q.len() == 0 {
        assert(a.push(c) + q =~= a.push(c));
    } else {
        assert((a.push(c) + q).drop_last() =~= a.push(c) + q.drop_last());
        assert((a.push(c) + q).last() == q.last());
        lemma_last_index_of_split(a, c, q.drop_last());
    }
}

/// A name with no `/`, other than `.` and `..`, is its own file name, and
/// the file name of any path that ends in `/` and that name.
pub proof fn lemma_file_name_of_name(d: Seq<char>, n: Seq<char>)
    requires
        n.len() > 0,
        forall|i: int| 0 <= i < n.len() ==> n[i] != '/',
        n != seq!['.'],
        n != dot_dot(),
    ensures
        file_name_of(n) == Some(n),
        file_name_of(d + seq!['/'] + n) == Some(n),
{
    lemma_last_index_of_absent(n, '/');
    assert(n.skip(0) =~= n);
    assert(n.last() == n[n.len() - 1]);
    let p = d + seq!['/'] + n;
    assert(d + seq!['/'] == d.push('/'));
    lemma_last_index_of_split(d, '/', n);
    assert(p.last() == n.last());
    assert(p.skip(d.len() + 1 as int) =~= n);
}

} // verus!
