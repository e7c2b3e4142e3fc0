//! Paths as text, the way Unix reads them: names between slashes, where an
//! empty name or a `.` that is not the first adds nothing.

use vstd::prelude::*;
use crate::text::{chars_of, string_of, concat};

verus! {

/// A path without the slashes and `/.` at its end; the root stays.
pub open spec fn rtrim(p: Seq<char>) -> Seq<char>
    decreases p.len(),
{
    if p.len() > 1 && p.last() == '/' {
        rtrim(p.drop_last())
    } else if p.len() > 1 && p.last() == '.' && p[p.len() - 2] == '/' {
        rtrim(p.drop_last())
    } else {
        p
    }
}

/// Where the text after the last slash starts.
pub open spec fn name_start(p: Seq<char>) -> int
    decreases p.len(),
{
    if p.len() == 0 {
        0
    } else if p.last() == '/' {
        p.len() as int
    } else {
        name_start(p.drop_last())
    }
}

/// The last name of a path; none for the root, an empty path, `.` and what
/// ends in `..`.
pub open spec fn file_name(p: Seq<char>) -> Option<Seq<char>> {
    let q = rtrim(p);
    let name = q.skip(name_start(q));
    if name.len() == 0 || name == seq!['.'] || name == seq!['.', '.'] {
        None
    } else {
        Some(name)
    }
}

/// Where the last dot of a name stands, or -1.
pub open spec fn last_dot(name: Seq<char>) -> int
    decreases name.len(),
{
    if name.len() == 0 {
        -1
    } else if name.last() == '.' {
        name.len() - 1
    } else {
        last_dot(name.drop_last())
    }
}

/// What stands after the last dot of a path's name; a dot that starts the
/// name does not count.
pub open spec fn extension(p: Seq<char>) -> Option<Seq<char>> {
    match file_name(p) {
        Some(name) => if last_dot(name) > 0 {
            Some(name.skip(last_dot(name) + 1))
        } else {
            None
        },
        None => None,
    }
}

/// The path without its last name; none for the root and an empty path.
pub open spec fn parent(p: Seq<char>) -> Option<Seq<char>> {
    let q = rtrim(p);
    if q.len() == 0 || q == seq!['/'] {
        None
    } else {
        Some(rtrim(q.take(name_start(q))))
    }
}

/// `name` inside `dir`; a name that starts at the root stands for itself.
pub open spec fn joined(dir: Seq<char>, name: Seq<char>) -> Seq<char> {
    if name.len() > 0 && name[0] == '/' {
        name
    } else if dir.len() == 0 || dir.last() == '/' {
        dir + name
    } else {
        dir + seq!['/'] + name
    }
}

/// How many characters of `v[..to]` `rtrim` keeps.
fn rtrim_len(v: &Vec<char>, to: usize) -> (r: usize)
    requires
        to <= v@.len(),
    ensures
        r <= to,
        v@.take(r as int) == rtrim(v@.take(to as int)),
{
    let mut n: usize = to;
    while n > 1 && (v[n - 1] == '/' || (v[n - 1] == '.' && v[n - 2] == '/'))
        invariant
            n <= to <= v@.len(),
            rtrim(v@.take(to as int)) == rtrim(v@.take(n as int)),
        decreases n,
    {
        assert(v@.take(n as int).drop_last() =~= v@.take(n as int - 1));
        n = n - 1;
    }
    n
}

/// Where the text after the last slash of `v[..to]` starts.
fn name_start_of(v: &Vec<char>, to: usize) -> (r: usize)
    requires
        to <= v@.len(),
    ensures
        r <= to,
        r == name_start(v@.take(to as int)),
{
    let mut n: usize = to;
    while n > 0 && v[n - 1] != '/'
        invariant
            n <= to <= v@.len(),
            name_start(v@.take(to as int)) == name_start(v@.take(n as int)),
        decreases n,
    {
        assert(v@.take(n as int).drop_last() =~= v@.take(n as int - 1));
        n = n - 1;
    }
    n
}

/// A path's last name. See [`file_name`].
pub fn file_name_of(p: &str) -> (r: Option<String>)
    ensures
        match r {
            Some(name) => file_name(p@) == Some(name@),
            None => file_name(p@) is None,
        },
{
    let v = chars_of(p);
    assert(v@.take(v@.len() as int) =~= v@);
    let n = rtrim_len(&v, v.len());
    let k = name_start_of(&v, n);
    let name = string_of(&v, k, n);
    assert(name@ =~= rtrim(p@).skip(name_start(rtrim(p@))));
    let len: usize = n - k;
    if len == 0 {
        return None;
    }
    if len == 1 && v[k] == '.' {
        assert(name@ =~= seq!['.']);
        return None;
    }
    if len == 2 && v[k] == '.' && v[k + 1] == '.' {
        assert(name@ =~= seq!['.', '.']);
        return None;
    }
    assert(name@ != seq!['.']) by {
        if len == 1 {
            assert(name@[0] == v@[k as int]);
        }
    }
    assert(name@ != seq!['.', '.']) by {
        if len == 2 {
            assert(name@[0] == v@[k as int]);
            assert(name@[1] == v@[k + 1]);
        }
    }
    Some(name)
}

/// A path's extension. See [`extension`].
pub fn extension_of(p: &str) -> (r: Option<String>)
    ensures
        match r {
            Some(e) => extension(p@) == Some(e@),
            None => extension(p@) is None,
        },
{
    match file_name_of(p) {
        None => None,
        Some(name) => {
            let v = chars_of(&name);
            let mut n: usize = v.len();
            assert(v@.take(v@.len() as int) =~= v@);
            while n > 0 && v[n - 1] != '.'
                invariant
                    n <= v@.len(),
                    last_dot(v@) == last_dot(v@.take(n as int)),
                decreases n,
            {
                assert(v@.take(n as int).drop_last() =~= v@.take(n as int - 1));
                n = n - 1;
            }
            if n > 1 {
                let e = string_of(&v, n, v.len());
                assert(e@ =~= name@.skip(last_dot(name@) + 1));
                Some(e)
            } else {
                None
            }
        },
    }
}

/// The folder that a path stands in. See [`parent`].
pub fn parent_of(p: &str) -> (r: Option<String>)
    ensures
        match r {
            Some(d) => parent(p@) == Some(d@),
            None => parent(p@) is None,
        },
{
    let v = chars_of(p);
    assert(v@.take(v@.len() as int) =~= v@);
    let n = rtrim_len(&v, v.len());
    if n == 0 {
        return None;
    }
    if n == 1 && v[0] == '/' {
        assert(v@.take(1) =~= seq!['/']);
        return None;
    }
    assert(v@.take(n as int) != seq!['/']) by {
        let root = seq!['/'];
        assert(root.len() == 1 && root[0] == '/');
        assert(v@.take(n as int)[0] == v@[0]);
    }
    let k = name_start_of(&v, n);
    assert(v@.take(n as int).take(k as int) =~= v@.take(k as int));
    let m = rtrim_len(&v, k);
    let d = string_of(&v, 0, m);
    assert(d@ =~= v@.take(m as int));
    Some(d)
}

/// `name` inside `dir`. See [`joined`].
pub fn join_path(dir: &str, name: &str) -> (r: String)
    ensures
        r@ == joined(dir@, name@),
{
    let d = chars_of(dir);
    let n = chars_of(name);
    if n.len() > 0 && n[0] == '/' {
        return name.to_owned();
    }
    if d.len() == 0 || d[d.len() - 1] == '/' {
        concat(dir, name)
    } else {
        let mut s = dir.to_owned();
        s.push('/');
        s.append(name);
        assert(s@ =~= joined(dir@, name@));
        s
    }
}

/// A plain name put into a folder is that path's last name, and what it was
/// put into is its folder.
pub proof fn law_joined_name_comes_back(dir: Seq<char>, name: Seq<char>)
    requires
        name.len() > 0,
        !name.contains('/'),
        name != seq!['.'],
        name != seq!['.', '.'],
    ensures
        file_name(joined(dir, name)) == Some(name),
        parent(joined(dir, name)) == Some(rtrim(dir)),
{
    let p = joined(dir, name);
    let k = p.len() - name.len();
    assert(name.contains(name[0]));
    assert(p.skip(k) =~= name);
    assert forall|i: int| k <= i < p.len() implies p[i] != '/' by {
        assert(p[i] == p.skip(k)[i - k]);
        assert(name.contains(name[i - k]));
    }
    assert(p.last() != '/');
    assert(p.last() == '.' && p.len() > 1 ==> p[p.len() - 2] != '/') by {
        if name.len() == 1 {
            assert(p.last() == name[0]);
            assert(name =~= seq![name[0]]);
        }
    }
    assert(rtrim(p) == p);
    lemma_start_after(p, k);
    assert(p.take(k) =~= (if dir.len() == 0 || dir.last() == '/' { dir } else { dir + seq!['/'] }));
    if !(dir.len() == 0 || dir.last() == '/') {
        assert((dir + seq!['/']).drop_last() =~= dir);
    }
    assert(p != seq!['/']) by {
        if p.len() == 1 {
            assert(p[0] == p.last());
        }
    }
}

proof fn lemma_start_after(p: Seq<char>, k: int)
    requires
        0 <= k <= p.len(),
        forall|i: int| k <= i < p.len() ==> p[i] != '/',
        k > 0 ==> p[k - 1] == '/',
    ensures
        name_start(p) == k,
    decreases p.len(),
{
    if p.len() > k {
        assert(p.last() == p[p.len() - 1]);
        lemma_start_after(p.drop_last(), k);
    }
}

// ---- Laws of paths --------------------------------------------------

/// A name put into a folder stands behind one slash; one that starts at the
/// root stands for itself.
pub proof fn law_joining_paths(dir: Seq<char>, name: Seq<char>)
    ensures
        name.len() > 0 && name[0] == '/' ==> joined(dir, name) == name,
        !(name.len() > 0 && name[0] == '/') && dir.len() > 0 && dir.last() != '/' ==> joined(dir, name) == dir + seq!['/']
            + name,
        !(name.len() > 0 && name[0] == '/') && dir.len() > 0 && dir.last() == '/' ==> joined(dir, name) == dir + name,
        !(name.len() > 0 && name[0] == '/') && dir.len() == 0 ==> joined(dir, name) == name,
{
    assert(Seq::<char>::empty() + name =~= name);
    if dir.len() == 0 {
        assert(dir + name =~= name);
    }
}

/// Slashes, and dots behind a slash, add nothing at the end of a path; any
/// other end stays.
pub proof fn law_ends_that_add_nothing(p: Seq<char>)
    ensures
        p.len() > 0 ==> rtrim(p + seq!['/']) == rtrim(p),
        p.len() > 0 ==> rtrim(p + seq!['/', '.']) == rtrim(p),
        p.len() > 0 && p.last() != '/' && !(p.len() > 1 && p.last() == '.' && p[p.len() - 2] == '/') ==> rtrim(p) == p,
        p.len() <= 1 ==> rtrim(p) == p,
{
    assert((p + seq!['/']).drop_last() =~= p);
    let q = p + seq!['/', '.'];
    assert(q.drop_last() =~= p + seq!['/']);
    assert(q.last() == '.' && q[q.len() - 2] == '/');
    reveal_with_fuel(rtrim, 3);
}

/// The extension is what stands behind the last dot of the name; a name with
/// no dot, or with one at its start only, has none.
pub proof fn law_extensions(dir: Seq<char>, stem: Seq<char>, ext: Seq<char>)
    requires
        stem.len() > 0,
        !stem.contains('/'),
        !ext.contains('/'),
        !ext.contains('.'),
        stem != seq!['.'] || ext.len() > 0,
    ensures
        extension(joined(dir, stem + seq!['.'] + ext)) == Some(ext),
        !stem.contains('.') ==> extension(joined(dir, stem)) is None,
        ext.len() > 0 ==> extension(joined(dir, seq!['.'] + ext)) is None,
{
    let name = stem + seq!['.'] + ext;
    let k = stem.len() as int;
    assert(name[k] == '.');
    lemma_no_slash(stem, seq!['.'] + ext);
    assert(stem + (seq!['.'] + ext) =~= name);
    lemma_no_slash(seq!['.'], ext);
    assert(name != seq!['.']);
    assert(name != seq!['.', '.']) by {
        if name == seq!['.', '.'] {
            assert(name.len() == 2);
            assert(ext.len() == 0);
            assert(stem[0] == name[0]);
            assert(stem =~= seq!['.']);
        }
    }
    law_joined_name_comes_back(dir, name);
    assert forall|i: int| k < i < name.len() implies name[i] != '.' by {
        assert(ext.contains(ext[i - k - 1]));
    }
    lemma_last_dot(name, k);
    assert(name.skip(k + 1) =~= ext);
    if !stem.contains('.') {
        assert(stem != seq!['.'] && stem != seq!['.', '.']) by {
            assert(stem.contains(stem[0]));
        }
        law_joined_name_comes_back(dir, stem);
        assert forall|i: int| -1 < i < stem.len() implies stem[i] != '.' by {
            assert(stem.contains(stem[i]));
        }
        lemma_last_dot(stem, -1);
    }
    if ext.len() > 0 {
        let hidden = seq!['.'] + ext;
        assert(hidden[1] == ext[0]);
        assert(ext.contains(ext[0]));
        assert(hidden != seq!['.'] && hidden != seq!['.', '.']);
        law_joined_name_comes_back(dir, hidden);
        assert forall|i: int| 0 < i < hidden.len() implies hidden[i] != '.' by {
            assert(ext.contains(ext[i - 1]));
        }
        lemma_last_dot(hidden, 0);
    }
}

proof fn lemma_no_slash(a: Seq<char>, b: Seq<char>)
    ensures
        !a.contains('/') && !b.contains('/') ==> !(a + b).contains('/'),
        !seq!['.'].contains('/'),
{
    if !a.contains('/') && !b.contains('/') && (a + b).contains('/') {
        let i = choose|i: int| 0 <= i < (a + b).len() && (a + b)[i] == '/';
        if i < a.len() {
            assert(a[i] == '/');
        } else {
            assert(b[i - a.len()] == '/');
        }
    }
}

proof fn lemma_last_dot(name: Seq<char>, k: int)
    requires
        -1 <= k < name.len(),
        k >= 0 ==> name[k] == '.',
        forall|i: int| k < i < name.len() ==> name[i] != '.',
    ensures
        last_dot(name) == k,
    decreases name.len(),
{
    if name.len() > k + 1 {
        assert(name[name.len() - 1] != '.');
        lemma_last_dot(name.drop_last(), k);
    }
}

/// The root, nothing, and the names of this folder and of the one around it
/// are no names of files.
pub proof fn law_no_file_names()
    ensures
        file_name(seq!['/']) is None,
        file_name(Seq::empty()) is None,
        file_name(seq!['.']) is None,
        file_name(seq!['.', '.']) is None,
        parent(seq!['/']) is None,
        parent(Seq::empty()) is None,
{
    let root = seq!['/'];
    assert(rtrim(root) == root);
    assert(root.skip(name_start(root)) =~= Seq::<char>::empty());
    let e = Seq::<char>::empty();
    assert(e.skip(name_start(e)) =~= e);
    let dot = seq!['.'];
    assert(dot.drop_last() =~= e);
    reveal_with_fuel(name_start, 3);
    assert(dot.skip(name_start(dot)) =~= dot);
    let two = seq!['.', '.'];
    assert(two.drop_last() =~= dot);
    assert(two[0] == '.');
    assert(rtrim(two) == two);
    assert(two.skip(name_start(two)) =~= two);
}

/// A slash at the end of a path changes neither its last name nor its folder.
pub proof fn law_a_slash_at_the_end_changes_nothing(p: Seq<char>)
    requires
        p.len() > 0,
    ensures
        file_name(p + seq!['/']) == file_name(p),
        parent(p + seq!['/']) == parent(p),
        extension(p + seq!['/']) == extension(p),
        file_name(p + seq!['/', '.', '.']) is None,
        parent(p + seq!['/', '.', '.']) == Some(rtrim(p)),
{
    law_ends_that_add_nothing(p);
    let q = p + seq!['/', '.', '.'];
    assert(q.last() == '.' && q[q.len() - 2] == '.');
    assert(rtrim(q) == q);
    lemma_start_after(q, p.len() as int + 1);
    assert(q.skip(p.len() as int + 1) =~= seq!['.', '.']);
    assert(q.take(p.len() as int + 1) =~= p + seq!['/']);
}

}
