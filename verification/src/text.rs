//! Text on characters: trimming, splitting, joining, numbers, ordering.

use vstd::prelude::*;
use vstd::utf8::is_ascii_chars;

verus! {

/// `String::push` puts one character at the end.
pub assume_specification[ String::push ](s: &mut String, c: char)
    ensures
        final(s)@ == old(s)@.push(c),
;

/// `==` on `str` holds exactly when both hold the same characters.
pub assume_specification[ <str as PartialEq>::eq ](a: &str, b: &str) -> (r: bool)
    ensures
        r == (a@ == b@),
;

/// The characters of a string, in order.
pub fn chars_of(s: &str) -> (r: Vec<char>)
    ensures
        r@ == s@,
{
    let mut v: Vec<char> = Vec::new();
    for c in it: s.chars()
        invariant
            it.seq() == s@,
            v@ == s@.take(it.index() as int),
    {
        v.push(c);
        assert(s@.take(it.index() as int + 1) =~= s@.take(it.index() as int).push(c));
    }
    assert(s@.take(s@.len() as int) =~= s@);
    v
}

/// The characters from `from` up to `to` as a string.
pub fn string_of(v: &Vec<char>, from: usize, to: usize) -> (r: String)
    requires
        from <= to <= v@.len(),
    ensures
        r@ == v@.subrange(from as int, to as int),
{
    let mut s = String::new();
    let mut i: usize = from;
    while i < to
        invariant
            from <= i <= to <= v@.len(),
            s@ == v@.subrange(from as int, i as int),
        decreases to - i,
    {
        s.push(v[i]);
        i = i + 1;
        assert(s@ =~= v@.subrange(from as int, i as int));
    }
    s
}

/// `a` followed by `b`.
pub fn concat(a: &str, b: &str) -> (r: String)
    ensures
        r@ == a@ + b@,
{
    let mut s = a.to_owned();
    s.append(b);
    s
}

// ---- White space ----------------------------------------------------

/// Unicode's White_Space property.
pub open spec fn is_white(c: char) -> bool {
    ||| '\u{9}' <= c && c <= '\u{d}'
    ||| c == ' '
    ||| c == '\u{85}'
    ||| c == '\u{a0}'
    ||| c == '\u{1680}'
    ||| '\u{2000}' <= c && c <= '\u{200a}'
    ||| c == '\u{2028}'
    ||| c == '\u{2029}'
    ||| c == '\u{202f}'
    ||| c == '\u{205f}'
    ||| c == '\u{3000}'
}

pub fn white(c: char) -> (r: bool)
    ensures
        r == is_white(c),
{
    ('\u{9}' <= c && c <= '\u{d}') || c == ' ' || c == '\u{85}' || c == '\u{a0}' || c == '\u{1680}'
        || ('\u{2000}' <= c && c <= '\u{200a}') || c == '\u{2028}' || c == '\u{2029}'
        || c == '\u{202f}' || c == '\u{205f}' || c == '\u{3000}'
}

/// `s` without the white space it starts with.
pub open spec fn trim_start(s: Seq<char>) -> Seq<char>
    decreases s.len(),
{
    if s.len() > 0 && is_white(s[0]) {
        trim_start(s.drop_first())
    } else {
        s
    }
}

/// `s` without the white space it ends with.
pub open spec fn trim_end(s: Seq<char>) -> Seq<char>
    decreases s.len(),
{
    if s.len() > 0 && is_white(s.last()) {
        trim_end(s.drop_last())
    } else {
        s
    }
}

/// `s` without white space at either end.
pub open spec fn trimmed(s: Seq<char>) -> Seq<char> {
    trim_end(trim_start(s))
}

proof fn lemma_trim_start_is_ascii(s: Seq<char>)
    requires
        is_ascii_chars(s),
    ensures
        is_ascii_chars(trim_start(s)),
    decreases s.len(),
{
    if s.len() > 0 && is_white(s[0]) {
        lemma_trim_start_is_ascii(s.drop_first());
    }
}

proof fn lemma_trim_end_is_ascii(s: Seq<char>)
    requires
        is_ascii_chars(s),
    ensures
        is_ascii_chars(trim_end(s)),
    decreases s.len(),
{
    if s.len() > 0 && is_white(s.last()) {
        lemma_trim_end_is_ascii(s.drop_last());
    }
}

/// An ASCII text stays one when it is trimmed.
pub proof fn lemma_trimmed_is_ascii(s: Seq<char>)
    requires
        is_ascii_chars(s),
    ensures
        is_ascii_chars(trimmed(s)),
{
    lemma_trim_start_is_ascii(s);
    lemma_trim_end_is_ascii(trim_start(s));
}

pub fn trim(s: &str) -> (r: String)
    ensures
        r@ == trimmed(s@),
{
    let v = chars_of(s);
    let n: usize = v.len();
    let mut i: usize = 0;
    assert(s@.subrange(0, n as int) =~= s@);
    while i < n && white(v[i])
        invariant
            n == v@.len(),
            v@ == s@,
            i <= n,
            trim_start(s@) == trim_start(s@.subrange(i as int, n as int)),
        decreases n - i,
    {
        assert(s@.subrange(i as int, n as int).drop_first() =~= s@.subrange(i as int + 1, n as int));
        i = i + 1;
    }
    let ghost t = s@.subrange(i as int, n as int);
    assert(trim_start(s@) == t);
    let mut j: usize = n;
    while j > i && white(v[j - 1])
        invariant
            n == v@.len(),
            v@ == s@,
            i <= j <= n,
            t == s@.subrange(i as int, n as int),
            trim_end(t) == trim_end(s@.subrange(i as int, j as int)),
        decreases j,
    {
        assert(s@.subrange(i as int, j as int).drop_last() =~= s@.subrange(i as int, j as int - 1));
        j = j - 1;
    }
    string_of(&v, i, j)
}

// ---- Splitting and joining ------------------------------------------

/// The pieces of `s` between the `sep` characters: one more than there are
/// separators.
pub open spec fn split(s: Seq<char>, sep: char) -> Seq<Seq<char>>
    decreases s.len(),
{
    if s.len() == 0 {
        seq![Seq::empty()]
    } else {
        let r = split(s.drop_last(), sep);
        if s.last() == sep {
            r.push(Seq::empty())
        } else {
            r.drop_last().push(r.last().push(s.last()))
        }
    }
}

/// The texts of a list of strings.
pub open spec fn texts(v: Seq<String>) -> Seq<Seq<char>> {
    Seq::new(v.len(), |i: int| v[i]@)
}

pub proof fn lemma_texts_push(v: Seq<String>, x: String)
    ensures
        texts(v.push(x)) == texts(v).push(x@),
{
    assert(texts(v.push(x)) =~= texts(v).push(x@));
}

pub proof fn lemma_split_nonempty(s: Seq<char>, sep: char)
    ensures
        split(s, sep).len() > 0,
    decreases s.len(),
{
    if s.len() > 0 {
        lemma_split_nonempty(s.drop_last(), sep);
    }
}

pub fn split_on(s: &str, sep: char) -> (r: Vec<String>)
    ensures
        texts(r@) == split(s@, sep),
{
    let v = chars_of(s);
    let mut out: Vec<String> = Vec::new();
    let mut cur = String::new();
    let mut i: usize = 0;
    assert(s@.take(0) =~= Seq::<char>::empty());
    assert(texts(out@).push(cur@) =~= split(s@.take(0), sep));
    while i < v.len()
        invariant
            v@ == s@,
            i <= v@.len(),
            texts(out@).push(cur@) == split(s@.take(i as int), sep),
        decreases v.len() - i,
    {
        let c = v[i];
        let ghost before = split(s@.take(i as int), sep);
        assert(s@.take(i as int + 1).drop_last() =~= s@.take(i as int));
        assert(before.drop_last() =~= texts(out@));
        if c == sep {
            proof {
                lemma_texts_push(out@, cur);
            }
            out.push(cur);
            cur = String::new();
        } else {
            cur.push(c);
        }
        i = i + 1;
    }
    assert(s@.take(s@.len() as int) =~= s@);
    proof {
        lemma_texts_push(out@, cur);
    }
    out.push(cur);
    out
}

/// The runs of characters between white space, with empty runs.
pub open spec fn white_parts(s: Seq<char>) -> Seq<Seq<char>>
    decreases s.len(),
{
    if s.len() == 0 {
        seq![Seq::empty()]
    } else {
        let r = white_parts(s.drop_last());
        if is_white(s.last()) {
            r.push(Seq::empty())
        } else {
            r.drop_last().push(r.last().push(s.last()))
        }
    }
}

/// The members of a list that are not empty, in order.
pub open spec fn nonempty(parts: Seq<Seq<char>>) -> Seq<Seq<char>>
    decreases parts.len(),
{
    if parts.len() == 0 {
        Seq::empty()
    } else if parts.last().len() == 0 {
        nonempty(parts.drop_last())
    } else {
        nonempty(parts.drop_last()).push(parts.last())
    }
}

/// The words of `s`: its runs of characters that are not white space.
pub open spec fn words(s: Seq<char>) -> Seq<Seq<char>> {
    nonempty(white_parts(s))
}

pub fn words_of(s: &str) -> (r: Vec<String>)
    ensures
        texts(r@) == words(s@),
{
    let v = chars_of(s);
    let mut out: Vec<String> = Vec::new();
    let mut cur = String::new();
    let ghost mut done: Seq<Seq<char>> = Seq::empty();
    let mut i: usize = 0;
    assert(s@.take(0) =~= Seq::<char>::empty());
    assert(done.push(cur@) =~= white_parts(s@.take(0)));
    assert(texts(out@) =~= nonempty(done));
    while i < v.len()
        invariant
            v@ == s@,
            i <= v@.len(),
            done.push(cur@) == white_parts(s@.take(i as int)),
            texts(out@) == nonempty(done),
        decreases v.len() - i,
    {
        let c = v[i];
        let ghost before = white_parts(s@.take(i as int));
        assert(s@.take(i as int + 1).drop_last() =~= s@.take(i as int));
        assert(before.drop_last() =~= done);
        if white(c) {
            proof {
                assert(done.push(cur@).drop_last() =~= done);
                done = done.push(cur@);
            }
            if !cur.as_str().is_empty() {
                proof {
                    lemma_texts_push(out@, cur);
                }
                out.push(cur);
            }
            cur = String::new();
        } else {
            cur.push(c);
        }
        i = i + 1;
    }
    assert(s@.take(s@.len() as int) =~= s@);
    assert(done.push(cur@).drop_last() =~= done);
    if !cur.as_str().is_empty() {
        proof {
            lemma_texts_push(out@, cur);
        }
        out.push(cur);
    }
    out
}

proof fn lemma_parts_are_ascii(s: Seq<char>)
    requires
        is_ascii_chars(s),
    ensures
        white_parts(s).len() > 0,
        forall|i: int| 0 <= i < white_parts(s).len() ==> is_ascii_chars(#[trigger] white_parts(s)[i]),
    decreases s.len(),
{
    if s.len() > 0 {
        let r = white_parts(s.drop_last());
        lemma_parts_are_ascii(s.drop_last());
        assert(is_ascii_chars(r.last().push(s.last())));
        assert forall|i: int| 0 <= i < white_parts(s).len() implies is_ascii_chars(#[trigger] white_parts(s)[i]) by {
            if i < r.len() - 1 {
                assert(white_parts(s)[i] == r[i]);
            } else if is_white(s.last()) && i == r.len() - 1 {
                assert(white_parts(s)[i] == r[i]);
            }
        }
    }
}

proof fn lemma_nonempty_are_ascii(parts: Seq<Seq<char>>)
    requires
        forall|i: int| 0 <= i < parts.len() ==> is_ascii_chars(#[trigger] parts[i]),
    ensures
        forall|i: int| 0 <= i < nonempty(parts).len() ==> is_ascii_chars(#[trigger] nonempty(parts)[i]),
    decreases parts.len(),
{
    if parts.len() > 0 {
        assert forall|i: int| 0 <= i < parts.drop_last().len() implies is_ascii_chars(#[trigger] parts.drop_last()[i]) by {
            assert(is_ascii_chars(parts[i]));
        }
        lemma_nonempty_are_ascii(parts.drop_last());
        assert(is_ascii_chars(parts.last()));
        let before = nonempty(parts.drop_last());
        assert forall|i: int| 0 <= i < nonempty(parts).len() implies is_ascii_chars(#[trigger] nonempty(parts)[i]) by {
            if i < before.len() {
                assert(nonempty(parts)[i] == before[i]);
            }
        }
    }
}

/// The words of an ASCII text are ASCII.
pub proof fn lemma_words_are_ascii(s: Seq<char>)
    requires
        is_ascii_chars(s),
    ensures
        forall|i: int| 0 <= i < words(s).len() ==> is_ascii_chars(#[trigger] words(s)[i]),
{
    lemma_parts_are_ascii(s);
    lemma_nonempty_are_ascii(white_parts(s));
}

/// A list of texts as one, with `sep` between each two.
pub open spec fn join(parts: Seq<Seq<char>>, sep: Seq<char>) -> Seq<char>
    decreases parts.len(),
{
    if parts.len() == 0 {
        Seq::empty()
    } else if parts.len() == 1 {
        parts[0]
    } else {
        join(parts.drop_last(), sep) + sep + parts.last()
    }
}

pub fn join_with(parts: &Vec<String>, sep: &str) -> (r: String)
    ensures
        r@ == join(texts(parts@), sep@),
{
    let mut s = String::new();
    let mut i: usize = 0;
    let ghost all = texts(parts@);
    while i < parts.len()
        invariant
            i <= parts@.len(),
            all == texts(parts@),
            s@ == join(all.take(i as int), sep@),
        decreases parts.len() - i,
    {
        assert(all.take(i as int + 1).drop_last() =~= all.take(i as int));
        if i > 0 {
            s.append(sep);
        }
        s.append(&parts[i]);
        i = i + 1;
        assert(s@ =~= join(all.take(i as int), sep@));
    }
    assert(all.take(all.len() as int) =~= all);
    s
}

/// Cutting a text at a character and joining the pieces with that character
/// gives the text back.
pub proof fn law_split_then_join(s: Seq<char>, sep: char)
    ensures
        join(split(s, sep), seq![sep]) == s,
    decreases s.len(),
{
    if s.len() > 0 {
        let t = s.drop_last();
        let r = split(t, sep);
        law_split_then_join(t, sep);
        lemma_split_nonempty(t, sep);
        if s.last() == sep {
            assert(r.push(Seq::empty()).drop_last() =~= r);
            assert(join(split(s, sep), seq![sep]) =~= s);
        } else {
            let q = r.drop_last().push(r.last().push(s.last()));
            assert(q.drop_last() =~= r.drop_last());
            assert(join(q, seq![sep]) =~= join(r, seq![sep]).push(s.last()));
            assert(t.push(s.last()) =~= s);
        }
    }
}

/// No piece of a text that was cut at a character holds that character.
pub proof fn law_split_pieces_hold_no_separator(s: Seq<char>, sep: char)
    ensures
        forall|i: int| 0 <= i < split(s, sep).len() ==> !(#[trigger] split(s, sep)[i]).contains(sep),
    decreases s.len(),
{
    if s.len() > 0 {
        let r = split(s.drop_last(), sep);
        law_split_pieces_hold_no_separator(s.drop_last(), sep);
        lemma_split_nonempty(s.drop_last(), sep);
        assert forall|i: int| 0 <= i < split(s, sep).len() implies !(#[trigger] split(s, sep)[i]).contains(sep) by {
            if s.last() == sep {
                if i < r.len() {
                    assert(split(s, sep)[i] == r[i]);
                }
            } else if i == r.len() - 1 {
                assert(!r[i].contains(sep));
                let p = r[i].push(s.last());
                assert forall|k: int| 0 <= k < p.len() implies p[k] != sep by {
                    if k < r[i].len() {
                        assert(r[i].contains(r[i][k]));
                    }
                }
            } else {
                assert(split(s, sep)[i] == r[i]);
            }
        }
    }
}

// ---- Finding --------------------------------------------------------

/// Where `c` first stands in `s`; the length of `s` where it does not.
pub open spec fn first_index(s: Seq<char>, c: char) -> int
    decreases s.len(),
{
    if s.len() == 0 || s[0] == c {
        0
    } else {
        1 + first_index(s.drop_first(), c)
    }
}

pub proof fn lemma_first_index(s: Seq<char>, c: char, i: int)
    requires
        0 <= i <= s.len(),
        forall|k: int| 0 <= k < i ==> s[k] != c,
        i < s.len() ==> s[i] == c,
    ensures
        first_index(s, c) == i,
    decreases s.len(),
{
    if i > 0 {
        let t = s.drop_first();
        assert forall|k: int| 0 <= k < i - 1 implies t[k] != c by {
            assert(s[k + 1] != c);
        }
        lemma_first_index(t, c, i - 1);
    }
}

/// What stands before the first `c`: all of `s` where there is none.
pub open spec fn before_first(s: Seq<char>, c: char) -> Seq<char> {
    if s.contains(c) {
        s.take(first_index(s, c))
    } else {
        s
    }
}

/// What stands after the first `c`: nothing where there is none.
pub open spec fn after_first(s: Seq<char>, c: char) -> Seq<char> {
    if s.contains(c) {
        s.skip(first_index(s, c) + 1)
    } else {
        Seq::empty()
    }
}

/// The text before and the text after the first `c`.
pub fn cut(s: &str, c: char) -> (r: (String, String))
    ensures
        r.0@ == before_first(s@, c),
        r.1@ == after_first(s@, c),
{
    let v = chars_of(s);
    let n: usize = v.len();
    let mut i: usize = 0;
    while i < n && v[i] != c
        invariant
            i <= n == v@.len(),
            forall|k: int| 0 <= k < i ==> v@[k] != c,
        decreases n - i,
    {
        i = i + 1;
    }
    proof {
        lemma_first_index(v@, c, i as int);
    }
    let head = string_of(&v, 0, i);
    if i < n {
        assert(v@[i as int] == c);
        assert(head@ =~= before_first(s@, c));
        let tail = string_of(&v, i + 1, n);
        assert(tail@ =~= after_first(s@, c));
        (head, tail)
    } else {
        assert(!s@.contains(c));
        assert(head@ =~= s@);
        (head, String::new())
    }
}

/// Whether `needle` stands somewhere in `hay`.
pub open spec fn holds(hay: Seq<char>, needle: Seq<char>) -> bool {
    exists|i: int| 0 <= i <= hay.len() - needle.len() && #[trigger] hay.subrange(i, i + needle.len()) == needle
}

fn matches_at(h: &Vec<char>, n: &Vec<char>, i: usize) -> (r: bool)
    requires
        i + n@.len() <= h@.len(),
    ensures
        r == (h@.subrange(i as int, i + n@.len()) == n@),
{
    let ghost w = h@.subrange(i as int, i + n@.len());
    let mut j: usize = 0;
    while j < n.len()
        invariant
            i + n.len() <= h.len(),
            w == h@.subrange(i as int, i + n@.len()),
            j <= n@.len(),
            forall|k: int| 0 <= k < j ==> w[k] == n@[k],
        decreases n.len() - j,
    {
        assert(w[j as int] == h@[i + j]);
        if h[i + j] != n[j] {
            return false;
        }
        j = j + 1;
    }
    assert(w =~= n@);
    true
}

pub fn contains(hay: &str, needle: &str) -> (r: bool)
    ensures
        r == holds(hay@, needle@),
{
    let h = chars_of(hay);
    let n = chars_of(needle);
    if n.len() > h.len() {
        return false;
    }
    let last: usize = h.len() - n.len();
    let mut i: usize = 0;
    while i <= last
        invariant
            h@ == hay@,
            n@ == needle@,
            last == h.len() - n.len(),
            i <= last + 1,
            forall|k: int| 0 <= k < i ==> #[trigger] hay@.subrange(k, k + needle@.len()) != needle@,
        decreases last + 1 - i,
    {
        if matches_at(&h, &n, i) {
            return true;
        }
        if i == last {
            return false;
        }
        i = i + 1;
    }
    false
}

pub open spec fn is_digit(c: char) -> bool {
    '0' <= c <= '9'
}

/// Whether `hay[from..to]` is not part of a longer number.
pub open spec fn no_digit_beside(hay: Seq<char>, from: int, to: int) -> bool {
    (from == 0 || !is_digit(hay[from - 1])) && (to == hay.len() || !is_digit(hay[to]))
}

/// Whether `number` stands somewhere in `hay` with no digit on either side.
pub open spec fn holds_bare(hay: Seq<char>, number: Seq<char>) -> bool {
    exists|i: int|
        0 <= i <= hay.len() - number.len() && #[trigger] hay.subrange(i, i + number.len()) == number
            && no_digit_beside(hay, i, i + number.len())
}

fn digit_at(h: &Vec<char>, i: usize) -> (r: bool)
    requires
        i < h@.len(),
    ensures
        r == is_digit(h@[i as int]),
{
    '0' <= h[i] && h[i] <= '9'
}

pub fn contains_bare(hay: &str, number: &str) -> (r: bool)
    ensures
        r == holds_bare(hay@, number@),
{
    let h = chars_of(hay);
    let n = chars_of(number);
    if n.len() > h.len() {
        return false;
    }
    let last: usize = h.len() - n.len();
    let mut i: usize = 0;
    while i <= last
        invariant
            h@ == hay@,
            n@ == number@,
            last == h.len() - n.len(),
            i <= last + 1,
            forall|k: int|
                0 <= k < i ==> !(#[trigger] hay@.subrange(k, k + number@.len()) == number@ && no_digit_beside(
                    hay@,
                    k,
                    k + number@.len(),
                )),
        decreases last + 1 - i,
    {
        if matches_at(&h, &n, i) && (i == 0 || !digit_at(&h, i - 1)) && (i == last || !digit_at(&h, i + n.len())) {
            return true;
        }
        if i == last {
            return false;
        }
        i = i + 1;
    }
    false
}

/// Whether `s` starts with `prefix`.
pub open spec fn starts(s: Seq<char>, prefix: Seq<char>) -> bool {
    prefix.len() <= s.len() && s.take(prefix.len() as int) == prefix
}

// ---- ASCII letter case ----------------------------------------------

pub open spec fn ascii_upper(c: char) -> char {
    if 'a' <= c && c <= 'z' {
        (c as int - 32) as char
    } else {
        c
    }
}

pub open spec fn ascii_lower(c: char) -> char {
    if 'A' <= c && c <= 'Z' {
        (c as int + 32) as char
    } else {
        c
    }
}

pub open spec fn is_ascii_letter(c: char) -> bool {
    ('a' <= c && c <= 'z') || ('A' <= c && c <= 'Z')
}

pub fn to_ascii_upper(c: char) -> (r: char)
    ensures
        r == ascii_upper(c),
{
    if 'a' <= c && c <= 'z' {
        (c as u8 - 32) as char
    } else {
        c
    }
}

pub fn to_ascii_lower(c: char) -> (r: char)
    ensures
        r == ascii_lower(c),
{
    if 'A' <= c && c <= 'Z' {
        (c as u8 + 32) as char
    } else {
        c
    }
}

/// Equal up to the case of ASCII letters.
pub open spec fn same_ignoring_case(a: Seq<char>, b: Seq<char>) -> bool {
    a.len() == b.len() && forall|i: int| 0 <= i < a.len() ==> ascii_lower(#[trigger] a[i]) == ascii_lower(b[i])
}

pub fn eq_ignore_ascii_case(a: &str, b: &str) -> (r: bool)
    ensures
        r == same_ignoring_case(a@, b@),
{
    let v = chars_of(a);
    let w = chars_of(b);
    if v.len() != w.len() {
        return false;
    }
    let mut i: usize = 0;
    while i < v.len()
        invariant
            v@ == a@,
            w@ == b@,
            v@.len() == w@.len(),
            i <= v@.len(),
            forall|k: int| 0 <= k < i ==> ascii_lower(#[trigger] v@[k]) == ascii_lower(w@[k]),
        decreases v.len() - i,
    {
        if to_ascii_lower(v[i]) != to_ascii_lower(w[i]) {
            assert(ascii_lower(a@[i as int]) != ascii_lower(b@[i as int]));
            return false;
        }
        i = i + 1;
    }
    true
}

// ---- Unicode letter case ---------------------------------------------

/// What `str::to_lowercase` gives.
pub uninterp spec fn lowercase(s: Seq<char>) -> Seq<char>;

/// `str::to_lowercase`. On ASCII text it lowers each character by itself.
#[verifier::external_body]
pub(crate) fn to_lowercase(s: &str) -> (r: String)
    ensures
        r@ == lowercase(s@),
        is_ascii_chars(s@) ==> r@ == s@.map_values(|c: char| ascii_lower(c)),
{
    s.to_lowercase()
}

// ---- Numbers --------------------------------------------------------

pub open spec fn digit(d: nat) -> char {
    (48 + d) as char
}

/// A number in decimal, without leading zeros.
pub open spec fn decimal(n: nat) -> Seq<char>
    decreases n,
{
    if n < 10 {
        seq![digit(n)]
    } else {
        decimal(n / 10).push(digit(n % 10))
    }
}

fn digit_char(d: u64) -> (r: char)
    requires
        d < 10,
    ensures
        r == digit(d as nat),
{
    (48 + d as u8) as char
}

pub fn decimal_of(n: u64) -> (r: String)
    ensures
        r@ == decimal(n as nat),
    decreases n,
{
    if n < 10 {
        let mut s = String::new();
        s.push(digit_char(n));
        assert(s@ =~= decimal(n as nat));
        s
    } else {
        let mut s = decimal_of(n / 10);
        s.push(digit_char(n % 10));
        s
    }
}

/// A signed number in decimal.
pub open spec fn signed_decimal(n: int) -> Seq<char> {
    if n < 0 {
        seq!['-'] + decimal((-n) as nat)
    } else {
        decimal(n as nat)
    }
}

pub fn signed_decimal_of(n: i64) -> (r: String)
    ensures
        r@ == signed_decimal(n as int),
{
    if n < 0 {
        let magnitude: u64 = (-(n as i128)) as u64;
        let mut s = String::new();
        s.push('-');
        s.append(&decimal_of(magnitude));
        assert(s@ =~= signed_decimal(n as int));
        s
    } else {
        decimal_of(n as u64)
    }
}

/// A number in decimal with at least two digits.
pub open spec fn two_digits(n: nat) -> Seq<char> {
    if n < 10 {
        seq!['0', digit(n)]
    } else {
        decimal(n)
    }
}

pub fn two_digits_of(n: u64) -> (r: String)
    ensures
        r@ == two_digits(n as nat),
{
    if n < 10 {
        let mut s = String::new();
        s.push('0');
        s.push(digit_char(n));
        assert(s@ =~= two_digits(n as nat));
        s
    } else {
        decimal_of(n)
    }
}

/// The value that a run of decimal digits stands for.
pub open spec fn decimal_value(s: Seq<char>) -> nat
    decreases s.len(),
{
    if s.len() == 0 {
        0
    } else {
        10 * decimal_value(s.drop_last()) + (s.last() as int - 48) as nat
    }
}

/// Reading a number back from its decimal digits gives the number.
pub proof fn law_decimal_reads_back(n: nat)
    ensures
        decimal_value(decimal(n)) == n,
    decreases n,
{
    if n < 10 {
        assert(decimal(n).drop_last() =~= Seq::<char>::empty());
        assert(decimal_value(Seq::<char>::empty()) == 0);
    } else {
        law_decimal_reads_back(n / 10);
        assert(decimal(n).drop_last() =~= decimal(n / 10));
    }
}

pub open spec fn hex_digit(d: nat) -> char {
    if d < 10 {
        (48 + d) as char
    } else {
        (87 + d) as char
    }
}

/// The last `k` digits of `n` in lower-case hexadecimal.
pub open spec fn hex(n: nat, k: nat) -> Seq<char>
    decreases k,
{
    if k == 0 {
        Seq::empty()
    } else {
        hex(n / 16, (k - 1) as nat).push(hex_digit(n % 16))
    }
}

pub fn hex_of(n: u64, k: u8) -> (r: String)
    ensures
        r@ == hex(n as nat, k as nat),
    decreases k,
{
    if k == 0 {
        String::new()
    } else {
        let mut s = hex_of(n / 16, k - 1);
        let d: u8 = (n % 16) as u8;
        let c: char = if d < 10 {
            (48 + d) as char
        } else {
            (87 + d) as char
        };
        s.push(c);
        s
    }
}

pub proof fn lemma_hex(n: nat, k: nat)
    ensures
        hex(n, k).len() == k,
        forall|i: int|
            0 <= i < k ==> ('0' <= (#[trigger] hex(n, k)[i]) && hex(n, k)[i] <= '9') || ('a' <= hex(n, k)[i] && hex(n, k)[i] <= 'f'),
    decreases k,
{
    if k > 0 {
        lemma_hex(n / 16, (k - 1) as nat);
    }
}

// ---- Runs and padding -----------------------------------------------

/// `n` times the same character.
pub open spec fn run(c: char, n: nat) -> Seq<char> {
    Seq::new(n, |i: int| c)
}

pub fn run_of(c: char, n: usize) -> (r: String)
    ensures
        r@ == run(c, n as nat),
{
    let mut s = String::new();
    let mut i: usize = 0;
    while i < n
        invariant
            i <= n,
            s@ == run(c, i as nat),
        decreases n - i,
    {
        s.push(c);
        i = i + 1;
        assert(s@ =~= run(c, i as nat));
    }
    assert(s@ =~= run(c, n as nat));
    s
}

/// `s` with blanks at its end up to `width` characters.
pub open spec fn padded(s: Seq<char>, width: nat) -> Seq<char> {
    if s.len() < width {
        s + run(' ', (width - s.len()) as nat)
    } else {
        s
    }
}

pub fn pad(s: &str, width: usize) -> (r: String)
    ensures
        r@ == padded(s@, width as nat),
{
    let n: usize = s.unicode_len();
    if n < width {
        concat(s, &run_of(' ', width - n))
    } else {
        s.to_owned()
    }
}

// ---- Order ----------------------------------------------------------

/// The order of texts by their characters, a prefix before what it starts.
pub open spec fn text_le(a: Seq<char>, b: Seq<char>) -> bool
    decreases a.len(),
{
    if a.len() == 0 {
        true
    } else if b.len() == 0 {
        false
    } else if a[0] != b[0] {
        a[0] < b[0]
    } else {
        text_le(a.drop_first(), b.drop_first())
    }
}

pub proof fn lemma_text_le_total(a: Seq<char>, b: Seq<char>)
    ensures
        text_le(a, b) || text_le(b, a),
        text_le(a, b) && text_le(b, a) ==> a == b,
    decreases a.len(),
{
    if a.len() > 0 && b.len() > 0 {
        lemma_text_le_total(a.drop_first(), b.drop_first());
        if a[0] == b[0] && a.drop_first() == b.drop_first() {
            assert(a =~= seq![a[0]] + a.drop_first());
            assert(b =~= seq![b[0]] + b.drop_first());
        }
    } else if a.len() == 0 && b.len() == 0 {
        assert(a =~= b);
    }
}

pub proof fn lemma_text_le_transitive(a: Seq<char>, b: Seq<char>, c: Seq<char>)
    requires
        text_le(a, b),
        text_le(b, c),
    ensures
        text_le(a, c),
    decreases a.len(),
{
    if a.len() > 0 && b.len() > 0 && c.len() > 0 {
        if a[0] == b[0] && b[0] == c[0] {
            lemma_text_le_transitive(a.drop_first(), b.drop_first(), c.drop_first());
        }
    }
}

pub fn at_most(a: &str, b: &str) -> (r: bool)
    ensures
        r == text_le(a@, b@),
{
    let v = chars_of(a);
    let w = chars_of(b);
    let mut i: usize = 0;
    assert(a@.skip(0) =~= a@);
    assert(b@.skip(0) =~= b@);
    while i < v.len()
        invariant
            v@ == a@,
            w@ == b@,
            i <= v@.len(),
            i <= w@.len(),
            text_le(a@, b@) == text_le(a@.skip(i as int), b@.skip(i as int)),
        decreases v.len() - i,
    {
        if i >= w.len() {
            return false;
        }
        if v[i] != w[i] {
            return v[i] < w[i];
        }
        assert(a@.skip(i as int).drop_first() =~= a@.skip(i as int + 1));
        assert(b@.skip(i as int).drop_first() =~= b@.skip(i as int + 1));
        i = i + 1;
    }
    true
}

// ---- Laws of texts --------------------------------------------------

/// White space is exactly what Unicode calls so: tab to carriage return, the
/// blank, and the separators beyond ASCII.
pub proof fn law_white_space(c: char)
    ensures
        is_white(c) <==> {
            let n = c as u32;
            9 <= n <= 13 || n == 32 || n == 0x85 || n == 0xa0 || n == 0x1680 || 0x2000 <= n <= 0x200a || n == 0x2028
                || n == 0x2029 || n == 0x202f || n == 0x205f || n == 0x3000
        },
{
}

/// What is trimmed is a text with white space around it, and what is left
/// neither starts nor ends with any.
pub proof fn law_trimming_takes_the_ends(s: Seq<char>)
    ensures
        exists|a: int, b: int|
            0 <= a <= b <= s.len() && trimmed(s) == #[trigger] s.subrange(a, b) && (forall|i: int|
                0 <= i < a || b <= i < s.len() ==> is_white(#[trigger] s[i])),
        trimmed(s).len() > 0 ==> !is_white(trimmed(s)[0]) && !is_white(trimmed(s).last()),
{
    let n = lemma_start_trimmed(s);
    let t = s.skip(n);
    let m = lemma_end_trimmed(t);
    let a = n;
    let b = n + m;
    if m == 0 {
        assert(t.take(0) =~= s.subrange(a, b));
    }
    assert(trimmed(s) =~= s.subrange(a, b));
    assert forall|i: int| 0 <= i < a || b <= i < s.len() implies is_white(#[trigger] s[i]) by {
        if i >= b {
            assert(t[i - n] == s[i]);
        }
    }
    if m > 0 {
        assert(trimmed(s)[0] == t[0]);
    }
}

proof fn lemma_start_trimmed(s: Seq<char>) -> (n: int)
    ensures
        0 <= n <= s.len(),
        trim_start(s) == s.skip(n),
        forall|i: int| 0 <= i < n ==> is_white(#[trigger] s[i]),
        n < s.len() ==> !is_white(s[n]),
    decreases s.len(),
{
    if s.len() > 0 && is_white(s[0]) {
        let t = s.drop_first();
        let k = lemma_start_trimmed(t);
        assert(t.skip(k) =~= s.skip(k + 1));
        assert forall|i: int| 0 <= i < k + 1 implies is_white(#[trigger] s[i]) by {
            if i > 0 {
                assert(t[i - 1] == s[i]);
            }
        }
        if k < t.len() {
            assert(t[k] == s[k + 1]);
        }
        k + 1
    } else {
        assert(s.skip(0) =~= s);
        0
    }
}

proof fn lemma_end_trimmed(s: Seq<char>) -> (n: int)
    ensures
        0 <= n <= s.len(),
        trim_end(s) == s.take(n),
        forall|i: int| n <= i < s.len() ==> is_white(#[trigger] s[i]),
        n > 0 ==> !is_white(s[n - 1]),
    decreases s.len(),
{
    if s.len() > 0 && is_white(s.last()) {
        let t = s.drop_last();
        let k = lemma_end_trimmed(t);
        assert(t.take(k) =~= s.take(k));
        assert forall|i: int| k <= i < s.len() implies is_white(#[trigger] s[i]) by {
            if i < t.len() {
                assert(t[i] == s[i]);
            }
        }
        k
    } else {
        assert(s.take(s.len() as int) =~= s);
        s.len() as int
    }
}

/// The words on both sides of white space are the words of each side, and a
/// text without white space is one word.
pub proof fn law_white_space_parts_words(a: Seq<char>, c: char, b: Seq<char>)
    requires
        is_white(c),
    ensures
        words(a + seq![c] + b) == words(a) + words(b),
        words(Seq::<char>::empty()).len() == 0,
        a.len() > 0 && (forall|i: int| 0 <= i < a.len() ==> !is_white(#[trigger] a[i])) ==> words(a) == seq![a],
{
    lemma_white_parts_joined(a + seq![c], b);
    let p = white_parts(a);
    let q = white_parts(b);
    assert((a + seq![c]).drop_last() =~= a);
    lemma_white_parts_some(a);
    lemma_white_parts_some(b);
    let pc = white_parts(a + seq![c]);
    assert(pc == p.push(Seq::empty()));
    let all = white_parts(a + seq![c] + b);
    assert(pc.last() + q[0] =~= q[0]);
    assert(all =~= p + q);
    law_nonempty_of_both(p, q);
    assert(words(Seq::<char>::empty()) =~= Seq::empty()) by {
        let e: Seq<Seq<char>> = seq![Seq::<char>::empty()];
        assert(white_parts(Seq::empty()) == e);
        assert(e.drop_last() =~= Seq::<Seq<char>>::empty());
        assert(e.last().len() == 0);
        reveal_with_fuel(nonempty, 3);
        assert(nonempty(e) == nonempty(e.drop_last()));
    }
    if a.len() > 0 && (forall|i: int| 0 <= i < a.len() ==> !is_white(#[trigger] a[i])) {
        lemma_one_part(a);
        let e = seq![a];
        assert(e.drop_last() =~= Seq::<Seq<char>>::empty());
        reveal_with_fuel(nonempty, 3);
        assert(nonempty(e) =~= seq![a]);
    }
}

proof fn lemma_one_part(s: Seq<char>)
    requires
        forall|i: int| 0 <= i < s.len() ==> !is_white(#[trigger] s[i]),
    ensures
        white_parts(s) == seq![s],
    decreases s.len(),
{
    if s.len() == 0 {
        assert(s =~= Seq::empty());
    } else {
        let t = s.drop_last();
        assert forall|i: int| 0 <= i < t.len() implies !is_white(#[trigger] t[i]) by {
            assert(t[i] == s[i]);
        }
        lemma_one_part(t);
        assert(seq![t].drop_last() =~= Seq::<Seq<char>>::empty());
        assert(t.push(s.last()) =~= s);
        assert(white_parts(s) =~= seq![s]);
    }
}

proof fn lemma_white_parts_some(s: Seq<char>)
    ensures
        white_parts(s).len() > 0,
    decreases s.len(),
{
    if s.len() > 0 {
        lemma_white_parts_some(s.drop_last());
    }
}

proof fn lemma_white_parts_joined(a: Seq<char>, b: Seq<char>)
    ensures
        white_parts(a + b) == white_parts(a).drop_last() + seq![white_parts(a).last() + white_parts(b)[0]]
            + white_parts(b).drop_first(),
    decreases b.len(),
{
    let p = white_parts(a);
    lemma_white_parts_some(a);
    if b.len() == 0 {
        assert(a + b =~= a);
        assert(p.last() + Seq::<char>::empty() =~= p.last());
        assert(p.drop_last() + seq![p.last()] + Seq::<Seq<char>>::empty() =~= p);
        assert(white_parts(b).drop_first() =~= Seq::<Seq<char>>::empty());
    } else {
        let t = b.drop_last();
        lemma_white_parts_joined(a, t);
        lemma_white_parts_some(t);
        assert((a + b).drop_last() =~= a + t);
        let q = white_parts(t);
        let r = white_parts(a + t);
        if is_white(b.last()) {
            assert(white_parts(b) == q.push(Seq::empty()));
            assert(white_parts(a + b) == r.push(Seq::empty()));
            assert(white_parts(a + b) =~= p.drop_last() + seq![p.last() + white_parts(b)[0]] + white_parts(b).drop_first());
        } else {
            let w = white_parts(b);
            assert(w == q.drop_last().push(q.last().push(b.last())));
            if q.len() == 1 {
                assert(w[0] == q[0].push(b.last()));
                assert((p.last() + q[0]).push(b.last()) =~= p.last() + w[0]);
            } else {
                assert(w[0] == q[0]);
            }
            assert(white_parts(a + b) =~= p.drop_last() + seq![p.last() + w[0]] + w.drop_first());
        }
    }
}

/// What is not empty of two lists is what is not empty of each.
pub proof fn law_nonempty_of_both(a: Seq<Seq<char>>, b: Seq<Seq<char>>)
    ensures
        nonempty(a + b) == nonempty(a) + nonempty(b),
        forall|i: int| 0 <= i < nonempty(b).len() ==> (#[trigger] nonempty(b)[i]).len() > 0,
        b.len() == 1 && b[0].len() > 0 ==> nonempty(b) == b,
    decreases b.len(),
{
    if b.len() == 0 {
        assert(a + b =~= a);
        assert(nonempty(a) + nonempty(b) =~= nonempty(a));
    } else {
        law_nonempty_of_both(a, b.drop_last());
        assert((a + b).drop_last() =~= a + b.drop_last());
        assert((a + b).last() == b.last());
        assert(nonempty(a + b) =~= nonempty(a) + nonempty(b));
        if b.len() == 1 && b[0].len() > 0 {
            assert(b.drop_last() =~= Seq::<Seq<char>>::empty());
            assert(nonempty(b) =~= b);
        }
    }
}

/// Joined texts: nothing of nothing, one as it is, and each further one behind
/// the separator.
pub proof fn law_joining(parts: Seq<Seq<char>>, x: Seq<char>, sep: Seq<char>)
    ensures
        join(Seq::empty(), sep) == Seq::<char>::empty(),
        join(seq![x], sep) == x,
        parts.len() > 0 ==> join(parts.push(x), sep) == join(parts, sep) + sep + x,
{
    assert(parts.push(x).drop_last() =~= parts);
}

/// A text is cut at the first `c`: what stands before it holds none, and
/// nothing is lost. Without one, all of it stands before.
pub proof fn law_cut_at_the_first(a: Seq<char>, c: char, b: Seq<char>)
    requires
        !a.contains(c),
    ensures
        before_first(a + seq![c] + b, c) == a,
        after_first(a + seq![c] + b, c) == b,
        before_first(a, c) == a,
        after_first(a, c) == Seq::<char>::empty(),
{
    let s = a + seq![c] + b;
    assert(s[a.len() as int] == c);
    assert forall|k: int| 0 <= k < a.len() implies s[k] != c by {
        assert(a.contains(a[k]));
    }
    lemma_first_index(s, c, a.len() as int);
    assert(s.take(a.len() as int) =~= a);
    assert(s.skip(a.len() as int + 1) =~= b);
}

/// A text holds another exactly where it can be written around it.
pub proof fn law_holding(a: Seq<char>, needle: Seq<char>, b: Seq<char>, hay: Seq<char>)
    ensures
        holds(a + needle + b, needle),
        holds(hay, needle) ==> exists|x: Seq<char>, y: Seq<char>| hay == #[trigger] (x + needle + y),
{
    let s = a + needle + b;
    assert(s.subrange(a.len() as int, a.len() as int + needle.len()) =~= needle);
    if holds(hay, needle) {
        let i = choose|i: int| 0 <= i <= hay.len() - needle.len() && #[trigger] hay.subrange(i, i + needle.len()) == needle;
        let x = hay.take(i);
        let y = hay.skip(i + needle.len());
        assert(hay =~= x + hay.subrange(i, i + needle.len()) + y);
        assert(hay == x + needle + y);
    }
}

/// A number is held by itself where no digit stands on either side of it, and
/// only there.
pub proof fn law_holding_a_bare_number(a: Seq<char>, number: Seq<char>, b: Seq<char>, hay: Seq<char>)
    ensures
        (a.len() == 0 || !('0' <= a.last() <= '9')) && (b.len() == 0 || !('0' <= b[0] <= '9')) ==> holds_bare(
            a + number + b,
            number,
        ),
        holds_bare(hay, number) ==> exists|x: Seq<char>, y: Seq<char>|
            hay == #[trigger] (x + number + y) && (x.len() == 0 || !('0' <= x.last() <= '9')) && (y.len() == 0 || !('0'
                <= y[0] <= '9')),
{
    let s = a + number + b;
    let from = a.len() as int;
    let to = a.len() as int + number.len();
    assert(s.subrange(from, to) =~= number);
    if (a.len() == 0 || !('0' <= a.last() <= '9')) && (b.len() == 0 || !('0' <= b[0] <= '9')) {
        if a.len() > 0 {
            assert(s[from - 1] == a.last());
        }
        if b.len() > 0 {
            assert(s[to] == b[0]);
        }
        assert(no_digit_beside(s, from, to));
    }
    if holds_bare(hay, number) {
        let i = choose|i: int|
            0 <= i <= hay.len() - number.len() && #[trigger] hay.subrange(i, i + number.len()) == number
                && no_digit_beside(hay, i, i + number.len());
        let x = hay.take(i);
        let y = hay.skip(i + number.len());
        assert(hay =~= x + hay.subrange(i, i + number.len()) + y);
        assert(hay == x + number + y);
    }
}

/// A text starts with another exactly where that is what it begins with.
pub proof fn law_starting(s: Seq<char>, prefix: Seq<char>, rest: Seq<char>)
    ensures
        starts(prefix + rest, prefix),
        starts(s, prefix) ==> s == prefix + s.skip(prefix.len() as int),
{
    assert((prefix + rest).take(prefix.len() as int) =~= prefix);
    if starts(s, prefix) {
        assert(s =~= s.take(prefix.len() as int) + s.skip(prefix.len() as int));
    }
}

/// Letter case within ASCII: both ways keep all but letters, lead to the
/// other case, and undo each other.
pub proof fn law_letter_case(c: char)
    ensures
        'a' <= c <= 'z' ==> 'A' <= ascii_upper(c) <= 'Z' && ascii_upper(c) as int - 'A' as int == c as int - 'a' as int && ascii_lower(c) == c,
        'A' <= c <= 'Z' ==> 'a' <= ascii_lower(c) <= 'z' && ascii_lower(c) as int - 'a' as int == c as int - 'A' as int && ascii_upper(c) == c,
        !('a' <= c <= 'z') && !('A' <= c <= 'Z') ==> ascii_upper(c) == c && ascii_lower(c) == c && !is_ascii_letter(c),
        'a' <= c <= 'z' || 'A' <= c <= 'Z' ==> is_ascii_letter(c),
{
}

/// Two texts are the same but for letter case exactly where they are equal in
/// lower case.
pub proof fn law_same_but_for_case(a: Seq<char>, b: Seq<char>)
    ensures
        same_ignoring_case(a, b) <==> a.map_values(|c: char| ascii_lower(c)) == b.map_values(|c: char| ascii_lower(c)),
        same_ignoring_case(a, a),
{
    let x = a.map_values(|c: char| ascii_lower(c));
    let y = b.map_values(|c: char| ascii_lower(c));
    if same_ignoring_case(a, b) {
        assert(x =~= y);
    }
    if x == y {
        assert(a.len() == x.len() && b.len() == y.len());
        assert forall|i: int| 0 <= i < a.len() implies ascii_lower(#[trigger] a[i]) == ascii_lower(b[i]) by {
            assert(x[i] == y[i]);
        }
    }
}

/// A number in decimal is made of digits, without a zero in front but for zero
/// itself; a negative one has a minus sign in front.
pub proof fn law_decimal_digits(n: nat)
    ensures
        forall|i: int| 0 <= i < decimal(n).len() ==> '0' <= (#[trigger] decimal(n)[i]) <= '9',
        decimal(n).len() > 0,
        n > 0 ==> decimal(n)[0] != '0',
        n < 10 ==> decimal(n).len() == 1,
        n > 0 ==> signed_decimal(-n) == seq!['-'] + decimal(n),
        signed_decimal(n as int) == decimal(n),
        n < 100 ==> two_digits(n).len() == 2 && decimal_value(two_digits(n)) == n,
    decreases n,
{
    if n >= 10 {
        law_decimal_digits(n / 10);
    }
    law_decimal_reads_back(n);
    if n < 100 {
        if n < 10 {
            let t = seq!['0', digit(n)];
            assert(t.drop_last() =~= seq!['0']);
            assert(seq!['0'].drop_last() =~= Seq::<char>::empty());
            reveal_with_fuel(decimal_value, 4);
            assert(decimal_value(seq!['0']) == 0);
        } else {
            reveal_with_fuel(decimal, 3);
            assert(decimal(n / 10) == seq![digit(n / 10)]);
        }
    }
}

/// Filling up adds blanks at the end only, and only as many as are missing.
pub proof fn law_filling_up(s: Seq<char>, width: nat)
    ensures
        padded(s, width).take(s.len() as int) == s,
        padded(s, width).len() == (if s.len() < width { width } else { s.len() }),
        forall|i: int| s.len() <= i < padded(s, width).len() ==> (#[trigger] padded(s, width)[i]) == ' ',
{
    assert(padded(s, width).take(s.len() as int) =~= s);
}

/// A run is made of one character, as often as asked.
pub proof fn law_runs(c: char, n: nat)
    ensures
        run(c, n).len() == n,
        forall|i: int| 0 <= i < n ==> (#[trigger] run(c, n)[i]) == c,
{
}

/// The order of texts is that of the first characters in which they differ; a
/// text stands before those that it starts.
pub proof fn law_text_order(a: Seq<char>, b: Seq<char>, k: int)
    requires
        0 <= k <= a.len(),
        k <= b.len(),
        forall|i: int| 0 <= i < k ==> a[i] == b[i],
    ensures
        k == a.len() ==> text_le(a, b),
        k < a.len() && k == b.len() ==> !text_le(a, b),
        k < a.len() && k < b.len() && a[k] != b[k] ==> text_le(a, b) == (a[k] < b[k]),
    decreases k,
{
    if k > 0 {
        law_text_order(a.drop_first(), b.drop_first(), k - 1);
    }
}

/// A hexadecimal digit tells its value, with small letters from ten on, and a
/// further digit adds its value to sixteen times what stood there.
pub proof fn law_hex_digits_tell_their_value(n: nat, k: nat, d: nat)
    requires
        d < 16,
    ensures
        hex(16 * n + d, k + 1) == hex(n, k).push(hex_digit(d)),
        d < 10 ==> hex_digit(d) as int - '0' as int == d,
        d >= 10 ==> hex_digit(d) as int - 'a' as int == d - 10,
{
    assert((16 * n + d) / 16 == n && (16 * n + d) % 16 == d);
}

/// The texts of a list are those of its strings, one for each.
pub proof fn law_texts_of_strings(v: Seq<String>, i: int)
    ensures
        texts(v).len() == v.len(),
        0 <= i < v.len() ==> texts(v)[i] == v[i]@,
{
}

}
